use museum_finder::tags::{admit_entries, admit_tags, is_candidate, Tag, ValidTags};
use osmpbfreader::Tags;

fn tag(key: &str, value: &str) -> Tag {
    Tag { key: key.to_string(), value: value.to_string() }
}

fn record(pairs: &[(&str, &str)]) -> Tags {
    let mut tags = Tags::new();
    for (key, value) in pairs {
        tags.insert((*key).into(), (*value).into());
    }
    tags
}

#[test]
fn record_with_museum_and_link_is_admitted() {
    let tags = record(&[("museum", "Town Museum"), ("website", "http://example.com")]);
    let admitted = admit_tags(&tags);
    assert_eq!(
        admitted,
        Some(ValidTags { data: vec![tag("website", "http://example.com")] })
    );
}

#[test]
fn record_without_museum_and_without_link_is_rejected() {
    let tags = record(&[("name", "Town Hall"), ("addr:city", "Springfield")]);
    assert_eq!(admit_tags(&tags), None);
    assert_eq!(admit_tags(&Tags::new()), None);
    assert_eq!(admit_entries(&Vec::new()), None);
}

#[test]
fn record_with_museum_but_no_link_is_rejected() {
    let tags = record(&[("tourism", "museum"), ("name", "Town Museum")]);
    assert_eq!(admit_tags(&tags), None);
}

#[test]
fn record_with_link_but_no_museum_is_rejected() {
    let tags = record(&[("amenity", "cafe"), ("website", "http://example.com")]);
    assert_eq!(admit_tags(&tags), None);
}

#[test]
fn mail_address_does_not_count_as_link() {
    let tags = record(&[("tourism", "museum"), ("contact:email", "info@example.com")]);
    assert_eq!(admit_tags(&tags), None);
}

#[test]
fn one_value_may_be_museum_and_link_at_once() {
    let entries = vec![tag("website", "http://townmuseum.example.com")];
    assert!(is_candidate(&entries));
    assert_eq!(
        admit_entries(&entries),
        Some(ValidTags { data: vec![tag("website", "http://townmuseum.example.com")] })
    );
}

#[test]
fn kept_tags_are_lower_case_and_in_order() {
    let entries = vec![
        tag("Tourism", "Museum"),
        tag("Name", "Kunsthalle Musterstadt"),
        tag("Opening_Hours", "Mo-Fr 10:00-18:00"),
        tag("Addr:City", "Musterstadt"),
        tag("Website", "HTTP://Kunsthalle.Example.DE"),
        tag("Contact:Phone", "+49 000 0000"),
        tag("Addr:Street", "Hauptstrasse"),
        tag("Name", "Kunsthalle Musterstadt"),
    ];
    let admitted = admit_entries(&entries);
    assert_eq!(
        admitted,
        Some(ValidTags {
            data: vec![
                tag("name", "kunsthalle musterstadt"),
                tag("addr:city", "musterstadt"),
                tag("website", "http://kunsthalle.example.de"),
                tag("contact:phone", "+49 000 0000"),
                tag("name", "kunsthalle musterstadt"),
            ],
        })
    );
}

#[test]
fn tag_is_kept_by_its_key_or_by_a_link_value() {
    let entries = vec![
        tag("note", "see www.example.org"),
        tag("website", "none"),
        tag("email", "info@example.com"),
        tag("addr:country", "DE"),
        tag("contact:email", "info@example.com"),
        tag("alt_name", "x"),
    ];
    assert_eq!(
        ValidTags::from_entries(&entries),
        ValidTags {
            data: vec![
                tag("note", "see www.example.org"),
                tag("addr:country", "de"),
                tag("contact:email", "info@example.com"),
                tag("alt_name", "x"),
            ],
        }
    );
}

#[test]
fn from_keeps_tags_of_any_record() {
    let tags = record(&[("name", "Town Hall"), ("building", "yes")]);
    assert_eq!(ValidTags::from(&tags), ValidTags { data: vec![tag("name", "town hall")] });
    assert_eq!(ValidTags::from(&Tags::new()), ValidTags { data: vec![] });
}

#[test]
fn tags_of_a_record_come_in_the_order_of_the_collection() {
    let tags = record(&[
        ("website", "http://example.com"),
        ("tourism", "museum"),
        ("name", "Town Museum"),
        ("addr:city", "Springfield"),
    ]);
    let walked: Vec<Tag> =
        tags.iter().map(|(key, value)| tag(key.as_str(), value.as_str())).collect();
    assert_eq!(admit_tags(&tags), admit_entries(&walked));
    assert_eq!(
        admit_tags(&tags),
        Some(ValidTags {
            data: vec![
                tag("addr:city", "springfield"),
                tag("name", "town museum"),
                tag("website", "http://example.com"),
            ],
        })
    );
}

#[test]
fn is_candidate_needs_both_kinds_of_value() {
    assert!(is_candidate(&vec![tag("a", "MUSEUM"), tag("b", "www.example.org")]));
    assert!(is_candidate(&vec![tag("b", "www.example.org"), tag("a", "museum")]));
    assert!(!is_candidate(&vec![tag("museum", "yes"), tag("b", "www.example.org")]));
    assert!(!is_candidate(&vec![tag("a", "museum"), tag("website", "none")]));
    assert!(!is_candidate(&vec![]));
}
