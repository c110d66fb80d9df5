use museum_finder::contains_osm::{
    contains_any, equals_any, find_art_token, table_chars, ContainsOSM, ART_KEYWORDS,
    LINK_MARKERS,
};
use museum_finder::text::chars_of;

fn text(s: &str) -> String {
    s.to_string()
}

#[test]
fn art_is_found_as_a_word() {
    assert!(text("local art exhibit").contains_art());
    assert!(text("art").contains_art());
    assert!(text("modern art").contains_art());
    assert!(text("art of glass").contains_art());
}

#[test]
fn art_inside_a_longer_word_does_not_count() {
    assert!(!text("the arts").contains_art());
    assert!(!text("arts").contains_art());
    assert!(!text("party smart cartoon").contains_art());
    assert!(!text("gift shop hours").contains_art());
}

#[test]
fn art_is_found_in_any_letter_case() {
    assert!(text("Local ART exhibit").contains_art());
    assert!(text("Moderne Kunst").contains_art());
    assert!(text("ΤΈΧΝΗ").contains_art());
    assert!(text("Ealaín na hÉireann").contains_art());
    assert!(text("Moderna Umetnost").contains_art());
}

#[test]
fn art_keywords_of_other_scripts_are_found() {
    assert!(text("музей искусство").contains_art());
    assert!(text("קונסט").contains_art());
    assert!(text("artă modernă").contains_art());
    assert!(text("muzeum umění").contains_art());
}

#[test]
fn tokens_are_cut_at_any_white_space() {
    assert!(text("local\nart\texhibit").contains_art());
    assert!(text("gallery \tart\n and more").contains_art());
    assert!(text("gallery\tart\n and more").contains_art());
    assert!(text("fine\nart").contains_art());
    assert!(text("  art  ").contains_art());
    assert!(text("see\u{a0} art\u{2003} today").contains_art());
    assert!(text("see\u{a0}art\u{2003}today").contains_art());
    assert!(text("hours\r\nart\r\n").contains_art());
    assert!(text("a\u{3000}kunst\u{2028}b").contains_art());
    assert!(!text("fine\u{200b}art").contains_art());
    assert!(!text("fine_art").contains_art());
    assert!(!text("art,").contains_art());
    assert!(!text("").contains_art());
    assert!(!text("   ").contains_art());
    assert!(!text(" \t\n").contains_art());
}

#[test]
fn tokens_agree_with_the_standard_library() {
    let bodies = [
        "local art exhibit",
        "local\nart\texhibit",
        "<p>art</p>\n<p>kunst\t</p>",
        "the arts\nsmart\tparty",
        "\u{a0}taide\u{a0}",
        "x\u{85}gr\u{1680}y",
        "ARTE\u{205f}moderna",
        "",
        "\n",
    ];
    for body in bodies {
        let lowered = body.to_lowercase();
        let expected = lowered.split_whitespace().any(|token| ART_KEYWORDS.contains(&token.trim()));
        assert_eq!(body.to_string().contains_art(), expected);
    }
}

#[test]
fn find_art_token_reads_the_text_as_it_stands() {
    assert!(find_art_token(&chars_of("some art here")));
    assert!(!find_art_token(&chars_of("some ART here")));
    assert!(find_art_token(&chars_of("gr")));
    assert!(!find_art_token(&chars_of("grand")));
    assert!(find_art_token(&chars_of("local\nart\texhibit")));
    assert!(!find_art_token(&chars_of("local\narts\texhibit")));
}

#[test]
fn link_is_found_by_its_markers() {
    assert!(text("http://example.com").contains_link());
    assert!(text("https://museum.example.org").contains_link());
    assert!(text("www.example.org").contains_link());
    assert!(text("example.de").contains_link());
    assert!(text("website").contains_link());
    assert!(text("EXAMPLE.COM").contains_link());
    assert!(text("kunsthalle.ua").contains_link());
}

#[test]
fn mail_address_is_no_link() {
    assert!(!text("info@example.com").contains_link());
    assert!(!text("mailto:someone@museum.de").contains_link());
    assert!(!text("http://example.com/@page").contains_link());
}

#[test]
fn plain_words_are_no_link() {
    assert!(!text("Town Museum").contains_link());
    assert!(!text("").contains_link());
    assert!(!text("example.org").contains_link());
}

#[test]
fn key_predicates_look_for_their_words() {
    assert!(text("name").contains_name());
    assert!(text("official_name:de").contains_name());
    assert!(text("Name").contains_name());
    assert!(!text("nam").contains_name());
    assert!(text("contact:phone").contains_other());
    assert!(text("CONTACT").contains_other());
    assert!(!text("phone").contains_other());
    assert!(text("addr:city").contains_adr());
    assert!(text("addr:country").contains_adr());
    assert!(text("City").contains_adr());
    assert!(!text("addr:street").contains_adr());
}

#[test]
fn museum_is_found_in_any_letter_case() {
    assert!(text("Town Museum").contains_museum());
    assert!(text("MUSEUM").contains_museum());
    assert!(text("museum").contains_museum());
    assert!(text("Heimatmuseum Musterstadt").contains_museum());
    assert!(!text("Town Hall").contains_museum());
    assert!(!text("muse um").contains_museum());
}

#[test]
fn table_chars_gives_each_entry() {
    let markers = table_chars(&LINK_MARKERS);
    assert_eq!(markers.len(), 44);
    assert_eq!(markers[0], chars_of("website"));
    assert_eq!(markers[43], chars_of(".ua"));
    let keywords = table_chars(&ART_KEYWORDS);
    assert_eq!(keywords.len(), 23);
    assert_eq!(keywords[0], vec!['a', 'r', 't']);
    assert_eq!(keywords[22], chars_of("арт"));
    for keyword in ART_KEYWORDS {
        assert_eq!(keyword.to_lowercase(), keyword);
    }
}

#[test]
fn contains_any_searches_every_entry() {
    let markers = table_chars(&LINK_MARKERS);
    assert!(contains_any(&chars_of("x.ua"), &markers));
    assert!(contains_any(&chars_of("a website b"), &markers));
    assert!(!contains_any(&chars_of("nothing here"), &markers));
    assert!(!contains_any(&chars_of(""), &markers));
    assert!(!contains_any(&chars_of("website"), &Vec::new()));
}

#[test]
fn equals_any_compares_the_whole_range() {
    let keywords = table_chars(&ART_KEYWORDS);
    let chars = chars_of("an art show");
    assert!(equals_any(&chars, 3, 6, &keywords));
    assert!(!equals_any(&chars, 3, 7, &keywords));
    assert!(!equals_any(&chars, 2, 6, &keywords));
    assert!(!equals_any(&chars, 3, 3, &keywords));
    let last = chars_of("the арт");
    assert!(equals_any(&last, 4, 7, &keywords));
}

#[test]
fn every_art_keyword_is_found() {
    for keyword in ART_KEYWORDS {
        assert!(keyword.to_string().contains_art());
        assert!(format!("museum of {} today", keyword).contains_art());
        assert!(!format!("x{}", keyword).contains_art());
        assert!(!format!("{}x", keyword).contains_art());
    }
}

#[test]
fn every_link_marker_is_found() {
    for marker in LINK_MARKERS {
        assert!(format!("a{}b", marker).contains_link());
        assert!(!format!("a{}b@c", marker).contains_link());
    }
}
