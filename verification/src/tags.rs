//! The record filter: which records are admitted, and which of their tags are
//! kept for the rest of the pipeline.

use vstd::prelude::*;
use osmpbfreader::Tags;
use crate::contains_osm::{
    address_text, contact_text, link_text, museum_text, name_text, ContainsOSM,
};
use crate::text::{lowercase, lowercase_of};

verus! {

/// The tag collection of a record, as the dataset reader hands it over.
#[verifier::external_type_specification]
#[verifier::external_body]
pub struct ExTags(osmpbfreader::Tags);

/// What a tag collection holds: its (key, value) pairs, in the order in which
/// it hands them out.
pub uninterp spec fn entries_of(tags: &Tags) -> Seq<(Seq<char>, Seq<char>)>;

/// One tag of a record.
#[derive(Debug, PartialEq, Eq)]
pub struct Tag {
    pub key: String,
    pub value: String,
}

impl View for Tag {
    type V = (Seq<char>, Seq<char>);

    open spec fn view(&self) -> (Seq<char>, Seq<char>) {
        (self.key@, self.value@)
    }
}

/// The (key, value) texts of a list of tags.
pub open spec fn tag_texts(tags: Seq<Tag>) -> Seq<(Seq<char>, Seq<char>)> {
    tags.map_values(|tag: Tag| tag@)
}

/// Walks a tag collection with `FlatMap::iter`, which `Tags` derefs to, and
/// copies each pair into a `Tag`. The result holds the collection's pairs in
/// the order of the walk.
#[verifier::external_body]
fn read_entries(tags: &Tags) -> (entries: Vec<Tag>)
    ensures
        tag_texts(entries@) == entries_of(tags),
{
    tags.iter().map(|(key, value)| Tag { key: key.to_string(), value: value.to_string() }).collect()
}

/// The tags of an admitted record that the pipeline needs, in lower case.
#[derive(Debug, PartialEq, Eq)]
pub struct ValidTags {
    pub data: Vec<Tag>,
}

impl View for ValidTags {
    type V = Seq<(Seq<char>, Seq<char>)>;

    open spec fn view(&self) -> Seq<(Seq<char>, Seq<char>)> {
        tag_texts(self.data@)
    }
}

/// The lower-case form of a tag.
pub open spec fn lowered(entry: (Seq<char>, Seq<char>)) -> (Seq<char>, Seq<char>) {
    (lowercase_of(entry.0), lowercase_of(entry.1))
}

/// A tag is kept where its key is name-like, address-like or contact-like, or
/// where its value looks like a link.
pub open spec fn is_kept(entry: (Seq<char>, Seq<char>)) -> bool {
    name_text(entry.0) || address_text(entry.0) || contact_text(entry.0) || link_text(entry.1)
}

/// The tags that are kept of a record: each tag in lower case, those that
/// `is_kept` rejects left out, the others in the order of the record.
pub open spec fn kept_entries(entries: Seq<(Seq<char>, Seq<char>)>) -> Seq<(Seq<char>, Seq<char>)> {
    entries.map_values(|entry: (Seq<char>, Seq<char>)| lowered(entry)).filter(
        |entry: (Seq<char>, Seq<char>)| is_kept(entry),
    )
}

/// Some value of the record describes a museum.
pub open spec fn has_museum_value(entries: Seq<(Seq<char>, Seq<char>)>) -> bool {
    exists|i: int| 0 <= i < entries.len() && museum_text((#[trigger] entries[i]).1)
}

/// Some value of the record looks like a link.
pub open spec fn has_link_value(entries: Seq<(Seq<char>, Seq<char>)>) -> bool {
    exists|i: int| 0 <= i < entries.len() && link_text((#[trigger] entries[i]).1)
}

/// A record is admitted where one of its values describes a museum and one of
/// its values looks like a link.
pub open spec fn qualifies(entries: Seq<(Seq<char>, Seq<char>)>) -> bool {
    has_museum_value(entries) && has_link_value(entries)
}

/// Tests whether the tags are those of a record to admit.
pub fn is_candidate(entries: &Vec<Tag>) -> (admitted: bool)
    ensures
        admitted == qualifies(tag_texts(entries@)),
{
    let ghost texts = tag_texts(entries@);
    let mut contains_museum = false;
    let mut contains_website = false;
    let mut i: usize = 0;
    while i < entries.len()
        invariant
            i <= entries.len(),
            texts == tag_texts(entries@),
            contains_museum == has_museum_value(texts.take(i as int)),
            contains_website == has_link_value(texts.take(i as int)),
        decreases entries.len() - i,
    {
        let found_museum = entries[i].value.contains_museum();
        let found_link = entries[i].value.contains_link();
        proof {
            let before = texts.take(i as int);
            let after = texts.take(i + 1);
            assert(after[i as int] == texts[i as int]);
            assert(texts[i as int].1 == entries@[i as int].value@);
            assert forall|j: int| 0 <= j < i implies before[j] == after[j] by {}
            if has_museum_value(before) {
                let j = choose|j: int| 0 <= j < before.len() && museum_text((#[trigger] before[j]).1);
                assert(museum_text(after[j].1));
            }
            if has_link_value(before) {
                let j = choose|j: int| 0 <= j < before.len() && link_text((#[trigger] before[j]).1);
                assert(link_text(after[j].1));
            }
            if has_museum_value(after) && !found_museum {
                let j = choose|j: int| 0 <= j < after.len() && museum_text((#[trigger] after[j]).1);
                assert(museum_text(before[j].1));
            }
            if has_link_value(after) && !found_link {
                let j = choose|j: int| 0 <= j < after.len() && link_text((#[trigger] after[j]).1);
                assert(link_text(before[j].1));
            }
        }
        contains_museum = contains_museum || found_museum;
        contains_website = contains_website || found_link;
        i += 1;
    }
    assert(texts.take(entries.len() as int) =~= texts);
    contains_museum && contains_website
}

/// Appending a tag to a record appends its lower-case form to the kept tags
/// where `is_kept` accepts that form, and changes nothing where it does not.
pub proof fn lemma_kept_entries_push(
    entries: Seq<(Seq<char>, Seq<char>)>,
    entry: (Seq<char>, Seq<char>),
)
    ensures
        kept_entries(entries.push(entry)) == if is_kept(lowered(entry)) {
            kept_entries(entries).push(lowered(entry))
        } else {
            kept_entries(entries)
        },
{
    let lower = |entry: (Seq<char>, Seq<char>)| lowered(entry);
    let keep = |entry: (Seq<char>, Seq<char>)| is_kept(entry);
    assert(entries.push(entry).map_values(lower) =~= entries.map_values(lower).push(
        lowered(entry),
    ));
    entries.map_values(lower).lemma_filter_push(lowered(entry), keep);
}

/// The kept tags are the record's tags in lower case, each taken at most once
/// and in the record's order: `origin[j]` is the place in the record of the
/// `j`-th kept tag. Every tag that `is_kept` accepts in lower case is among
/// them, and no other.
pub proof fn lemma_kept_entries_in_order(entries: Seq<(Seq<char>, Seq<char>)>) -> (origin: Seq<int>)
    ensures
        origin.len() == kept_entries(entries).len(),
        forall|j: int| 0 <= j < origin.len() ==> 0 <= #[trigger] origin[j] < entries.len(),
        forall|j: int, k: int| 0 <= j < k < origin.len() ==> origin[j] < origin[k],
        forall|j: int|
            0 <= j < origin.len() ==> #[trigger] kept_entries(entries)[j] == lowered(
                entries[origin[j]],
            ),
        forall|j: int| 0 <= j < origin.len() ==> is_kept(#[trigger] kept_entries(entries)[j]),
        forall|i: int|
            0 <= i < entries.len() && is_kept(lowered(#[trigger] entries[i])) ==> origin.contains(
                i,
            ),
    decreases entries.len(),
{
    if entries.len() == 0 {
        assert(kept_entries(entries) =~= Seq::empty()) by {
            reveal(Seq::filter);
        }
        Seq::empty()
    } else {
        let front = entries.drop_last();
        let last = entries.last();
        let before = lemma_kept_entries_in_order(front);
        assert(entries =~= front.push(last));
        lemma_kept_entries_push(front, last);
        if is_kept(lowered(last)) {
            let origin = before.push(entries.len() - 1);
            assert forall|i: int|
                0 <= i < entries.len() && is_kept(lowered(#[trigger] entries[i])) implies origin.contains(
                i,
            ) by {
                if i < front.len() {
                    assert(front[i] == entries[i]);
                    let j = choose|j: int| 0 <= j < before.len() && before[j] == i;
                    assert(origin[j] == i);
                } else {
                    assert(origin[origin.len() - 1] == i);
                }
            }
            origin
        } else {
            assert forall|i: int|
                0 <= i < entries.len() && is_kept(lowered(#[trigger] entries[i])) implies before.contains(
                i,
            ) by {
                assert(front[i] == entries[i]);
            }
            before
        }
    }
}

impl ValidTags {
    /// Keeps of a list of tags those that the pipeline needs, in lower case.
    pub fn from_entries(entries: &Vec<Tag>) -> (valid: ValidTags)
        ensures
            valid@ == kept_entries(tag_texts(entries@)),
    {
        let ghost texts = tag_texts(entries@);
        let mut data: Vec<Tag> = Vec::new();
        let mut i: usize = 0;
        assert(texts.take(0) =~= Seq::empty());
        assert(kept_entries(Seq::empty()) =~= Seq::empty()) by {
            reveal(Seq::filter);
        }
        while i < entries.len()
            invariant
                i <= entries.len(),
                texts == tag_texts(entries@),
                tag_texts(data@) == kept_entries(texts.take(i as int)),
            decreases entries.len() - i,
        {
            let key = lowercase(entries[i].key.as_str());
            let value = lowercase(entries[i].value.as_str());
            proof {
                assert(texts.take(i + 1) =~= texts.take(i as int).push(texts[i as int]));
                lemma_kept_entries_push(texts.take(i as int), texts[i as int]);
            }
            if key.contains_name() || key.contains_adr() || key.contains_other()
                || value.contains_link() {
                let ghost before = data@;
                let tag = Tag { key, value };
                data.push(tag);
                assert(tag_texts(data@) =~= tag_texts(before).push(tag@));
            }
            i += 1;
        }
        assert(texts.take(entries.len() as int) =~= texts);
        ValidTags { data }
    }

    /// Keeps of a record's tags those that the pipeline needs, in lower case.
    pub fn from(tags: &Tags) -> (valid: ValidTags)
        ensures
            valid@ == kept_entries(entries_of(tags)),
    {
        let entries = read_entries(tags);
        ValidTags::from_entries(&entries)
    }
}

/// The record filter on a list of tags: `None` where the record is not
/// admitted, else the tags that are kept of it.
pub fn admit_entries(entries: &Vec<Tag>) -> (admitted: Option<ValidTags>)
    ensures
        admitted is Some <==> qualifies(tag_texts(entries@)),
        admitted matches Some(valid) ==> valid@ == kept_entries(tag_texts(entries@)),
        !has_museum_value(tag_texts(entries@)) && !has_link_value(tag_texts(entries@))
            ==> admitted is None,
{
    if is_candidate(entries) {
        Some(ValidTags::from_entries(entries))
    } else {
        None
    }
}

/// The record filter: `None` where the record is not admitted, else the tags
/// that are kept of it.
pub fn admit_tags(tags: &Tags) -> (admitted: Option<ValidTags>)
    ensures
        admitted is Some <==> qualifies(entries_of(tags)),
        admitted matches Some(valid) ==> valid@ == kept_entries(entries_of(tags)),
        !has_museum_value(entries_of(tags)) && !has_link_value(entries_of(tags))
            ==> admitted is None,
{
    let entries = read_entries(tags);
    admit_entries(&entries)
}

} // verus!
