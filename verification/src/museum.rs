//! The classified fields of an admitted record, and the block of text that
//! reports them.

use vstd::prelude::*;
use crate::contains_osm::{address_text, name_text, ContainsOSM};
use crate::tags::ValidTags;

verus! {

/// The fields of an admitted record, sorted into names, address parts and
/// everything else. The last group holds the web addresses to probe.
#[derive(Debug, PartialEq, Eq)]
pub struct Museum {
    pub names: Vec<String>,
    pub adr: Vec<String>,
    pub other: Vec<String>,
}

/// The three groups of a `Museum` as texts.
pub struct MuseumView {
    pub names: Seq<Seq<char>>,
    pub adr: Seq<Seq<char>>,
    pub other: Seq<Seq<char>>,
}

/// The texts of a list of strings.
pub open spec fn texts(items: Seq<String>) -> Seq<Seq<char>> {
    items.map_values(|item: String| item@)
}

impl View for Museum {
    type V = MuseumView;

    open spec fn view(&self) -> MuseumView {
        MuseumView { names: texts(self.names@), adr: texts(self.adr@), other: texts(self.other@) }
    }
}

/// The tag's key is name-like.
pub open spec fn is_identity(tag: (Seq<char>, Seq<char>)) -> bool {
    name_text(tag.0)
}

/// The tag's key is address-like and not name-like.
pub open spec fn is_location(tag: (Seq<char>, Seq<char>)) -> bool {
    !name_text(tag.0) && address_text(tag.0)
}

/// The tag's key is neither name-like nor address-like.
pub open spec fn is_probe_candidate(tag: (Seq<char>, Seq<char>)) -> bool {
    !name_text(tag.0) && !address_text(tag.0)
}

/// The values of a list of tags.
pub open spec fn values_of(tags: Seq<(Seq<char>, Seq<char>)>) -> Seq<Seq<char>> {
    tags.map_values(|tag: (Seq<char>, Seq<char>)| tag.1)
}

/// The classification of a list of tags: each group holds the values of the
/// tags that belong to it, in the order of the list.
pub open spec fn classify(tags: Seq<(Seq<char>, Seq<char>)>) -> MuseumView {
    MuseumView {
        names: values_of(tags.filter(|tag: (Seq<char>, Seq<char>)| is_identity(tag))),
        adr: values_of(tags.filter(|tag: (Seq<char>, Seq<char>)| is_location(tag))),
        other: values_of(tags.filter(|tag: (Seq<char>, Seq<char>)| is_probe_candidate(tag))),
    }
}

/// Appending a tag to a list appends its value to the group the tag belongs
/// to, and leaves the other two groups as they are.
pub proof fn lemma_classify_push(tags: Seq<(Seq<char>, Seq<char>)>, tag: (Seq<char>, Seq<char>))
    ensures
        classify(tags.push(tag)) == if is_identity(tag) {
            MuseumView { names: classify(tags).names.push(tag.1), ..classify(tags) }
        } else if is_location(tag) {
            MuseumView { adr: classify(tags).adr.push(tag.1), ..classify(tags) }
        } else {
            MuseumView { other: classify(tags).other.push(tag.1), ..classify(tags) }
        },
{
    let identity = |tag: (Seq<char>, Seq<char>)| is_identity(tag);
    let location = |tag: (Seq<char>, Seq<char>)| is_location(tag);
    let candidate = |tag: (Seq<char>, Seq<char>)| is_probe_candidate(tag);
    tags.lemma_filter_push(tag, identity);
    tags.lemma_filter_push(tag, location);
    tags.lemma_filter_push(tag, candidate);
    assert(values_of(tags.filter(identity).push(tag)) =~= values_of(tags.filter(identity)).push(
        tag.1,
    ));
    assert(values_of(tags.filter(location).push(tag)) =~= values_of(tags.filter(location)).push(
        tag.1,
    ));
    assert(values_of(tags.filter(candidate).push(tag)) =~= values_of(
        tags.filter(candidate),
    ).push(tag.1));
}

/// Classification leaves no tag out and takes none twice: the three groups
/// together hold as many values as the list holds tags.
pub proof fn lemma_classify_total(tags: Seq<(Seq<char>, Seq<char>)>)
    ensures
        classify(tags).names.len() + classify(tags).adr.len() + classify(tags).other.len()
            == tags.len(),
    decreases tags.len(),
{
    if tags.len() == 0 {
        reveal(Seq::filter);
    } else {
        lemma_classify_total(tags.drop_last());
        lemma_classify_push(tags.drop_last(), tags.last());
        assert(tags =~= tags.drop_last().push(tags.last()));
    }
}

/// The `Debug` form of a list of strings: what `{:?}` gives for a
/// `Vec<String>` that holds these texts.
pub uninterp spec fn debug_list(items: Seq<Seq<char>>) -> Seq<char>;

/// Formats a list of strings with `{:?}`. How `Debug` quotes and escapes is
/// not spelled out here: the contract only names the result, which depends on
/// the strings alone.
#[verifier::external_body]
fn format_list(items: &Vec<String>) -> (text: String)
    ensures
        text@ == debug_list(texts(items@)),
{
    format!("{:?}", items)
}

/// The block of text that reports a museum: one line for each group, in the
/// order names, address, others, and an empty line after them.
pub open spec fn block_text(museum: MuseumView) -> Seq<char> {
    "Name: "@ + debug_list(museum.names) + "\nAdresse: "@ + debug_list(museum.adr)
        + "\nAnderes: "@ + debug_list(museum.other) + "\n\n"@
}

impl Museum {
    /// The block of text that reports this museum.
    pub fn to_string(&self) -> (block: String)
        ensures
            block@ == block_text(self@),
    {
        let names = format_list(&self.names);
        let adr = format_list(&self.adr);
        let other = format_list(&self.other);
        let mut block = String::new();
        block.append("Name: ");
        block.append(names.as_str());
        block.append("\nAdresse: ");
        block.append(adr.as_str());
        block.append("\nAnderes: ");
        block.append(other.as_str());
        block.append("\n\n");
        assert(block@ =~= block_text(self@));
        block
    }

    /// Appends a name.
    pub fn add_name(&mut self, new: String)
        ensures
            final(self).names@ == old(self).names@.push(new),
            final(self).adr == old(self).adr,
            final(self).other == old(self).other,
    {
        self.names.push(new)
    }

    /// Appends a part of the address.
    pub fn add_adr(&mut self, new: String)
        ensures
            final(self).names == old(self).names,
            final(self).adr@ == old(self).adr@.push(new),
            final(self).other == old(self).other,
    {
        self.adr.push(new)
    }

    /// Appends a value that is neither a name nor a part of the address.
    pub fn add_other(&mut self, new: String)
        ensures
            final(self).names == old(self).names,
            final(self).adr == old(self).adr,
            final(self).other@ == old(self).other@.push(new),
    {
        self.other.push(new)
    }

    /// Classifies the kept tags of a record, in their order.
    pub fn from(value: ValidTags) -> (museum: Museum)
        ensures
            museum@ == classify(value@),
            museum.names.len() + museum.adr.len() + museum.other.len() == value.data.len(),
    {
        let ghost tags = value@;
        let mut museum = Museum::default();
        assert(tags.take(0) =~= Seq::empty());
        assert(classify(Seq::empty()) == museum@) by {
            reveal(Seq::filter);
            assert(classify(Seq::empty()).names =~= museum@.names);
            assert(classify(Seq::empty()).adr =~= museum@.adr);
            assert(classify(Seq::empty()).other =~= museum@.other);
        }
        for tag in it: value.data
            invariant
                tags == crate::tags::tag_texts(it.seq()),
                museum@ == classify(tags.take(it.index() as int)),
        {
            let ghost before = museum;
            proof {
                assert(tags.take(it.index() + 1) =~= tags.take(it.index() as int).push(tag@));
                lemma_classify_push(tags.take(it.index() as int), tag@);
            }
            if tag.key.contains_name() {
                museum.add_name(tag.value);
                assert(museum@.names =~= before@.names.push(tag.value@));
            } else if tag.key.contains_adr() {
                museum.add_adr(tag.value);
                assert(museum@.adr =~= before@.adr.push(tag.value@));
            } else {
                museum.add_other(tag.value);
                assert(museum@.other =~= before@.other.push(tag.value@));
            }
        }
        proof {
            assert(tags.take(tags.len() as int) =~= tags);
            lemma_classify_total(tags);
        }
        museum
    }
}

impl Default for Museum {
    fn default() -> (museum: Museum)
        ensures
            museum.names@.len() == 0,
            museum.adr@.len() == 0,
            museum.other@.len() == 0,
    {
        Museum { names: Vec::new(), adr: Vec::new(), other: Vec::new() }
    }
}

} // verus!
