//! Keyword predicates over the texts of a record's tags and of fetched pages.
//!
//! Every predicate is case-insensitive: it looks at the lower-case form of the
//! text. The keyword tables are therefore written in lower case.

use vstd::prelude::*;
use crate::text::{
    chars_of, found_at, has_substring, is_substring, is_whitespace, lowercase, lowercase_of,
    trim_bounds, trimmed, whitespace,
};

verus! {

/// Markers of a web address: words of a URL and country-code domain endings.
pub const LINK_MARKERS: [&'static str; 44] = [
    "website", "http", "https", "www.", ".com", ".de", ".at", ".uk", ".eu", ".it", ".by",
    ".ch", ".cz", ".am", ".bg", ".dk", ".ee", ".es", ".fi", ".fr", ".gl", ".gr", ".hr",
    ".hu", ".ie", ".is", ".je", ".li", ".lt", ".lu", ".lv", ".mc", ".md", ".me", ".nl",
    ".no", ".pl", ".pt", ".ro", ".rs", ".se", ".si", ".sk", ".ua",
];

/// A text that holds this is taken for an e-mail address, never for a link.
pub const MAIL_MARKERS: [&'static str; 1] = ["@"];

/// Markers of a key that names the object.
pub const NAME_MARKERS: [&'static str; 1] = ["name"];

/// Markers of a key that holds part of an address.
pub const ADDRESS_MARKERS: [&'static str; 2] = ["city", "country"];

/// Markers of a key that holds contact data.
pub const CONTACT_MARKERS: [&'static str; 1] = ["contact"];

/// Markers of a value that describes a museum.
pub const MUSEUM_MARKERS: [&'static str; 1] = ["museum"];

/// The word for art in the languages of the region, and abbreviations of it.
pub const ART_KEYWORDS: [&'static str; 23] = [
    "art", "изкуство", "kunst", "taide", "τέχνη", "ealaín", "gr", "arte", "קונסט",
    "umjetnost", "чл", "sztuka", "artă", "искусство", "konst", "уметност", "čl",
    "umetnost", "umění", "ст", "művészet", "celf", "арт",
];

/// The entries of a table as texts.
pub open spec fn table_texts(table: Seq<&'static str>) -> Seq<Seq<char>> {
    table.map_values(|entry: &'static str| entry@)
}

/// Some entry of `table` stands in `text`.
pub open spec fn any_within(text: Seq<char>, table: Seq<Seq<char>>) -> bool {
    exists|i: int| 0 <= i < table.len() && is_substring(text, #[trigger] table[i])
}

/// `token` is an entry of `table`.
pub open spec fn any_equal(token: Seq<char>, table: Seq<Seq<char>>) -> bool {
    exists|i: int| 0 <= i < table.len() && token == #[trigger] table[i]
}

/// `text[from..to]` is one of the pieces into which white space cuts `text`:
/// it holds no white space, and white space or an end of the text stands on
/// either side of it.
pub open spec fn is_piece(text: Seq<char>, from: int, to: int) -> bool {
    &&& 0 <= from <= to <= text.len()
    &&& from == 0 || is_whitespace(text[from - 1])
    &&& to == text.len() || is_whitespace(text[to])
    &&& forall|k: int| from <= k < to ==> !is_whitespace(text[k])
}

/// Some piece of `text` between white space, once trimmed, is an art keyword.
/// A keyword inside a longer word does not count.
pub open spec fn has_art_token(text: Seq<char>) -> bool {
    exists|from: int, to: int|
        #[trigger] is_piece(text, from, to) && any_equal(
            trimmed(text.subrange(from, to)),
            table_texts(ART_KEYWORDS@),
        )
}

/// A piece holds no white space, so trimming leaves it as it is: a piece is
/// a token exactly when it is itself a keyword.
pub proof fn lemma_piece_is_trimmed(text: Seq<char>, from: int, to: int)
    requires
        is_piece(text, from, to),
    ensures
        trimmed(text.subrange(from, to)) == text.subrange(from, to),
{
    let piece = text.subrange(from, to);
    if piece.len() > 0 {
        assert(piece.first() == text[from]);
        assert(piece.last() == text[to - 1]);
    }
}

/// The text mentions art as a word of its own, in any letter case.
pub open spec fn art_text(s: Seq<char>) -> bool {
    has_art_token(lowercase_of(s))
}

/// The text looks like a web address, in any letter case: it holds a link
/// marker and no `@`.
pub open spec fn link_text(s: Seq<char>) -> bool {
    any_within(lowercase_of(s), table_texts(LINK_MARKERS@)) && !any_within(
        lowercase_of(s),
        table_texts(MAIL_MARKERS@),
    )
}

/// The text holds "name", in any letter case.
pub open spec fn name_text(s: Seq<char>) -> bool {
    any_within(lowercase_of(s), table_texts(NAME_MARKERS@))
}

/// The text holds "contact", in any letter case.
pub open spec fn contact_text(s: Seq<char>) -> bool {
    any_within(lowercase_of(s), table_texts(CONTACT_MARKERS@))
}

/// The text holds "city" or "country", in any letter case.
pub open spec fn address_text(s: Seq<char>) -> bool {
    any_within(lowercase_of(s), table_texts(ADDRESS_MARKERS@))
}

/// The text holds "museum", in any letter case.
pub open spec fn museum_text(s: Seq<char>) -> bool {
    any_within(lowercase_of(s), table_texts(MUSEUM_MARKERS@))
}

/// The texts of a table of character rows.
pub open spec fn row_texts(rows: Seq<Vec<char>>) -> Seq<Seq<char>> {
    rows.map_values(|row: Vec<char>| row@)
}

/// The entries of a table as characters.
pub fn table_chars<const N: usize>(table: &[&'static str; N]) -> (entries: Vec<Vec<char>>)
    ensures
        row_texts(entries@) == table_texts(table@),
{
    let mut entries: Vec<Vec<char>> = Vec::new();
    let mut i: usize = 0;
    while i < N
        invariant
            i <= N,
            table@.len() == N,
            entries.len() == i,
            forall|j: int| 0 <= j < i ==> (#[trigger] entries@[j])@ == table@[j]@,
        decreases N - i,
    {
        entries.push(chars_of(table[i]));
        i += 1;
    }
    assert(row_texts(entries@) =~= table_texts(table@));
    entries
}

/// Tests whether some entry of `table` stands in `text`.
pub fn contains_any(text: &Vec<char>, table: &Vec<Vec<char>>) -> (found: bool)
    ensures
        found == any_within(text@, row_texts(table@)),
{
    let mut i: usize = 0;
    while i < table.len()
        invariant
            i <= table.len(),
            forall|j: int| 0 <= j < i ==> !is_substring(text@, #[trigger] row_texts(table@)[j]),
        decreases table.len() - i,
    {
        if has_substring(text, &table[i]) {
            assert(row_texts(table@)[i as int] == table@[i as int]@);
            return true;
        }
        i += 1;
    }
    false
}

/// Tests whether `text[from..to]` is an entry of `table`.
pub fn equals_any(text: &Vec<char>, from: usize, to: usize, table: &Vec<Vec<char>>) -> (found:
    bool)
    requires
        from <= to <= text.len(),
    ensures
        found == any_equal(text@.subrange(from as int, to as int), row_texts(table@)),
{
    let ghost token = text@.subrange(from as int, to as int);
    let mut i: usize = 0;
    while i < table.len()
        invariant
            i <= table.len(),
            from <= to <= text.len(),
            token == text@.subrange(from as int, to as int),
            forall|j: int| 0 <= j < i ==> token != #[trigger] row_texts(table@)[j],
        decreases table.len() - i,
    {
        if table[i].len() == to - from && found_at(text, &table[i], from) {
            assert(row_texts(table@)[i as int] == table@[i as int]@);
            return true;
        }
        i += 1;
    }
    false
}

/// Tests whether a lower-case text holds an art keyword as a token.
pub fn find_art_token(text: &Vec<char>) -> (found: bool)
    ensures
        found == has_art_token(text@),
{
    let keywords = table_chars(&ART_KEYWORDS);
    let mut from: usize = 0;
    let mut at: usize = 0;
    loop
        invariant
            from <= at <= text.len(),
            row_texts(keywords@) == table_texts(ART_KEYWORDS@),
            from == 0 || is_whitespace(text@[from - 1]),
            forall|k: int| from <= k < at ==> !is_whitespace(text@[k]),
            forall|f: int, t: int|
                #[trigger] is_piece(text@, f, t) && t < from ==> !any_equal(
                    trimmed(text@.subrange(f, t)),
                    table_texts(ART_KEYWORDS@),
                ),
        decreases text.len() - at,
    {
        if at == text.len() || whitespace(text[at]) {
            let (start, end) = trim_bounds(text, from, at);
            if equals_any(text, start, end, &keywords) {
                assert(is_piece(text@, from as int, at as int));
                return true;
            }
            assert forall|f: int, t: int| #[trigger]
                is_piece(text@, f, t) && t <= at implies !any_equal(
                trimmed(text@.subrange(f, t)),
                table_texts(ART_KEYWORDS@),
            ) by {
                if t >= from {
                    assert(t == at);
                    if f < from {
                        assert(is_whitespace(text@[from - 1]));
                    } else if f > from {
                        assert(is_whitespace(text@[f - 1]));
                    }
                    assert(f == from);
                }
            }
            if at == text.len() {
                return false;
            }
            from = at + 1;
        }
        at += 1;
    }
}

/// Classification of a text by the keywords it holds. Every method looks at
/// the lower-case form of the text.
pub trait ContainsOSM {
    /// The characters of the text.
    spec fn text(&self) -> Seq<char>;

    /// Whether the text mentions art as a word of its own.
    fn contains_art(&self) -> (found: bool)
        ensures
            found == art_text(self.text()),
    ;

    /// Whether the text looks like a web address.
    fn contains_link(&self) -> (found: bool)
        ensures
            found == link_text(self.text()),
    ;

    /// Whether the text holds "name".
    fn contains_name(&self) -> (found: bool)
        ensures
            found == name_text(self.text()),
    ;

    /// Whether the text holds "contact".
    fn contains_other(&self) -> (found: bool)
        ensures
            found == contact_text(self.text()),
    ;

    /// Whether the text holds "city" or "country".
    fn contains_adr(&self) -> (found: bool)
        ensures
            found == address_text(self.text()),
    ;

    /// Whether the text holds "museum".
    fn contains_museum(&self) -> (found: bool)
        ensures
            found == museum_text(self.text()),
    ;
}

impl ContainsOSM for String {
    open spec fn text(&self) -> Seq<char> {
        self@
    }

    fn contains_art(&self) -> (found: bool) {
        let lowered = lowercase(self.as_str());
        let chars = chars_of(lowered.as_str());
        find_art_token(&chars)
    }

    fn contains_link(&self) -> (found: bool) {
        let lowered = lowercase(self.as_str());
        let chars = chars_of(lowered.as_str());
        contains_any(&chars, &table_chars(&LINK_MARKERS)) && !contains_any(
            &chars,
            &table_chars(&MAIL_MARKERS),
        )
    }

    fn contains_name(&self) -> (found: bool) {
        let lowered = lowercase(self.as_str());
        let chars = chars_of(lowered.as_str());
        contains_any(&chars, &table_chars(&NAME_MARKERS))
    }

    fn contains_other(&self) -> (found: bool) {
        let lowered = lowercase(self.as_str());
        let chars = chars_of(lowered.as_str());
        contains_any(&chars, &table_chars(&CONTACT_MARKERS))
    }

    fn contains_adr(&self) -> (found: bool) {
        let lowered = lowercase(self.as_str());
        let chars = chars_of(lowered.as_str());
        contains_any(&chars, &table_chars(&ADDRESS_MARKERS))
    }

    fn contains_museum(&self) -> (found: bool) {
        let lowered = lowercase(self.as_str());
        let chars = chars_of(lowered.as_str());
        contains_any(&chars, &table_chars(&MUSEUM_MARKERS))
    }
}

} // verus!
