//! Text primitives that the composer and the widgets build on: characters,
//! grapheme clusters, display widths and case-insensitive literal matches.

use unicode_segmentation::UnicodeSegmentation;
use unicode_width::UnicodeWidthStr;
use vstd::prelude::*;

verus! {

/// The grapheme clusters (extended) of a text, in order.
pub uninterp spec fn grapheme_clusters(s: Seq<char>) -> Seq<Seq<char>>;

/// The number of terminal columns that a text takes.
pub uninterp spec fn display_width(s: Seq<char>) -> usize;

/// The byte ranges of the non-overlapping case-insensitive occurrences of
/// `needle`, taken literally, in `haystack`.
pub uninterp spec fn literal_matches(haystack: Seq<char>, needle: Seq<char>) -> Seq<(usize, usize)>;

/// Whether a text is a pattern that the regular-expression engine accepts.
pub uninterp spec fn pattern_accepted(pattern: Seq<char>) -> bool;

/// Whether an accepted pattern matches somewhere in `name`.
pub uninterp spec fn pattern_matches(pattern: Seq<char>, name: Seq<char>) -> bool;

/// The pieces of `parts` one after the other.
pub open spec fn joined(parts: Seq<Seq<char>>) -> Seq<char>
    decreases parts.len(),
{
    if parts.len() == 0 {
        Seq::empty()
    } else {
        joined(parts.drop_last()) + parts.last()
    }
}

/// The texts of a list of strings.
pub open spec fn texts_of(v: Seq<String>) -> Seq<Seq<char>> {
    v.map_values(|s: String| s@)
}

/// The characters of the text, in order.
pub fn chars_of(s: &str) -> (r: Vec<char>)
    ensures
        r@ == s@,
{
    let mut out: Vec<char> = Vec::new();
    for c in it: s.chars()
        invariant
            out@.len() == it.index(),
            forall|j: int| 0 <= j < out@.len() ==> out@[j] == it.seq()[j],
    {
        out.push(c);
    }
    assert(out@ =~= s@);
    out
}

/// Relies on `String::push`: appends one character.
#[verifier::external_body]
pub fn push_char(s: &mut String, c: char)
    ensures
        final(s)@ == old(s)@.push(c),
{
    s.push(c)
}

/// Relies on `UnicodeSegmentation::graphemes` (extended clusters): the
/// clusters are consecutive non-empty pieces of the text that together make
/// it up.
#[verifier::external_body]
pub fn graphemes_of(s: &str) -> (r: Vec<String>)
    ensures
        texts_of(r@) == grapheme_clusters(s@),
        joined(texts_of(r@)) == s@,
        forall|i: int| 0 <= i < r@.len() ==> (#[trigger] r@[i])@.len() > 0,
{
    s.graphemes(true).map(|g| g.to_string()).collect()
}

/// Relies on `UnicodeWidthStr::width`: the display width of a text.
#[verifier::external_body]
pub fn width_of(s: &str) -> (r: usize)
    ensures
        r == display_width(s@),
{
    s.width()
}

/// Relies on `regex::escape`, `Regex::new` and `Regex::find_iter`: the byte
/// ranges where `needle`, escaped and with the case-insensitive flag, matches
/// in `haystack`; none where the engine refuses the pattern.
#[verifier::external_body]
pub fn find_literal_matches(haystack: &str, needle: &str) -> (r: Vec<(usize, usize)>)
    ensures
        r@ == literal_matches(haystack@, needle@),
{
    match regex::Regex::new(&format!("(?i){}", regex::escape(needle))) {
        Ok(re) => re.find_iter(haystack).map(|m| (m.start(), m.end())).collect(),
        Err(_) => Vec::new(),
    }
}

/// Relies on `Regex::new` and `Regex::is_match`: for each name whether the
/// pattern matches in it, or nothing where the engine refuses the pattern.
#[verifier::external_body]
pub fn match_names(pattern: &str, names: &Vec<String>) -> (r: Option<Vec<bool>>)
    ensures
        r is Some <==> pattern_accepted(pattern@),
        r is Some ==> r->0@.len() == names@.len(),
        r is Some ==> forall|i: int|
            0 <= i < names@.len() ==> r->0@[i] == pattern_matches(pattern@, #[trigger] names@[i]@),
{
    match regex::Regex::new(pattern) {
        Ok(re) => Some(names.iter().map(|n| re.is_match(n)).collect()),
        Err(_) => None,
    }
}

/// Number of bytes that a character takes in UTF-8.
pub open spec fn utf8_len(c: char) -> int {
    let u = c as u32;
    if u < 0x80 {
        1
    } else if u < 0x800 {
        2
    } else if u < 0x10000 {
        3
    } else {
        4
    }
}

/// Byte offset of the character at index `k` in UTF-8.
pub open spec fn byte_offset(s: Seq<char>, k: int) -> int
    decreases k,
{
    if k <= 0 || s.len() == 0 {
        0
    } else {
        byte_offset(s, k - 1) + utf8_len(s[k - 1])
    }
}

/// Number of bytes that `c` takes in UTF-8.
pub fn char_utf8_len(c: char) -> (r: usize)
    ensures
        r as int == utf8_len(c),
{
    let u = c as u32;
    if u < 0x80 {
        1
    } else if u < 0x800 {
        2
    } else if u < 0x10000 {
        3
    } else {
        4
    }
}

} // verus!
