//! Per-record memo of composed lines, bounded and evicting the least
//! recently used entry.

use crate::compose::{
    all_chars, compose, composed, line_view, lines_view, newline_free, LineView, StyledSpan,
};
use crate::text::{display_width, width_of};
use lru::LruCache;
use std::collections::hash_map::RandomState;
use vstd::prelude::*;

verus! {

#[verifier::external_type_specification]
#[verifier::external_body]
#[verifier::reject_recursive_types(K)]
#[verifier::reject_recursive_types(V)]
#[verifier::reject_recursive_types(S)]
pub struct ExLruCache<K, V, S>(LruCache<K, V, S>);

/// How many compositions each record keeps: one stable width plus one
/// search term being edited.
pub const LINE_CACHE_CAPACITY: usize = 2;

/// The key of a composition: text, width and search term.
pub type ComposeKey = (String, u16, String);

pub open spec fn key_view(k: ComposeKey) -> (Seq<char>, u16, Seq<char>) {
    (k.0@, k.1, k.2@)
}

/// What the cache holds: composed lines by text, width and search term.
pub uninterp spec fn cached_lines(
    c: LruCache<ComposeKey, Vec<Vec<StyledSpan>>, RandomState>,
) -> Map<(Seq<char>, u16, Seq<char>), Seq<LineView>>;

/// Relies on `LruCache::with_hasher` and `RandomState::new`: a new cache
/// holds nothing.
#[verifier::external_body]
fn new_cache(cap: usize) -> (r: LruCache<ComposeKey, Vec<Vec<StyledSpan>>, RandomState>)
    ensures
        forall|k: (Seq<char>, u16, Seq<char>)| !cached_lines(r).contains_key(k),
{
    LruCache::with_hasher(cap, RandomState::new())
}

/// Relies on `LruCache::get`: the value stored under the key, if any; only
/// the order of use changes.
#[verifier::external_body]
fn cache_get(
    c: &mut LruCache<ComposeKey, Vec<Vec<StyledSpan>>, RandomState>,
    key: &ComposeKey,
) -> (r: Option<Vec<Vec<StyledSpan>>>)
    ensures
        cached_lines(*final(c)) == cached_lines(*old(c)),
        r is Some <==> cached_lines(*old(c)).contains_key(key_view(*key)),
        r is Some ==> lines_view(r->0@) == cached_lines(*old(c))[key_view(*key)],
    no_unwind
{
    c.get(key).cloned()
}

/// Relies on `LruCache::put`: the key is stored with the value, and what
/// stays otherwise is what was there before (an entry may be evicted).
#[verifier::external_body]
fn cache_put(
    c: &mut LruCache<ComposeKey, Vec<Vec<StyledSpan>>, RandomState>,
    key: ComposeKey,
    value: Vec<Vec<StyledSpan>>,
)
    ensures
        forall|k| #[trigger]
            cached_lines(*final(c)).contains_key(k) ==> cached_lines(*old(c)).insert(
                key_view(key),
                lines_view(value@),
            ).contains_key(k) && cached_lines(*final(c))[k] == cached_lines(*old(c)).insert(
                key_view(key),
                lines_view(value@),
            )[k],
    no_unwind
{
    c.put(key, value);
}

/// Composes a record's lines and remembers the last compositions.
pub struct LineBuilder {
    lines_cache: LruCache<ComposeKey, Vec<Vec<StyledSpan>>, RandomState>,
}

impl LineBuilder {
    /// Every remembered composition is the composition of its key, and
    /// holds the key's text without its newlines.
    #[verifier::type_invariant]
    pub closed spec fn cache_is_sound(&self) -> bool {
        forall|k: (Seq<char>, u16, Seq<char>)| #[trigger]
            cached_lines(self.lines_cache).contains_key(k) ==> {
                &&& cached_lines(self.lines_cache)[k] == composed(k.0, k.1 as int, k.2)
                &&& all_chars(cached_lines(self.lines_cache)[k]) == newline_free(k.0)
            }
    }

    pub fn new() -> (r: Self) {
        LineBuilder { lines_cache: new_cache(LINE_CACHE_CAPACITY) }
    }

    /// Display width of a text in terminal columns.
    pub fn width(&self, text: &str) -> (r: usize)
        ensures
            r == display_width(text@),
    {
        width_of(text)
    }

    /// The lines of `text` wrapped to `text_area_width` columns with
    /// `find_text` highlighted; the same whatever the cache held before.
    pub fn run_composer(&mut self, text: &str, text_area_width: u16, find_text: &str) -> (r: Vec<Vec<StyledSpan>>)
        ensures
            lines_view(r@) == composed(text@, text_area_width as int, find_text@),
            all_chars(lines_view(r@)) == newline_free(text@),
    {
        proof {
            use_type_invariant(&*self);
        }
        let key: ComposeKey = (text.to_owned(), text_area_width, find_text.to_owned());
        if let Some(lines) = cache_get(&mut self.lines_cache, &key) {
            return lines;
        }
        let lines = compose(text, text_area_width, find_text);
        let copy = clone_lines(&lines);
        cache_put(&mut self.lines_cache, key, copy);
        lines
    }
}

/// A copy of composed lines.
fn clone_lines(lines: &Vec<Vec<StyledSpan>>) -> (r: Vec<Vec<StyledSpan>>)
    ensures
        lines_view(r@) == lines_view(lines@),
{
    let mut out: Vec<Vec<StyledSpan>> = Vec::new();
    let mut i: usize = 0;
    while i < lines.len()
        invariant
            i <= lines@.len(),
            lines_view(out@) == lines_view(lines@).take(i as int),
        decreases lines@.len() - i,
    {
        let mut line: Vec<StyledSpan> = Vec::new();
        let mut j: usize = 0;
        while j < lines[i].len()
            invariant
                i < lines@.len(),
                j <= lines@[i as int]@.len(),
                line@.len() == j,
                forall|t: int| 0 <= t < j ==> (#[trigger] line@[t])@ == lines@[i as int]@[t]@,
            decreases lines@[i as int]@.len() - j,
        {
            let s = &lines[i][j];
            line.push(StyledSpan { text: s.text.clone(), highlighted: s.highlighted });
            j = j + 1;
        }
        assert(line_view(line) =~= line_view(lines@[i as int]));
        let ghost prev = out@;
        out.push(line);
        assert(out@ == prev.push(line));
        assert(lines_view(out@) =~= lines_view(prev).push(line_view(lines@[i as int])));
        assert(lines_view(out@) =~= lines_view(lines@).take(i as int + 1));
        i = i + 1;
    }
    assert(lines_view(lines@).take(lines@.len() as int) =~= lines_view(lines@));
    out
}

} // verus!
