//! The time range of a query: resolving "now", relative durations such as
//! "15m" and RFC 3339 instants into epoch seconds.

use crate::text::chars_of;
use vstd::prelude::*;

verus! {

/// Whole seconds of a duration text such as "15m" or "2h 37min", or
/// nothing where the text is not one.
pub uninterp spec fn duration_text_seconds(s: Seq<char>) -> Option<u64>;

/// Seconds from the Unix epoch to the RFC 3339 instant that a text names,
/// or nothing where the text is not one.
pub uninterp spec fn instant_text_seconds(s: Seq<char>) -> Option<u64>;

/// Most decimal digits a duration text may hold: with more, its total could
/// pass the largest number of seconds that the duration parser can hold.
pub const DURATION_DIGIT_LIMIT: usize = 11;

/// Number of ASCII decimal digits in a text.
pub open spec fn digit_count(s: Seq<char>) -> nat
    decreases s.len(),
{
    if s.len() == 0 {
        0
    } else if '0' <= s.last() && s.last() <= '9' {
        digit_count(s.drop_last()) + 1
    } else {
        digit_count(s.drop_last())
    }
}

/// Relies on `humantime::parse_duration`: the whole seconds of the duration.
/// The parser sums its terms into a `std::time::Duration` and panics where
/// the sum passes `u64::MAX` seconds; with at most `DURATION_DIGIT_LIMIT`
/// digits every term is below 10^11 times a year of seconds, far from it.
#[verifier::external_body]
fn duration_seconds(s: &str) -> (r: Option<u64>)
    requires
        digit_count(s@) <= DURATION_DIGIT_LIMIT,
    ensures
        r == duration_text_seconds(s@),
{
    humantime::parse_duration(s).ok().map(|d| d.as_secs())
}

/// Relies on `humantime::parse_rfc3339` and `SystemTime::duration_since`:
/// the whole seconds from the Unix epoch to the instant.
#[verifier::external_body]
fn instant_seconds(s: &str) -> (r: Option<u64>)
    ensures
        r == instant_text_seconds(s@),
{
    humantime::parse_rfc3339(s).ok().and_then(|t| t.duration_since(std::time::UNIX_EPOCH).ok()).map(|d| d.as_secs())
}

/// Relies on `chrono::Local::now` and `DateTime::timestamp`: the current
/// time in epoch seconds.
#[verifier::external_body]
fn now_epoch_seconds() -> (r: i64) {
    chrono::Local::now().timestamp()
}

/// Counts the ASCII decimal digits of a text.
pub fn count_digits(s: &str) -> (r: usize)
    ensures
        r as nat == digit_count(s@),
{
    let cs = chars_of(s);
    let mut n: usize = 0;
    let mut i: usize = 0;
    assert(s@.take(0) =~= Seq::<char>::empty());
    while i < cs.len()
        invariant
            cs@ == s@,
            i <= cs@.len(),
            n as nat == digit_count(s@.take(i as int)),
            n <= i,
        decreases cs@.len() - i,
    {
        assert(s@.take(i as int + 1).drop_last() =~= s@.take(i as int));
        if '0' <= cs[i] && cs[i] <= '9' {
            n = n + 1;
        }
        i = i + 1;
    }
    assert(s@.take(cs@.len() as int) =~= s@);
    n
}

/// The duration that a text is read as: none where it has too many digits.
pub open spec fn duration_reading(s: Seq<char>) -> Option<u64> {
    if digit_count(s) <= DURATION_DIGIT_LIMIT {
        duration_text_seconds(s)
    } else {
        None
    }
}

/// Whether the text is the word "now".
pub fn is_now_word(s: &str) -> (r: bool)
    ensures
        r == (s@ == "now"@),
{
    proof {
        reveal_strlit("now");
    }
    let cs = chars_of(s);
    let r = cs.len() == 3 && cs[0] == 'n' && cs[1] == 'o' && cs[2] == 'w';
    assert(r ==> s@ =~= "now"@);
    r
}

/// The epoch second that a time text stands for when the clock reads
/// `now`: `now` for the word "now"; `now` less the duration for a duration
/// text; the instant itself for an RFC 3339 instant; nothing otherwise or
/// where the value does not fit in an `i64`.
pub open spec fn time_of_text(s: Seq<char>, now: i64) -> Option<i64> {
    if s == "now"@ {
        Some(now)
    } else if duration_reading(s) is Some {
        let t = now as int - duration_reading(s)->0 as int;
        if t >= i64::MIN as int {
            Some(t as i64)
        } else {
            None
        }
    } else if instant_text_seconds(s) is Some {
        if instant_text_seconds(s)->0 as int <= i64::MAX as int {
            Some(instant_text_seconds(s)->0 as i64)
        } else {
            None
        }
    } else {
        None
    }
}

/// The epoch second that a time text stands for when the clock reads `now`.
pub fn time_at(s: &str, now: i64) -> (r: Option<i64>)
    ensures
        r == time_of_text(s@, now),
{
    if is_now_word(s) {
        return Some(now);
    }
    if count_digits(s) <= DURATION_DIGIT_LIMIT {
        if let Some(d) = duration_seconds(s) {
            let t: i128 = now as i128 - d as i128;
            return if t >= i64::MIN as i128 {
                Some(t as i64)
            } else {
                None
            };
        }
    }
    match instant_seconds(s) {
        Some(e) => if e <= i64::MAX as u64 {
            Some(e as i64)
        } else {
            None
        },
        None => None,
    }
}

/// The epoch second that a time text stands for now.
pub fn parse_time(s: &str) -> (r: Option<i64>)
    ensures
        exists|now: i64| r == #[trigger] time_of_text(s@, now),
        s@ == "now"@ ==> r is Some,
{
    let now = now_epoch_seconds();
    time_at(s, now)
}

/// Whether a character is white space in Unicode.
pub open spec fn is_white_space(c: char) -> bool {
    let u = c as u32;
    (0x09 <= u <= 0x0D) || u == 0x20 || u == 0x85 || u == 0xA0 || u == 0x1680 || (0x2000 <= u
        <= 0x200A) || u == 0x2028 || u == 0x2029 || u == 0x202F || u == 0x205F || u == 0x3000
}

pub fn white_space(c: char) -> (r: bool)
    ensures
        r == is_white_space(c),
{
    let u = c as u32;
    (0x09 <= u && u <= 0x0D) || u == 0x20 || u == 0x85 || u == 0xA0 || u == 0x1680 || (0x2000 <= u
        && u <= 0x200A) || u == 0x2028 || u == 0x2029 || u == 0x202F || u == 0x205F || u == 0x3000
}

/// Index of the first character that is not white space, at or after `i`.
pub open spec fn skip_white_from(s: Seq<char>, i: int) -> int
    decreases s.len() - i,
{
    if i >= s.len() || i < 0 || !is_white_space(s[i]) {
        i
    } else {
        skip_white_from(s, i + 1)
    }
}

/// One past the last character that is not white space, at or before `j`.
pub open spec fn trim_end_to(s: Seq<char>, lo: int, j: int) -> int
    decreases j - lo,
{
    if j <= lo || !is_white_space(s[j - 1]) {
        j
    } else {
        trim_end_to(s, lo, j - 1)
    }
}

/// The part `a .. b` of a text without white space at either end.
pub open spec fn trimmed(s: Seq<char>, a: int, b: int) -> Seq<char> {
    let lo = skip_white_from(s.subrange(a, b), 0);
    let hi = trim_end_to(s.subrange(a, b), lo, b - a);
    s.subrange(a, b).subrange(lo, hi)
}

proof fn lemma_skip_white_bounds(s: Seq<char>, i: int)
    requires
        0 <= i <= s.len(),
    ensures
        i <= skip_white_from(s, i) <= s.len(),
    decreases s.len() - i,
{
    if i < s.len() && is_white_space(s[i]) {
        lemma_skip_white_bounds(s, i + 1);
    }
}

proof fn lemma_trim_end_bounds(s: Seq<char>, lo: int, j: int)
    requires
        lo <= j,
    ensures
        lo <= trim_end_to(s, lo, j) <= j,
    decreases j - lo,
{
    if j > lo && is_white_space(s[j - 1]) {
        lemma_trim_end_bounds(s, lo, j - 1);
    }
}

/// The characters `a .. b` of `cs` without white space at either end.
fn trim_range(cs: &Vec<char>, a: usize, b: usize) -> (r: String)
    requires
        a <= b <= cs@.len(),
    ensures
        r@ == trimmed(cs@, a as int, b as int),
{
    let ghost sub = cs@.subrange(a as int, b as int);
    let mut lo: usize = a;
    proof {
        lemma_skip_white_bounds(sub, 0);
    }
    while lo < b && white_space(cs[lo])
        invariant
            a <= lo <= b <= cs@.len(),
            sub == cs@.subrange(a as int, b as int),
            skip_white_from(sub, 0) == skip_white_from(sub, lo - a),
        decreases b - lo,
    {
        lo = lo + 1;
    }
    let mut hi: usize = b;
    let ghost l = (lo - a) as int;
    proof {
        lemma_trim_end_bounds(sub, l, b - a);
    }
    while hi > lo && white_space(cs[hi - 1])
        invariant
            a <= lo <= hi <= b <= cs@.len(),
            sub == cs@.subrange(a as int, b as int),
            l == lo - a,
            trim_end_to(sub, l, b - a) == trim_end_to(sub, l, hi - a),
        decreases hi - lo,
    {
        hi = hi - 1;
    }
    let mut out = String::new();
    let mut i: usize = lo;
    while i < hi
        invariant
            lo <= i <= hi <= cs@.len(),
            out@ == cs@.subrange(lo as int, i as int),
        decreases hi - i,
    {
        crate::text::push_char(&mut out, cs[i]);
        assert(out@ =~= cs@.subrange(lo as int, i as int + 1));
        i = i + 1;
    }
    assert(out@ =~= trimmed(cs@, a as int, b as int));
    out
}

/// Index of the first '-' at or after `i`, or the length.
pub open spec fn dash_from(s: Seq<char>, i: int) -> int
    decreases s.len() - i,
{
    if i >= s.len() || i < 0 || s[i] == '-' {
        i
    } else {
        dash_from(s, i + 1)
    }
}

proof fn lemma_dash_bounds(s: Seq<char>, i: int)
    requires
        0 <= i <= s.len(),
    ensures
        i <= dash_from(s, i) <= s.len(),
        dash_from(s, i) < s.len() ==> s[dash_from(s, i)] == '-',
    decreases s.len() - i,
{
    if i < s.len() && s[i] != '-' {
        lemma_dash_bounds(s, i + 1);
    }
}

/// The first two pieces of a range text split at '-', each without white
/// space at its ends: the second only when there is a '-'.
pub open spec fn range_pieces(s: Seq<char>) -> (Seq<char>, Option<Seq<char>>) {
    let d = dash_from(s, 0);
    if d >= s.len() {
        (trimmed(s, 0, s.len() as int), None)
    } else {
        (trimmed(s, 0, d), Some(trimmed(s, d + 1, dash_from(s, d + 1))))
    }
}

/// Splits a range text "start - end" into its trimmed pieces.
pub fn split_range(s: &str) -> (r: (String, Option<String>))
    ensures
        r.0@ == range_pieces(s@).0,
        r.1 is Some <==> range_pieces(s@).1 is Some,
        r.1 is Some ==> r.1->0@ == range_pieces(s@).1->0,
{
    let cs = chars_of(s);
    let n = cs.len();
    let d = find_dash(&cs, 0);
    if d >= n {
        (trim_range(&cs, 0, n), None)
    } else {
        let e = find_dash(&cs, d + 1);
        (trim_range(&cs, 0, d), Some(trim_range(&cs, d + 1, e)))
    }
}

fn find_dash(cs: &Vec<char>, from: usize) -> (r: usize)
    requires
        from <= cs@.len(),
    ensures
        r as int == dash_from(cs@, from as int),
        from <= r <= cs@.len(),
{
    proof {
        lemma_dash_bounds(cs@, from as int);
    }
    let mut i = from;
    while i < cs.len() && cs[i] != '-'
        invariant
            from <= i <= cs@.len(),
            dash_from(cs@, from as int) == dash_from(cs@, i as int),
        decreases cs@.len() - i,
    {
        i = i + 1;
    }
    i
}

/// The text of an optional text.
pub open spec fn text_option(e: Option<&str>) -> Option<Seq<char>> {
    match e {
        Some(x) => Some(x@),
        None => None,
    }
}

/// The range for a start text and an optional end text when the clock
/// reads `now`; without an end text it ends at `now`.
pub open spec fn range_of_texts(s: Seq<char>, e: Option<Seq<char>>, now: i64) -> Duration {
    Duration::Duration {
        start: time_of_text(s, now),
        end: match e {
            Some(x) => time_of_text(x, now),
            None => Some(now),
        },
    }
}

/// The range for a text "start - end" when the clock reads `now`; a text
/// without '-' gives no end.
pub open spec fn range_of_range_text(s: Seq<char>, now: i64) -> Duration {
    Duration::Duration {
        start: time_of_text(range_pieces(s).0, now),
        end: match range_pieces(s).1 {
            Some(x) => time_of_text(x, now),
            None => None,
        },
    }
}

/// The time range of a query, in epoch seconds; either end may be missing
/// where its text could not be read.
#[derive(Clone, Copy, Debug, PartialEq, Eq, Structural)]
pub enum Duration {
    Duration { start: Option<i64>, end: Option<i64> },
}

impl Duration {
    pub open spec fn start_of(self) -> Option<i64> {
        match self {
            Duration::Duration { start, .. } => start,
        }
    }

    pub open spec fn end_of(self) -> Option<i64> {
        match self {
            Duration::Duration { end, .. } => end,
        }
    }

    /// The range from a start text and an optional end text, read with one
    /// clock reading `now`; without an end text the range ends at `now`.
    pub fn from_opt_at(s: &str, e: Option<&str>, now: i64) -> (r: Self)
        ensures
            r == range_of_texts(
                s@,
                text_option(e),
                now,
            ),
    {
        let end = match e {
            Some(e) => time_at(e, now),
            None => Some(now),
        };
        Duration::Duration { start: time_at(s, now), end }
    }

    /// The range from a start text and an optional end text, read against
    /// the clock once.
    pub fn from_opt(s: &str, e: Option<&str>) -> (r: Self)
        ensures
            exists|now: i64|
                r == #[trigger] range_of_texts(
                    s@,
                    text_option(e),
                    now,
                ),
    {
        let now = now_epoch_seconds();
        Duration::from_opt_at(s, e, now)
    }

    /// The range from a text "start - end" read with one clock reading
    /// `now`; a text without '-' gives no end.
    pub fn from_range_text_at(s: &str, now: i64) -> (r: Self)
        ensures
            r == range_of_range_text(s@, now),
    {
        let (a, b) = split_range(s);
        let start = time_at(a.as_str(), now);
        let end = match b {
            Some(b) => time_at(b.as_str(), now),
            None => None,
        };
        Duration::Duration { start, end }
    }

    /// The range from a text "start - end", read against the clock once.
    pub fn from_range_text(s: &str) -> (r: Self)
        ensures
            exists|now: i64| r == #[trigger] range_of_range_text(s@, now),
    {
        let now = now_epoch_seconds();
        Duration::from_range_text_at(s, now)
    }

    /// Whether both ends of the range could be read.
    pub fn is_valid(&self) -> (r: bool)
        ensures
            r == (self.start_of() is Some && self.end_of() is Some),
    {
        match self {
            Duration::Duration { start, end } => start.is_some() && end.is_some(),
        }
    }
}

} // verus!
