//! Which records of a list of variable-height records are drawn in a window
//! of a fixed number of rows, and where "page up" leads.

use vstd::prelude::*;

verus! {

/// Total height of the records `a .. b`.
pub open spec fn span_height(h: Seq<usize>, a: int, b: int) -> int
    decreases b - a,
{
    if b <= a {
        0
    } else {
        span_height(h, a, b - 1) + h[b - 1] as int
    }
}

/// Forward fill from `i` with `acc` rows used: a record is taken while at
/// least one row is left, so the last one taken may be cut off.
pub open spec fn fill_end(h: Seq<usize>, rows: int, i: int, acc: int) -> int
    decreases h.len() - i,
{
    if i >= h.len() || acc >= rows || i < 0 {
        i
    } else {
        fill_end(h, rows, i + 1, acc + h[i] as int)
    }
}

/// Drop records from the front of `s .. e` until they fit, never past `e - 1`.
pub open spec fn shrink_front(h: Seq<usize>, rows: int, s: int, e: int) -> int
    decreases e - s,
{
    if s < e - 1 && span_height(h, s, e) > rows {
        shrink_front(h, rows, s + 1, e)
    } else {
        s
    }
}

/// Drop records from the back of `s .. e` until they fit, never below `s + 1`.
pub open spec fn shrink_back(h: Seq<usize>, rows: int, s: int, e: int) -> int
    decreases e - s,
{
    if e > s + 1 && span_height(h, s, e) > rows {
        shrink_back(h, rows, s, e - 1)
    } else {
        e
    }
}

/// Start of the previous page: walk back from `p`, counting the record at
/// `p` itself, until the rows are used up or the first record is reached.
pub open spec fn page_back(h: Seq<usize>, rows: int, p: int, acc: int) -> int
    decreases p,
{
    if p <= 0 {
        0
    } else if acc + h[p] as int > rows {
        p
    } else {
        page_back(h, rows, p - 1, acc + h[p] as int)
    }
}

/// The record that the window has to show.
pub open spec fn target_index(n: int, selected: Option<usize>) -> int {
    let s = match selected {
        Some(s) => s as int,
        None => 0,
    };
    if s < n - 1 { s } else { n - 1 }
}

/// The window that the layout algorithm settles on: `(offset, end)`.
pub open spec fn window(h: Seq<usize>, rows: int, offset: int, selected: Option<usize>) -> (int, int) {
    let n = h.len() as int;
    let start = if offset < n - 1 { offset } else { n - 1 };
    let end = fill_end(h, rows, start, 0);
    let sel = target_index(n, selected);
    if sel >= end {
        (shrink_front(h, rows, start, sel + 1), sel + 1)
    } else if sel < start {
        (sel, shrink_back(h, rows, sel, end))
    } else {
        (start, end)
    }
}

/// What one layout pass derives: the records `offset .. end` are drawn, and
/// `prev_page_start` is where "page up" leads.
#[derive(Clone, Copy, Debug, PartialEq, Eq)]
pub struct ViewportLayout {
    pub offset: usize,
    pub end: usize,
    pub prev_page_start: usize,
}

/// The layout for record heights `h`, `rows` rows, a current offset and a
/// selection.
pub open spec fn layout_of(h: Seq<usize>, rows: int, offset: int, selected: Option<usize>) -> ViewportLayout {
    let (s, e) = window(h, rows, offset, selected);
    ViewportLayout {
        offset: s as usize,
        end: e as usize,
        prev_page_start: page_back(h, rows, s, 0) as usize,
    }
}

proof fn lemma_span_split(h: Seq<usize>, a: int, m: int, b: int)
    requires
        a <= m <= b,
    ensures
        span_height(h, a, b) == span_height(h, a, m) + span_height(h, m, b),
    decreases b - m,
{
    if m < b {
        lemma_span_split(h, a, m, b - 1);
    }
}

proof fn lemma_span_nonneg(h: Seq<usize>, a: int, b: int)
    ensures
        span_height(h, a, b) >= 0,
    decreases b - a,
{
    if a < b {
        lemma_span_nonneg(h, a, b - 1);
    }
}

proof fn lemma_span_within(h: Seq<usize>, a: int, b: int)
    requires
        0 <= a <= b <= h.len(),
    ensures
        span_height(h, a, b) <= span_height(h, 0, h.len() as int),
{
    lemma_span_split(h, 0, a, b);
    lemma_span_split(h, 0, b, h.len() as int);
    lemma_span_nonneg(h, 0, a);
    lemma_span_nonneg(h, b, h.len() as int);
}

proof fn lemma_fill_end_bounds(h: Seq<usize>, rows: int, i: int, acc: int)
    requires
        0 <= i <= h.len(),
    ensures
        i <= fill_end(h, rows, i, acc) <= h.len(),
    decreases h.len() - i,
{
    if i < h.len() && acc < rows {
        lemma_fill_end_bounds(h, rows, i + 1, acc + h[i] as int);
    }
}

proof fn lemma_shrink_front_bounds(h: Seq<usize>, rows: int, s: int, e: int)
    requires
        s < e,
    ensures
        s <= shrink_front(h, rows, s, e) < e,
    decreases e - s,
{
    if s < e - 1 && span_height(h, s, e) > rows {
        lemma_shrink_front_bounds(h, rows, s + 1, e);
    }
}

proof fn lemma_shrink_back_bounds(h: Seq<usize>, rows: int, s: int, e: int)
    requires
        s < e,
    ensures
        s < shrink_back(h, rows, s, e) <= e,
    decreases e - s,
{
    if e > s + 1 && span_height(h, s, e) > rows {
        lemma_shrink_back_bounds(h, rows, s, e - 1);
    }
}

proof fn lemma_page_back_bounds(h: Seq<usize>, rows: int, p: int, acc: int)
    requires
        0 <= p < h.len(),
    ensures
        0 <= page_back(h, rows, p, acc) <= p,
    decreases p,
{
    if p > 0 && acc + h[p] as int <= rows {
        lemma_page_back_bounds(h, rows, p - 1, acc + h[p] as int);
    }
}

/// For every list of record heights and every number of rows, the window
/// holds the selected record: `offset <= selected < end <= len`, so that
/// `offset <= selected <= end` as well.
pub proof fn lemma_selection_visible(h: Seq<usize>, rows: int, offset: int, selected: Option<usize>)
    requires
        h.len() > 0,
        0 <= offset,
    ensures
        ({
            let w = window(h, rows, offset, selected);
            let sel = target_index(h.len() as int, selected);
            &&& 0 <= w.0 <= sel < w.1 <= h.len()
            &&& (selected is Some && selected->0 < h.len() ==> sel == selected->0)
        }),
{
    let n = h.len() as int;
    let start = if offset < n - 1 { offset } else { n - 1 };
    lemma_fill_end_bounds(h, rows, start, 0);
    let end = fill_end(h, rows, start, 0);
    let sel = target_index(n, selected);
    if sel >= end {
        lemma_shrink_front_bounds(h, rows, start, sel + 1);
    } else if sel < start {
        lemma_shrink_back_bounds(h, rows, sel, end);
    }
}

/// Lays out the records whose heights are `heights` in `rows` rows, starting
/// from `offset` and keeping the selected record (the first one when there
/// is no selection, the last one when it lies beyond the list) in view.
/// Nothing is laid out for an empty list or a window without rows.
pub fn layout_viewport(heights: &Vec<usize>, rows: usize, offset: usize, selected: Option<usize>) -> (r: Option<ViewportLayout>)
    requires
        span_height(heights@, 0, heights@.len() as int) <= usize::MAX,
    ensures
        heights@.len() == 0 || rows == 0 <==> r is None,
        r is Some ==> r->0 == layout_of(heights@, rows as int, offset as int, selected),
        r is Some ==> r->0.offset <= target_index(heights@.len() as int, selected) < r->0.end <= heights@.len(),
{
    let n = heights.len();
    if n == 0 || rows == 0 {
        return None;
    }
    let ghost h = heights@;
    let ghost total = span_height(h, 0, n as int);
    proof {
        lemma_selection_visible(h, rows as int, offset as int, selected);
    }
    let mut start: usize = if offset < n - 1 { offset } else { n - 1 };
    let ghost start0 = start as int;
    // forward fill
    let mut end: usize = start;
    let mut height: usize = 0;
    proof {
        lemma_fill_end_bounds(h, rows as int, start as int, 0);
    }
    while end < n && height < rows
        invariant
            h == heights@,
            n == h.len(),
            total == span_height(h, 0, n as int),
            total <= usize::MAX,
            start < n,
            start <= end <= n,
            height as int == span_height(h, start as int, end as int),
            fill_end(h, rows as int, start as int, 0) == fill_end(h, rows as int, end as int, height as int),
        decreases n - end,
    {
        proof {
            lemma_span_within(h, start as int, end as int + 1);
        }
        height = height + heights[end];
        end = end + 1;
    }
    let ghost end0 = end as int;
    let sel: usize = match selected {
        Some(s) => if s < n - 1 { s } else { n - 1 },
        None => 0,
    };
    if sel >= end {
        // extend to the selected record, then drop records from the front
        while end <= sel
            invariant
                h == heights@,
                n == h.len(),
                total == span_height(h, 0, n as int),
                total <= usize::MAX,
                sel < n,
                start <= end <= sel + 1,
                height as int == span_height(h, start as int, end as int),
            decreases sel + 1 - end,
        {
            proof {
                lemma_span_within(h, start as int, end as int + 1);
            }
            height = height + heights[end];
            end = end + 1;
        }
        while start < sel && height > rows
            invariant
                h == heights@,
                n == h.len(),
                sel < n,
                end == sel + 1,
                start <= sel,
                height as int == span_height(h, start as int, end as int),
                shrink_front(h, rows as int, start0, end as int) == shrink_front(h, rows as int, start as int, end as int),
            decreases sel - start,
        {
            proof {
                lemma_span_split(h, start as int, start as int + 1, end as int);
                lemma_span_nonneg(h, start as int + 1, end as int);
                assert(span_height(h, start as int, start as int) == 0);
                assert(span_height(h, start as int, start as int + 1) == h[start as int]);
            }
            height = height - heights[start];
            start = start + 1;
        }
    } else if sel < start {
        // retreat to the selected record, then drop records from the back
        proof {
            lemma_span_split(h, sel as int, start as int, end as int);
            lemma_span_within(h, sel as int, end as int);
        }
        let ghost gap = span_height(h, sel as int, start as int);
        height = height + sum_heights(heights, sel, start);
        start = sel;
        while end > start + 1 && height > rows
            invariant
                h == heights@,
                n == h.len(),
                start == sel,
                start < end <= n,
                height as int == span_height(h, start as int, end as int),
                shrink_back(h, rows as int, sel as int, end0) == shrink_back(h, rows as int, start as int, end as int),
            decreases end - start,
        {
            proof {
                lemma_span_nonneg(h, start as int, end as int - 1);
            }
            end = end - 1;
            height = height - heights[end];
        }
    }
    // walk back for the previous page
    let mut prev: usize = start;
    let mut acc: usize = 0;
    proof {
        lemma_page_back_bounds(h, rows as int, start as int, 0);
    }
    while prev > 0 && heights[prev] <= rows - acc
        invariant
            h == heights@,
            n == h.len(),
            prev <= start < n,
            acc <= rows,
            page_back(h, rows as int, start as int, 0) == page_back(h, rows as int, prev as int, acc as int),
        decreases prev,
    {
        acc = acc + heights[prev];
        prev = prev - 1;
    }
    Some(ViewportLayout { offset: start, end, prev_page_start: prev })
}

/// Total height of the records `a .. b`.
fn sum_heights(heights: &Vec<usize>, a: usize, b: usize) -> (r: usize)
    requires
        a <= b <= heights@.len(),
        span_height(heights@, a as int, b as int) <= usize::MAX,
    ensures
        r as int == span_height(heights@, a as int, b as int),
{
    let mut i: usize = a;
    let mut s: usize = 0;
    while i < b
        invariant
            a <= i <= b <= heights@.len(),
            s as int == span_height(heights@, a as int, i as int),
            span_height(heights@, a as int, b as int) <= usize::MAX,
        decreases b - i,
    {
        proof {
            lemma_span_split(heights@, a as int, i as int + 1, b as int);
            lemma_span_nonneg(heights@, i as int + 1, b as int);
        }
        s = s + heights[i];
        i = i + 1;
    }
    s
}

} // verus!
