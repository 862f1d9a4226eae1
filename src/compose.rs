//! The line composer: splits a record's text at newlines, wraps each piece
//! by display width and marks the case-insensitive occurrences of a search
//! term as highlighted runs.

use crate::text::{
    byte_offset, char_utf8_len, chars_of, display_width, find_literal_matches, grapheme_clusters,
    graphemes_of, joined, literal_matches, push_char, texts_of, utf8_len, width_of,
};
use vstd::prelude::*;

verus! {

/// A run of text drawn in one style.
#[derive(Clone, Debug, PartialEq, Eq)]
pub struct StyledSpan {
    pub text: String,
    pub highlighted: bool,
}

impl View for StyledSpan {
    type V = (Seq<char>, bool);

    open spec fn view(&self) -> (Seq<char>, bool) {
        (self.text@, self.highlighted)
    }
}

/// A composed line: its runs, each as its text and whether it is highlighted.
pub type LineView = Seq<(Seq<char>, bool)>;

pub open spec fn line_view(l: Vec<StyledSpan>) -> LineView {
    l@.map_values(|s: StyledSpan| s@)
}

pub open spec fn lines_view(ls: Seq<Vec<StyledSpan>>) -> Seq<LineView> {
    ls.map_values(|l: Vec<StyledSpan>| line_view(l))
}

/// The characters of a line, styles left aside.
pub open spec fn line_chars(line: LineView) -> Seq<char>
    decreases line.len(),
{
    if line.len() == 0 {
        Seq::empty()
    } else {
        line_chars(line.drop_last()) + line.last().0
    }
}

/// The characters of all lines, one after the other.
pub open spec fn all_chars(lines: Seq<LineView>) -> Seq<char>
    decreases lines.len(),
{
    if lines.len() == 0 {
        Seq::empty()
    } else {
        all_chars(lines.drop_last()) + line_chars(lines.last())
    }
}

/// A text with its newlines taken out.
pub open spec fn newline_free(s: Seq<char>) -> Seq<char>
    decreases s.len(),
{
    if s.len() == 0 {
        s
    } else if s.last() == '\n' {
        newline_free(s.drop_last())
    } else {
        newline_free(s.drop_last()).push(s.last())
    }
}

/// Whether the character at index `k` of a piece lies in an occurrence of
/// the search term; nothing is highlighted for an empty term.
pub open spec fn highlighted_at(seg: Seq<char>, term: Seq<char>, k: int) -> bool {
    &&& 0 <= k < seg.len()
    &&& term.len() > 0
    &&& exists|j: int|
        0 <= j < literal_matches(seg, term).len() && (#[trigger] literal_matches(seg, term)[j]).0
            <= byte_offset(seg, k) < literal_matches(seg, term)[j].1
}

/// Appends a character to a line: it joins the last run when the style agrees.
pub open spec fn push_styled(line: LineView, c: char, hl: bool) -> LineView {
    if line.len() > 0 && line.last().1 == hl {
        line.update(line.len() - 1, (line.last().0.push(c), hl))
    } else {
        line.push((seq![c], hl))
    }
}

/// Appends the characters of a grapheme; `marks[t]` says whether its
/// character `t` is highlighted (a missing mark: not highlighted).
pub open spec fn add_marked(line: LineView, g: Seq<char>, marks: Seq<bool>) -> LineView
    decreases g.len(),
{
    if g.len() == 0 {
        line
    } else {
        push_styled(
            add_marked(line, g.drop_last(), marks),
            g.last(),
            g.len() - 1 < marks.len() && marks[g.len() - 1],
        )
    }
}

/// The width of grapheme `i` (a missing width counts as zero).
pub open spec fn width_at(ws: Seq<usize>, i: int) -> int {
    if 0 <= i < ws.len() { ws[i] as int } else { 0 }
}

/// The marks of grapheme `i` (missing marks: none highlighted).
pub open spec fn marks_at(marks: Seq<Seq<bool>>, i: int) -> Seq<bool> {
    if 0 <= i < marks.len() { marks[i] } else { Seq::empty() }
}

/// Layout of the first `i` graphemes: the finished lines, the open line and
/// its width. When `wrap` holds, a grapheme opens a new line where the open
/// line is not empty and the grapheme would take it past `width`; without
/// `wrap` everything stays on one line.
pub open spec fn layout_upto(
    gs: Seq<Seq<char>>,
    ws: Seq<usize>,
    marks: Seq<Seq<bool>>,
    width: int,
    wrap: bool,
    i: int,
) -> (Seq<LineView>, LineView, int)
    decreases i,
{
    if i <= 0 {
        (Seq::empty(), Seq::empty(), 0)
    } else {
        let prev = layout_upto(gs, ws, marks, width, wrap, i - 1);
        let g = gs[i - 1];
        let gw = width_at(ws, i - 1);
        let m = marks_at(marks, i - 1);
        if wrap && prev.1.len() > 0 && prev.2 + gw > width {
            (prev.0.push(prev.1), add_marked(Seq::empty(), g, m), gw)
        } else {
            let base = if prev.1.len() > 0 { prev.2 } else { 0 };
            (prev.0, add_marked(prev.1, g, m), if wrap { base + gw } else { 0 })
        }
    }
}

/// The lines that graphemes with their widths and marks are laid out in.
pub open spec fn layout_lines(
    gs: Seq<Seq<char>>,
    ws: Seq<usize>,
    marks: Seq<Seq<bool>>,
    width: int,
    wrap: bool,
) -> Seq<LineView> {
    let st = layout_upto(gs, ws, marks, width, wrap, gs.len() as int);
    if st.1.len() > 0 {
        st.0.push(st.1)
    } else {
        st.0
    }
}

/// The display widths of the grapheme clusters of a piece.
pub open spec fn grapheme_widths(seg: Seq<char>) -> Seq<usize> {
    grapheme_clusters(seg).map_values(|g: Seq<char>| display_width(g))
}

/// For each grapheme cluster of a piece, which of its characters are highlighted.
pub open spec fn grapheme_marks(seg: Seq<char>, term: Seq<char>) -> Seq<Seq<bool>> {
    let gs = grapheme_clusters(seg);
    Seq::new(
        gs.len(),
        |i: int|
            Seq::new(gs[i].len(), |t: int| highlighted_at(seg, term, joined(gs.take(i)).len() + t)),
    )
}

/// The lines of one piece of text: one line when its display width fits,
/// else wrapped greedily by grapheme.
pub open spec fn segment_lines(seg: Seq<char>, term: Seq<char>, width: int) -> Seq<LineView> {
    layout_lines(
        grapheme_clusters(seg),
        grapheme_widths(seg),
        grapheme_marks(seg, term),
        width,
        display_width(seg) > width,
    )
}

pub open spec fn marks_view(marks: Seq<Vec<bool>>) -> Seq<Seq<bool>> {
    marks.map_values(|v: Vec<bool>| v@)
}

/// Split of the first `i` characters at newlines: the finished non-empty
/// pieces and the open one.
pub open spec fn split_upto(s: Seq<char>, i: int) -> (Seq<Seq<char>>, Seq<char>)
    decreases i,
{
    if i <= 0 {
        (Seq::empty(), Seq::empty())
    } else {
        let prev = split_upto(s, i - 1);
        if s[i - 1] == '\n' {
            (if prev.1.len() > 0 { prev.0.push(prev.1) } else { prev.0 }, Seq::empty())
        } else {
            (prev.0, prev.1.push(s[i - 1]))
        }
    }
}

/// The non-empty pieces of a text between its newlines.
pub open spec fn text_pieces(s: Seq<char>) -> Seq<Seq<char>> {
    let st = split_upto(s, s.len() as int);
    if st.1.len() > 0 {
        st.0.push(st.1)
    } else {
        st.0
    }
}

pub open spec fn lines_of_pieces(ps: Seq<Seq<char>>, term: Seq<char>, width: int) -> Seq<LineView>
    decreases ps.len(),
{
    if ps.len() == 0 {
        Seq::empty()
    } else {
        lines_of_pieces(ps.drop_last(), term, width) + segment_lines(ps.last(), term, width)
    }
}

/// The composed lines of a text for a width and a search term.
pub open spec fn composed(text: Seq<char>, width: int, term: Seq<char>) -> Seq<LineView> {
    lines_of_pieces(text_pieces(text), term, width)
}

/// Without wrapping, graphemes are laid out on at most one line; so a
/// piece whose display width fits the width is one line.
pub proof fn lemma_unwrapped_is_one_line(gs: Seq<Seq<char>>, ws: Seq<usize>, marks: Seq<Seq<bool>>, width: int)
    ensures
        layout_lines(gs, ws, marks, width, false).len() <= 1,
        forall|seg: Seq<char>, term: Seq<char>|
            display_width(seg) <= width ==> #[trigger] segment_lines(seg, term, width).len() <= 1,
{
    lemma_unwrapped_stays_open(gs, ws, marks, width, gs.len() as int);
    assert forall|seg: Seq<char>, term: Seq<char>| display_width(seg) <= width implies #[trigger] segment_lines(
        seg,
        term,
        width,
    ).len() <= 1 by {
        let cs = grapheme_clusters(seg);
        lemma_unwrapped_stays_open(cs, grapheme_widths(seg), grapheme_marks(seg, term), width, cs.len() as int);
    }
}

proof fn lemma_unwrapped_stays_open(gs: Seq<Seq<char>>, ws: Seq<usize>, marks: Seq<Seq<bool>>, width: int, i: int)
    ensures
        layout_upto(gs, ws, marks, width, false, i).0.len() == 0,
    decreases i,
{
    if i > 0 {
        lemma_unwrapped_stays_open(gs, ws, marks, width, i - 1);
    }
}

proof fn lemma_line_chars_push_styled(line: LineView, c: char, hl: bool)
    ensures
        line_chars(push_styled(line, c, hl)) == line_chars(line).push(c),
{
    let r = push_styled(line, c, hl);
    if line.len() > 0 && line.last().1 == hl {
        assert(r.drop_last() =~= line.drop_last());
        assert(line_chars(line) == line_chars(line.drop_last()) + line.last().0);
        assert(line_chars(r) =~= line_chars(line).push(c));
    } else {
        assert(r.drop_last() =~= line);
        assert(line_chars(r) =~= line_chars(line).push(c));
    }
}

proof fn lemma_line_chars_add(line: LineView, g: Seq<char>, marks: Seq<bool>)
    ensures
        line_chars(add_marked(line, g, marks)) == line_chars(line) + g,
    decreases g.len(),
{
    if g.len() == 0 {
        assert(line_chars(line) + g =~= line_chars(line));
    } else {
        lemma_line_chars_add(line, g.drop_last(), marks);
        lemma_line_chars_push_styled(
            add_marked(line, g.drop_last(), marks),
            g.last(),
            g.len() - 1 < marks.len() && marks[g.len() - 1],
        );
        assert(line_chars(line) + g.drop_last() + seq![g.last()] =~= line_chars(line) + g);
    }
}

proof fn lemma_joined_prefix(parts: Seq<Seq<char>>, i: int, j: int)
    requires
        0 <= i <= j <= parts.len(),
    ensures
        joined(parts.take(i)).len() <= joined(parts.take(j)).len(),
    decreases j - i,
{
    if i < j {
        lemma_joined_prefix(parts, i, j - 1);
        assert(parts.take(j).drop_last() =~= parts.take(j - 1));
    }
}

/// Appends a character to a line in its style.
fn push_styled_char(line: &mut Vec<StyledSpan>, c: char, hl: bool)
    ensures
        line_view(*final(line)) == push_styled(line_view(*old(line)), c, hl),
{
    let n = line.len();
    if n > 0 && line[n - 1].highlighted == hl {
        let mut last = line.pop().unwrap();
        push_char(&mut last.text, c);
        line.push(last);
        assert(line_view(*line) =~= push_styled(line_view(*old(line)), c, hl));
    } else {
        let mut t = String::new();
        push_char(&mut t, c);
        line.push(StyledSpan { text: t, highlighted: hl });
        assert(seq![c] =~= Seq::<char>::empty().push(c));
        assert(line_view(*line) =~= push_styled(line_view(*old(line)), c, hl));
    }
}

/// For each character of a piece, whether it is highlighted.
fn highlight_mask(seg: &str, seg_chars: &Vec<char>, term: &str) -> (r: Vec<bool>)
    requires
        seg_chars@ == seg@,
    ensures
        r@.len() == seg@.len(),
        forall|k: int| 0 <= k < seg@.len() ==> r@[k] == highlighted_at(seg@, term@, k),
{
    let n = seg_chars.len();
    let mut mask: Vec<bool> = Vec::new();
    if term.is_empty() {
        while mask.len() < n
            invariant
                mask@.len() <= n,
                n == seg@.len(),
                term@.len() == 0,
                forall|k: int| 0 <= k < mask@.len() ==> mask@[k] == highlighted_at(seg@, term@, k),
            decreases n - mask@.len(),
        {
            mask.push(false);
        }
        return mask;
    }
    let matches = find_literal_matches(seg, term);
    let ghost ms = literal_matches(seg@, term@);
    // byte offset of character `k`; `past` once it no longer fits in usize
    let mut off: usize = 0;
    let mut past = false;
    let mut k: usize = 0;
    while k < n
        invariant
            n == seg@.len(),
            seg_chars@ == seg@,
            matches@ == ms,
            ms == literal_matches(seg@, term@),
            term@.len() > 0,
            k <= n,
            mask@.len() == k,
            !past ==> off as int == byte_offset(seg@, k as int),
            past ==> byte_offset(seg@, k as int) > usize::MAX,
            forall|i: int| 0 <= i < mask@.len() ==> mask@[i] == highlighted_at(seg@, term@, i),
        decreases n - k,
    {
        let mut found = false;
        if !past {
            let mut j: usize = 0;
            while j < matches.len()
                invariant
                    matches@ == ms,
                    j <= ms.len(),
                    off as int == byte_offset(seg@, k as int),
                    found <==> exists|t: int| 0 <= t < j && (#[trigger] ms[t]).0 <= off < ms[t].1,
                decreases ms.len() - j,
            {
                let (a, b) = matches[j];
                if a <= off && off < b {
                    found = true;
                }
                j = j + 1;
            }
        } else {
            assert(forall|t: int| 0 <= t < ms.len() ==> !((#[trigger] ms[t]).0 <= byte_offset(seg@, k as int) < ms[t].1));
        }
        mask.push(found);
        let w = char_utf8_len(seg_chars[k]);
        proof {
            assert(byte_offset(seg@, k as int + 1) == byte_offset(seg@, k as int) + utf8_len(seg@[k as int]));
        }
        if !past {
            if off > usize::MAX - w {
                past = true;
            } else {
                off = off + w;
            }
        }
        k = k + 1;
    }
    mask
}

/// Appends the characters of one grapheme with their marks.
fn add_grapheme(line: &mut Vec<StyledSpan>, g: &Vec<char>, marks: &Vec<bool>)
    ensures
        line_view(*final(line)) == add_marked(line_view(*old(line)), g@, marks@),
{
    let mut t: usize = 0;
    while t < g.len()
        invariant
            t <= g@.len(),
            line_view(*line) == add_marked(line_view(*old(line)), g@.take(t as int), marks@),
        decreases g@.len() - t,
    {
        let hl = t < marks.len() && marks[t];
        proof {
            assert(g@.take(t as int + 1).drop_last() =~= g@.take(t as int));
        }
        push_styled_char(line, g[t], hl);
        t = t + 1;
    }
    assert(g@.take(g@.len() as int) =~= g@);
}

/// Lays out graphemes, given with their display widths and, for each of
/// their characters, whether it is highlighted, in lines of `width`
/// columns; without `wrap` they all go on one line. Every character appears
/// once, in order.
pub fn lay_out_graphemes(
    graphemes: &Vec<String>,
    widths: &Vec<usize>,
    marks: &Vec<Vec<bool>>,
    width: u16,
    wrap: bool,
) -> (r: Vec<Vec<StyledSpan>>)
    ensures
        lines_view(r@) == layout_lines(texts_of(graphemes@), widths@, marks_view(marks@), width as int, wrap),
        all_chars(lines_view(r@)) == joined(texts_of(graphemes@)),
{
    let ghost gs = texts_of(graphemes@);
    let ghost ms = marks_view(marks@);
    let ghost w = width as int;
    let mut lines: Vec<Vec<StyledSpan>> = Vec::new();
    let mut cur: Vec<StyledSpan> = Vec::new();
    let mut cur_w: usize = 0;
    let mut i: usize = 0;
    assert(gs.take(0) =~= Seq::<Seq<char>>::empty());
    while i < graphemes.len()
        invariant
            gs == texts_of(graphemes@),
            ms == marks_view(marks@),
            w == width as int,
            i <= graphemes@.len(),
            layout_upto(gs, widths@, ms, w, wrap, i as int) == (lines_view(lines@), line_view(cur), cur_w as int),
            all_chars(lines_view(lines@)) + line_chars(line_view(cur)) == joined(gs.take(i as int)),
        decreases graphemes@.len() - i,
    {
        let g = chars_of(graphemes[i].as_str());
        let gw: usize = if i < widths.len() { widths[i] } else { 0 };
        let empty: Vec<bool> = Vec::new();
        let m: &Vec<bool> = if i < marks.len() { &marks[i] } else { &empty };
        proof {
            assert(g@ == gs[i as int]);
            assert(m@ == marks_at(ms, i as int));
            assert(gs.take(i as int + 1).drop_last() =~= gs.take(i as int));
            assert(joined(gs.take(i as int + 1)) == joined(gs.take(i as int)) + g@);
        }
        let ghost old_lines = lines_view(lines@);
        let ghost old_cur = line_view(cur);
        if wrap && cur.len() > 0 && (cur_w > width as usize || gw > width as usize - cur_w) {
            lines.push(cur);
            cur = Vec::new();
            assert(line_view(cur) =~= Seq::<(Seq<char>, bool)>::empty());
            add_grapheme(&mut cur, &g, m);
            cur_w = gw;
            proof {
                assert(lines_view(lines@) =~= old_lines.push(old_cur));
                assert(lines_view(lines@).drop_last() =~= old_lines);
                assert(all_chars(lines_view(lines@)) == all_chars(old_lines) + line_chars(old_cur));
                lemma_line_chars_add(Seq::empty(), g@, m@);
                assert(line_chars(Seq::<(Seq<char>, bool)>::empty()) =~= Seq::<char>::empty());
                assert(line_chars(line_view(cur)) =~= g@);
                assert(all_chars(lines_view(lines@)) + line_chars(line_view(cur)) =~= joined(gs.take(i as int + 1)));
            }
        } else {
            let nonempty = cur.len() > 0;
            add_grapheme(&mut cur, &g, m);
            cur_w = if !wrap {
                0
            } else if nonempty {
                cur_w + gw
            } else {
                gw
            };
            proof {
                lemma_line_chars_add(old_cur, g@, m@);
                assert(all_chars(lines_view(lines@)) + line_chars(line_view(cur)) =~= joined(gs.take(i as int + 1)));
            }
        }
        i = i + 1;
    }
    assert(gs.take(gs.len() as int) =~= gs);
    if cur.len() > 0 {
        let ghost old_lines = lines_view(lines@);
        lines.push(cur);
        assert(lines_view(lines@).drop_last() =~= old_lines);
    } else {
        assert(line_chars(line_view(cur)) =~= Seq::<char>::empty());
        assert(all_chars(lines_view(lines@)) + Seq::<char>::empty() =~= all_chars(lines_view(lines@)));
    }
    lines
}

/// Wraps one piece of text to `width` columns.
fn wrap_segment(seg: &String, width: u16, term: &str) -> (r: Vec<Vec<StyledSpan>>)
    ensures
        lines_view(r@) == segment_lines(seg@, term@, width as int),
        all_chars(lines_view(r@)) == seg@,
{
    let seg_chars = chars_of(seg.as_str());
    let mask = highlight_mask(seg.as_str(), &seg_chars, term);
    let gs = graphemes_of(seg.as_str());
    let ghost clusters = grapheme_clusters(seg@);
    let n_chars = seg_chars.len();
    let mut widths: Vec<usize> = Vec::new();
    let mut marks: Vec<Vec<bool>> = Vec::new();
    let mut k: usize = 0;
    let mut i: usize = 0;
    assert(clusters.take(0) =~= Seq::<Seq<char>>::empty());
    while i < gs.len()
        invariant
            texts_of(gs@) == clusters,
            clusters == grapheme_clusters(seg@),
            joined(clusters) == seg@,
            seg_chars@ == seg@,
            n_chars == seg_chars@.len(),
            mask@.len() == seg@.len(),
            forall|j: int| 0 <= j < seg@.len() ==> mask@[j] == highlighted_at(seg@, term@, j),
            i <= gs@.len(),
            widths@ == grapheme_widths(seg@).take(i as int),
            marks_view(marks@) == grapheme_marks(seg@, term@).take(i as int),
            k as int == joined(clusters.take(i as int)).len(),
        decreases gs@.len() - i,
    {
        let g = chars_of(gs[i].as_str());
        assert(g@ == clusters[i as int]);
        proof {
            lemma_joined_prefix(clusters, i as int + 1, clusters.len() as int);
            assert(clusters.take(clusters.len() as int) =~= clusters);
            assert(clusters.take(i as int + 1).drop_last() =~= clusters.take(i as int));
            assert(joined(clusters.take(i as int + 1)) == joined(clusters.take(i as int)) + g@);
            assert(k + g@.len() <= seg_chars@.len());
        }
        let gw = width_of(gs[i].as_str());
        widths.push(gw);
        let mut row: Vec<bool> = Vec::new();
        let mut t: usize = 0;
        while t < g.len()
            invariant
                t <= g@.len(),
                k + g@.len() <= mask@.len(),
                mask@.len() == n_chars,
                row@.len() == t,
                forall|j: int| 0 <= j < t ==> row@[j] == mask@[k + j],
            decreases g@.len() - t,
        {
            row.push(mask[k + t]);
            t = t + 1;
        }
        let ghost prev_marks = marks_view(marks@);
        marks.push(row);
        proof {
            assert(row@ =~= grapheme_marks(seg@, term@)[i as int]);
            assert(marks_view(marks@) =~= prev_marks.push(row@));
            assert(marks_view(marks@) =~= grapheme_marks(seg@, term@).take(i as int + 1));
            assert(widths@ =~= grapheme_widths(seg@).take(i as int + 1));
        }
        k = k + g.len();
        i = i + 1;
    }
    assert(grapheme_widths(seg@).take(gs@.len() as int) =~= grapheme_widths(seg@));
    assert(grapheme_marks(seg@, term@).take(gs@.len() as int) =~= grapheme_marks(seg@, term@));
    let fits = width_of(seg.as_str()) <= width as usize;
    lay_out_graphemes(&gs, &widths, &marks, width, !fits)
}

proof fn lemma_all_chars_concat(a: Seq<LineView>, b: Seq<LineView>)
    ensures
        all_chars(a + b) == all_chars(a) + all_chars(b),
    decreases b.len(),
{
    if b.len() == 0 {
        assert(a + b =~= a);
        assert(all_chars(a) + all_chars(b) =~= all_chars(a));
    } else {
        lemma_all_chars_concat(a, b.drop_last());
        assert((a + b).drop_last() =~= a + b.drop_last());
        assert(all_chars(a) + all_chars(b.drop_last()) + line_chars(b.last()) =~= all_chars(a) + all_chars(b));
    }
}

/// Composes the lines of `text` for `width` columns, with the
/// case-insensitive occurrences of `term` highlighted. Every character but
/// the newlines appears in the result exactly once and in order.
pub fn compose(text: &str, width: u16, term: &str) -> (r: Vec<Vec<StyledSpan>>)
    ensures
        lines_view(r@) == composed(text@, width as int, term@),
        all_chars(lines_view(r@)) == newline_free(text@),
{
    let cs = chars_of(text);
    let mut out: Vec<Vec<StyledSpan>> = Vec::new();
    let mut cur = String::new();
    let ghost mut ps: Seq<Seq<char>> = Seq::empty();
    let mut i: usize = 0;
    assert(text@.take(0) =~= Seq::<char>::empty());
    assert(lines_view(out@) =~= Seq::<LineView>::empty());
    while i < cs.len()
        invariant
            cs@ == text@,
            i <= cs@.len(),
            split_upto(text@, i as int) == (ps, cur@),
            lines_view(out@) == lines_of_pieces(ps, term@, width as int),
            all_chars(lines_view(out@)) + cur@ == newline_free(text@.take(i as int)),
        decreases cs@.len() - i,
    {
        let c = cs[i];
        assert(text@.take(i as int + 1).drop_last() =~= text@.take(i as int));
        if c == '\n' {
            if !cur.as_str().is_empty() {
                let mut seg_lines = wrap_segment(&cur, width, term);
                let ghost before = lines_view(out@);
                let ghost added = lines_view(seg_lines@);
                out.append(&mut seg_lines);
                proof {
                    assert(lines_view(out@) =~= before + added);
                    assert(ps.push(cur@).drop_last() =~= ps);
                    lemma_all_chars_concat(before, added);
                }
                proof { ps = ps.push(cur@); }
            } else {
                assert(all_chars(lines_view(out@)) + cur@ =~= all_chars(lines_view(out@)));
            }
            cur = String::new();
            assert(all_chars(lines_view(out@)) + cur@ =~= all_chars(lines_view(out@)));
        } else {
            push_char(&mut cur, c);
            assert(all_chars(lines_view(out@)) + cur@ =~= (all_chars(lines_view(out@)) + cur@.drop_last()).push(c));
        }
        i = i + 1;
    }
    assert(text@.take(text@.len() as int) =~= text@);
    if !cur.as_str().is_empty() {
        let mut seg_lines = wrap_segment(&cur, width, term);
        let ghost before = lines_view(out@);
        let ghost added = lines_view(seg_lines@);
        out.append(&mut seg_lines);
        proof {
            assert(lines_view(out@) =~= before + added);
            assert(ps.push(cur@).drop_last() =~= ps);
            lemma_all_chars_concat(before, added);
        }
    } else {
        assert(all_chars(lines_view(out@)) + cur@ =~= all_chars(lines_view(out@)));
    }
    out
}

} // verus!
