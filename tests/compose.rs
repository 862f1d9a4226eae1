use kanten_logs::compose::{compose, lay_out_graphemes, StyledSpan};
use kanten_logs::line_builder::LineBuilder;

fn span(t: &str, h: bool) -> StyledSpan {
    StyledSpan { text: t.to_string(), highlighted: h }
}

fn raw(lines: &[Vec<StyledSpan>]) -> String {
    lines.iter().flat_map(|l| l.iter().map(|s| s.text.clone())).collect()
}

#[test]
fn wraps_at_ten_columns_with_highlight_across_the_break() {
    let lines = compose("hello world foo", 10, "world");
    assert_eq!(
        lines,
        vec![
            vec![span("hello ", false), span("worl", true)],
            vec![span("d", true), span(" foo", false)],
        ]
    );
}

#[test]
fn fitting_text_is_one_line() {
    let lines = compose("hello world", 20, "o");
    assert_eq!(
        lines,
        vec![vec![
            span("hell", false),
            span("o", true),
            span(" w", false),
            span("o", true),
            span("rld", false),
        ]]
    );
}

#[test]
fn highlight_is_case_insensitive_and_literal() {
    let lines = compose("Hello WORLD", 40, "world");
    assert_eq!(lines, vec![vec![span("Hello ", false), span("WORLD", true)]]);
    let lines = compose("a.b axb", 40, ".");
    assert_eq!(lines, vec![vec![span("a", false), span(".", true), span("b axb", false)]]);
}

#[test]
fn empty_term_highlights_nothing() {
    let lines = compose("abc", 40, "");
    assert_eq!(lines, vec![vec![span("abc", false)]]);
}

#[test]
fn newlines_split_and_empty_pieces_are_dropped() {
    let lines = compose("a\n\nb\n", 40, "");
    assert_eq!(lines, vec![vec![span("a", false)], vec![span("b", false)]]);
    assert!(compose("\n\n", 40, "x").is_empty());
    assert!(compose("", 40, "x").is_empty());
}

#[test]
fn wide_glyphs_count_two_columns() {
    let lines = compose("日本語", 4, "");
    assert_eq!(lines, vec![vec![span("日本", false)], vec![span("語", false)]]);
}

#[test]
fn combining_sequence_is_one_unit() {
    let text = "e\u{301}e\u{301}e\u{301}";
    let lines = compose(text, 2, "");
    assert_eq!(lines.len(), 2);
    assert_eq!(raw(&lines), text);
}

#[test]
fn no_characters_lost_or_duplicated() {
    let text = "first line with error\nsecond ERROR line that is long\n\nthird";
    for width in 1..30 {
        let lines = compose(text, width, "error");
        assert_eq!(raw(&lines), text.replace('\n', ""));
        for l in &lines {
            let w: usize = l.iter().map(|s| s.text.chars().count()).sum();
            assert!(w <= width as usize || l.len() == 1 && l[0].text.chars().count() == 1);
        }
    }
}

#[test]
fn composing_twice_gives_the_same_lines() {
    let mut b = LineBuilder::new();
    let first = b.run_composer("hello world foo", 10, "world");
    let second = b.run_composer("hello world foo", 10, "world");
    assert_eq!(first, second);
    assert_eq!(first, compose("hello world foo", 10, "world"));
}

#[test]
fn cache_keeps_results_right_after_eviction() {
    let mut b = LineBuilder::new();
    let a = b.run_composer("some text here", 5, "");
    let c = b.run_composer("some text here", 7, "text");
    let d = b.run_composer("some text here", 9, "x");
    assert_eq!(b.run_composer("some text here", 5, ""), a);
    assert_eq!(b.run_composer("some text here", 7, "text"), c);
    assert_eq!(b.run_composer("some text here", 9, "x"), d);
    assert_ne!(a, c);
}

#[test]
fn display_width_of_text() {
    let b = LineBuilder::new();
    assert_eq!(b.width("ab"), 2);
    assert_eq!(b.width("日本"), 4);
    assert_eq!(b.width(""), 0);
}

fn strings(v: &[&str]) -> Vec<String> {
    v.iter().map(|s| s.to_string()).collect()
}

#[test]
fn lays_out_given_graphemes_widths_and_marks() {
    let gs = strings(&["a", "b", "c", "d"]);
    let marks = vec![vec![false], vec![true], vec![true], vec![false]];
    let lines = lay_out_graphemes(&gs, &vec![1, 1, 1, 1], &marks, 3, true);
    assert_eq!(
        lines,
        vec![vec![span("a", false), span("bc", true)], vec![span("d", false)]]
    );
    let one = lay_out_graphemes(&gs, &vec![5, 5, 5, 5], &marks, 3, false);
    assert_eq!(one, vec![vec![span("a", false), span("bc", true), span("d", false)]]);
    let wide = lay_out_graphemes(&strings(&["x", "y"]), &vec![4, 1], &vec![], 3, true);
    assert_eq!(wide, vec![vec![span("x", false)], vec![span("y", false)]]);
    assert!(lay_out_graphemes(&vec![], &vec![], &vec![], 3, true).is_empty());
}

#[test]
fn fitting_piece_is_one_line_even_at_the_edge() {
    let lines = compose("abcdefghij", 10, "");
    assert_eq!(lines, vec![vec![span("abcdefghij", false)]]);
    let lines = compose("abcdefghijk", 10, "");
    assert_eq!(lines.len(), 2);
}
