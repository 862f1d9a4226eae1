use kanten_logs::log_list::{LogListItem, LogListModel};
use kanten_logs::viewport::{layout_viewport, ViewportLayout};

fn layout(h: &[usize], rows: usize, offset: usize, selected: Option<usize>) -> ViewportLayout {
    layout_viewport(&h.to_vec(), rows, offset, selected).expect("a layout")
}

#[test]
fn fills_from_offset_until_rows_are_used() {
    let l = layout(&[1, 1, 1, 1, 1], 3, 0, Some(0));
    assert_eq!(l, ViewportLayout { offset: 0, end: 3, prev_page_start: 0 });
}

#[test]
fn selection_below_window_moves_it_down() {
    let l = layout(&[1, 1, 1, 1, 1], 3, 0, Some(4));
    assert_eq!(l, ViewportLayout { offset: 2, end: 5, prev_page_start: 0 });
    assert!(l.offset <= 4 && 4 < l.end);
}

#[test]
fn selection_above_window_moves_it_up() {
    let l = layout(&[1, 1, 1, 1, 1], 3, 3, Some(1));
    assert_eq!(l, ViewportLayout { offset: 1, end: 4, prev_page_start: 0 });
}

#[test]
fn partly_visible_last_record_is_included() {
    let l = layout(&[2, 5, 1], 3, 0, Some(1));
    assert_eq!(l.offset, 0);
    assert_eq!(l.end, 2);
}

#[test]
fn tall_record_is_shown_alone() {
    let l = layout(&[5], 3, 0, Some(0));
    assert_eq!(l, ViewportLayout { offset: 0, end: 1, prev_page_start: 0 });
    let l = layout(&[2, 5, 1], 3, 0, Some(2));
    assert_eq!(l, ViewportLayout { offset: 2, end: 3, prev_page_start: 1 });
}

#[test]
fn page_up_target_walks_back_one_page() {
    let l = layout(&[1, 1, 1, 1, 1, 1, 1, 1], 3, 6, Some(6));
    assert_eq!(l.offset, 6);
    assert_eq!(l.end, 8);
    assert_eq!(l.prev_page_start, 3);
}

#[test]
fn empty_list_or_no_rows_lays_out_nothing() {
    assert_eq!(layout_viewport(&vec![], 3, 0, Some(0)), None);
    assert_eq!(layout_viewport(&vec![1, 2], 0, 0, Some(0)), None);
}

#[test]
fn offset_and_selection_beyond_the_list_are_clamped() {
    let l = layout(&[1, 1, 1], 2, 10, Some(10));
    assert_eq!(l.offset, 2);
    assert_eq!(l.end, 3);
    let l = layout(&[1, 1, 1], 2, 0, None);
    assert_eq!(l.offset, 0);
    assert_eq!(l.end, 2);
}

#[test]
fn selection_stays_visible_for_many_inputs() {
    let heights = [3usize, 1, 4, 1, 5, 9, 2, 6];
    for rows in 1..12 {
        for offset in 0..10 {
            for sel in 0..10 {
                let l = layout(&heights, rows, offset, Some(sel));
                let s = sel.min(heights.len() - 1);
                assert!(l.offset <= s && s < l.end && l.end <= heights.len());
            }
        }
    }
}

fn model_with(n: usize) -> LogListModel {
    let mut m = LogListModel::new();
    for i in 0..n {
        m.push(LogListItem::new(format!("t{}", i), format!("message {}", i)));
    }
    m
}

#[test]
fn log_item_text_and_height() {
    let mut item = LogListItem::new("ts".to_string(), "msg".to_string());
    assert_eq!(item.text(), "ts    msg");
    assert_eq!(item.height(20), 1);
    assert_eq!(item.height(4), 3);
}

#[test]
fn model_layout_and_paging() {
    let mut m = model_with(10);
    let l = m.layout(80, 3).expect("a layout");
    assert_eq!(l, ViewportLayout { offset: 0, end: 3, prev_page_start: 0 });
    m.apply_layout(l);
    m.next_page_if_exist();
    assert_eq!(m.state.offset, 3);
    assert_eq!(m.state.selected, Some(3));
    let l = m.layout(80, 3).expect("a layout");
    assert_eq!(l, ViewportLayout { offset: 3, end: 6, prev_page_start: 0 });
    m.apply_layout(l);
    m.previous_page_if_exist();
    assert_eq!(m.state.offset, 0);
    assert_eq!(m.state.selected, Some(0));
    assert_eq!(model_with(0).layout(80, 3), None);
    assert_eq!(model_with(3).layout(0, 3), None);
}

#[test]
fn model_line_navigation_is_clamped() {
    let mut m = model_with(2);
    m.previous_if_exist();
    assert_eq!(m.state.selected, Some(0));
    m.next_if_exist();
    assert_eq!(m.state.selected, Some(1));
    m.next_if_exist();
    assert_eq!(m.state.selected, Some(1));
    m.clear();
    assert!(m.items.is_empty());
    assert_eq!(m.state.selected, Some(0));
    m.next_if_exist();
    m.next_page_if_exist();
    assert_eq!(m.state.selected, Some(0));
}
