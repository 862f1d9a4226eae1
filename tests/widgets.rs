use kanten_logs::checkbox::Checkbox;
use kanten_logs::duration::{count_digits, is_now_word, parse_time, split_range, time_at, Duration};
use kanten_logs::group_list::GroupList;
use kanten_logs::input::{InputModel, Position};
use kanten_logs::keys::{KeyCode, KeyEvent, KeyModifiers};

fn plain(code: KeyCode) -> KeyEvent {
    KeyEvent::new(code, KeyModifiers::none())
}

fn ctrl(c: char) -> KeyEvent {
    KeyEvent::new(KeyCode::Char(c), KeyModifiers::control())
}

#[test]
fn input_editing_keys() {
    let mut i = InputModel::new().set_placeholder("type here".to_string());
    assert!(i.is_empty());
    assert_eq!(i.placeholder(), "type here");
    for c in "abc".chars() {
        i.on_key(plain(KeyCode::Char(c)));
    }
    assert_eq!(i.value(), "abc");
    assert_eq!(i.cursor().x, 3);
    i.on_key(plain(KeyCode::Left));
    i.on_key(plain(KeyCode::Backspace));
    assert_eq!(i.value(), "ac");
    assert_eq!(i.cursor().x, 1);
    i.on_key(ctrl('a'));
    i.on_key(plain(KeyCode::Delete));
    assert_eq!(i.value(), "c");
    i.on_key(ctrl('e'));
    assert_eq!(i.cursor().x, 1);
    i.on_key(plain(KeyCode::Right));
    assert_eq!(i.cursor().x, 1);
    i.on_key(plain(KeyCode::Delete));
    assert_eq!(i.value(), "c");
    i.on_key(KeyEvent::new(KeyCode::Char('D'), KeyModifiers::shift()));
    assert_eq!(i.value(), "cD");
    i.on_key(ctrl('b'));
    i.on_key(ctrl('h'));
    assert_eq!(i.value(), "D");
    i.on_key(ctrl('f'));
    assert_eq!(i.cursor().x, 1);
    i.on_key(KeyEvent::new(KeyCode::Char('q'), KeyModifiers::alt()));
    assert_eq!(i.value(), "D");
}

#[test]
fn input_focus_and_clamp() {
    let mut i = InputModel::new().set_value("ab\u{301}cd".to_string());
    assert!(!i.is_focused());
    i.focus();
    assert!(i.is_focused());
    i.blur();
    assert!(!i.is_focused());
    assert_eq!(i.clamp_by(2), "ab\u{301}");
    assert_eq!(i.clamp_by(10), "ab\u{301}cd");
    assert_eq!(i.clamp_by(0), "");
    let p = Position::default();
    assert_eq!((p.x, p.y), (0, 0));
}

#[test]
fn group_list_filters_and_selects() {
    let items = vec!["app-a".to_string(), "app-b".to_string(), "db".to_string()];
    let mut g = GroupList::with_items(items.clone(), "app".to_string(), true);
    assert_eq!(g.filtered, vec!["app-a", "app-b"]);
    assert_eq!(g.selected.len(), 2);
    g.set_filter("^d");
    assert_eq!(g.filtered, vec!["db"]);
    assert_eq!(g.selected.len(), 2);
    g.on_key(KeyEvent::new(KeyCode::Enter, KeyModifiers::none()));
    assert!(g.selected.contains(&"db".to_string()));
    g.set_filter("app");
    g.on_key(KeyEvent::new(KeyCode::Enter, KeyModifiers::none()));
    assert!(!g.selected.contains(&"app-a".to_string()));
    assert_eq!(g.selected.len(), 2);
    g.set_filter("(");
    assert!(g.filtered.is_empty());
    g.set_filter("");
    assert_eq!(g.filtered.len(), 3);
    let none = GroupList::with_items(items, "".to_string(), true);
    assert!(none.selected.is_empty());
}

#[test]
fn group_selection_is_kept_in_ascending_order() {
    let items = vec!["zeta".to_string(), "alpha".to_string(), "mid".to_string(), "Beta".to_string()];
    let mut g = GroupList::with_items(items, "a".to_string(), true);
    assert_eq!(g.selected, vec!["Beta", "alpha", "zeta"]);
    g.set_filter("mid");
    g.toggle_highlighted();
    assert_eq!(g.selected, vec!["Beta", "alpha", "mid", "zeta"]);
    g.toggle_highlighted();
    assert_eq!(g.selected, vec!["Beta", "alpha", "zeta"]);
}

#[test]
fn group_list_selection_is_capped() {
    let items: Vec<String> = (0..30).map(|i| format!("grp{}", i)).collect();
    let g = GroupList::with_items(items, "grp".to_string(), true);
    assert_eq!(g.selected.len(), 20);
}

#[test]
fn group_list_highlight_wraps() {
    let items = vec!["a".to_string(), "b".to_string(), "c".to_string()];
    let mut g = GroupList::with_items(items, "".to_string(), false);
    assert_eq!(g.state.selected(), Some(0));
    g.previous();
    assert_eq!(g.state.selected(), Some(2));
    g.next();
    assert_eq!(g.state.selected(), Some(0));
    g.on_key(KeyEvent::new(KeyCode::Down, KeyModifiers::none()));
    assert_eq!(g.state.selected(), Some(1));
    g.on_key(KeyEvent::new(KeyCode::Char('p'), KeyModifiers::control()));
    assert_eq!(g.state.selected(), Some(0));
    let mut empty = GroupList::with_items(vec![], "".to_string(), false);
    empty.next();
    empty.previous();
    empty.toggle_highlighted();
    assert_eq!(empty.state.selected(), Some(0));
}

#[test]
fn time_resolution() {
    assert_eq!(time_at("now", 5), Some(5));
    assert_eq!(time_at("15m", 1000), Some(100));
    assert_eq!(time_at("2h 37min", 10000), Some(10000 - 9420));
    assert_eq!(time_at("1s", i64::MIN), None);
    assert_eq!(time_at("2020-01-01T00:00:00Z", 5), Some(1577836800));
    assert_eq!(time_at("nonsense", 5), None);
    assert!(is_now_word("now"));
    assert!(!is_now_word("nowx"));
}

#[test]
fn oversized_duration_text_is_refused_without_panic() {
    let text = "18446744073709551615s 1000ms";
    assert_eq!(count_digits(text), 24);
    assert_eq!(time_at(text, 100), None);
    assert_eq!(parse_time(text), None);
    assert!(!Duration::from_range_text("18446744073709551615s 1000ms - now").is_valid());
    assert_eq!(time_at("99999999999s", 100_000_000_000), Some(1));
}

#[test]
fn one_clock_reading_for_both_ends() {
    assert_eq!(
        Duration::from_opt_at("15m", None, 1000),
        Duration::Duration { start: Some(100), end: Some(1000) }
    );
    assert_eq!(
        Duration::from_opt_at("1h", Some("now"), 5000),
        Duration::Duration { start: Some(1400), end: Some(5000) }
    );
    assert_eq!(
        Duration::from_range_text_at(" 1h - 15m ", 5000),
        Duration::Duration { start: Some(1400), end: Some(4100) }
    );
    assert_eq!(Duration::from_range_text_at("1h", 5000), Duration::Duration { start: Some(1400), end: None });
    match Duration::from_opt("15m", None) {
        Duration::Duration { start: Some(s), end: Some(e) } => assert_eq!(e - s, 900),
        _ => panic!("expected both ends"),
    }
}

#[test]
fn duration_from_options() {
    assert!(Duration::from_opt("15m", None).is_valid());
    assert!(Duration::from_opt("2h 37min", Some("now")).is_valid());
    assert!(!Duration::from_opt("nonsense", None).is_valid());
    assert!(!Duration::from_opt("15m", Some("later")).is_valid());
    let d = Duration::from_opt("1h", Some("now"));
    match d {
        Duration::Duration { start: Some(s), end: Some(e) } => assert_eq!(e - s, 3600),
        _ => panic!("expected both ends"),
    }
}

#[test]
fn duration_from_range_text() {
    assert_eq!(split_range(" 15m - 1h "), ("15m".to_string(), Some("1h".to_string())));
    assert_eq!(split_range("15m"), ("15m".to_string(), None));
    assert!(Duration::from_range_text("1h - now").is_valid());
    assert!(!Duration::from_range_text("1h").is_valid());
    assert!(!Duration::from_range_text("x - now").is_valid());
}

#[test]
fn checkbox_from_flag() {
    assert!(Checkbox::from(true).checked);
    assert!(!Checkbox::from(false).checked);
}

#[test]
fn instant_reads_as_its_epoch_second() {
    let d = Duration::from_opt("2020-01-01T00:00:00Z", None);
    match d {
        Duration::Duration { start: Some(s), end: Some(e) } => {
            assert_eq!(s, 1577836800);
            assert!(s < e);
        }
        _ => panic!("expected both ends"),
    }
    assert!(!Duration::from_opt("not-a-time", None).is_valid());
}
