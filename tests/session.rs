use kanten_logs::app::{App, FocusTarget, Message, Opt};
use kanten_logs::client::{completed_items, results_outcome, QueryId, QueryStatus, ResultField, SearchResult};
use kanten_logs::keys::{KeyCode, KeyEvent, KeyModifiers};

fn opt(group: Option<&str>) -> Opt {
    Opt { since: "15m".to_string(), end: None, group_name: group.map(|g| g.to_string()) }
}

fn key(code: KeyCode) -> KeyEvent {
    KeyEvent::new(code, KeyModifiers::none())
}

fn starts(msgs: &[Message]) -> usize {
    msgs.iter().filter(|m| matches!(m, Message::StartQueryRequest(..))).count()
}

#[test]
fn no_selected_group_never_starts_a_query() {
    let mut app = App::new(vec!["g1".to_string(), "g2".to_string()], opt(None));
    assert!(app.group_names.selected.is_empty());
    for _ in 0..100 {
        app.update(Message::Tick);
    }
    assert_eq!(starts(&app.take_requests()), 0);
    assert!(!app.query_started);
}

#[test]
fn tick_starts_a_query_for_the_selected_groups() {
    let mut app = App::new(vec!["app-1".to_string(), "db".to_string()], opt(Some("app")));
    app.update(Message::Tick);
    let msgs = app.take_requests();
    assert_eq!(msgs.len(), 1);
    match &msgs[0] {
        Message::StartQueryRequest(g, input) => {
            assert_eq!(*g, app.generation);
            assert_eq!(input.groups, vec!["app-1"]);
            assert_eq!(input.filter, "");
            assert!(input.start <= input.end);
        }
        _ => panic!("expected a start request"),
    }
    assert!(app.query_started && app.loading);
    app.update(Message::Tick);
    assert!(app.take_requests().is_empty());
}

fn running_app() -> App {
    let mut app = App::new(vec!["app-1".to_string()], opt(Some("app")));
    app.update(Message::Tick);
    let g = app.generation;
    app.update(Message::StartQueryComplete(g, QueryId::new("q1".to_string())));
    let msgs = app.take_requests();
    assert!(matches!(msgs.last(), Some(Message::GetQueryResultsRequest(h, q)) if *h == g && q.to_text() == "q1"));
    app
}

#[test]
fn committing_the_filter_while_running_stops_clears_and_restarts() {
    let mut app = running_app();
    let g = app.generation;
    app.update(Message::GetQueryResultsComplete(g, vec![]));
    app.update(Message::StartQueryComplete(g, QueryId::new("q2".to_string())));
    app.take_requests();
    app.logs.push(kanten_logs::log_list::LogListItem::new("t".to_string(), "m".to_string()));
    for c in "err".chars() {
        app.on_key(key(KeyCode::Char(c)));
    }
    assert_eq!(app.default_query_input.value(), "err");
    assert!(app.take_requests().is_empty());
    app.on_key(key(KeyCode::Enter));
    let msgs = app.take_requests();
    assert_eq!(msgs.len(), 1);
    assert!(matches!(&msgs[0], Message::StopQueryRequest(q) if q.to_text() == "q2"));
    assert!(app.logs.items.is_empty());
    assert!(app.query_id.is_none());
    app.update(Message::Tick);
    let msgs = app.take_requests();
    match &msgs[..] {
        [Message::StartQueryRequest(_, input)] => assert_eq!(input.filter, "err"),
        _ => panic!("expected one start request"),
    }
}

fn full_rows() -> Vec<Vec<ResultField>> {
    (0..10000)
        .map(|i| {
            vec![
                ResultField { field: Some("@timestamp".to_string()), value: Some(format!("t{}", i)) },
                ResultField { field: Some("@message".to_string()), value: Some(format!("m{}", i)) },
            ]
        })
        .collect()
}

fn deliver(status: QueryStatus) -> App {
    let mut app = running_app();
    let id = QueryId::new("q1".to_string());
    let outcome = results_outcome(&id, Some(status), &full_rows());
    let items = completed_items(Some(outcome)).expect("complete");
    let g = app.generation;
    app.update(Message::GetQueryResultsComplete(g, items));
    app
}

#[test]
fn running_poll_at_the_cap_is_handled_like_complete() {
    let a = deliver(QueryStatus::Running);
    let b = deliver(QueryStatus::Complete);
    assert_eq!(a.logs.items.len(), 10000);
    assert_eq!(a.logs.items.len(), b.logs.items.len());
    assert_eq!(a.logs.items[1234].text(), b.logs.items[1234].text());
    assert_eq!(a.logs.items[0].text(), "t0    m0");
    assert!(a.query_completed && b.query_completed);
    assert!(!a.loading && a.query_id.is_none());
    let c = results_outcome(&QueryId::new("q".to_string()), Some(QueryStatus::Running), &full_rows()[..9999].to_vec());
    assert!(matches!(c, SearchResult::Running(_)));
}

#[test]
fn tab_cycles_focus_and_moves_input_focus() {
    let mut app = App::new(vec![], opt(None));
    let order = [
        FocusTarget::Duration,
        FocusTarget::GroupFilter,
        FocusTarget::Groups,
        FocusTarget::Logs,
        FocusTarget::FindStringInLogs,
        FocusTarget::LogFilter,
    ];
    for f in order.iter() {
        app.on_key(key(KeyCode::Tab));
        assert_eq!(app.focus_state, *f);
        assert_eq!(app.duration_input.is_focused(), *f == FocusTarget::Duration);
        assert_eq!(app.default_query_input.is_focused(), *f == FocusTarget::LogFilter);
    }
    app.on_key(KeyEvent::new(KeyCode::Tab, KeyModifiers::control()));
    assert_eq!(app.focus_state, FocusTarget::FindStringInLogs);
    assert!(app.find_string_input.is_focused());
}

#[test]
fn group_filter_and_find_text_follow_their_inputs() {
    let mut app = App::new(vec!["alpha".to_string(), "beta".to_string()], opt(None));
    app.focus_next();
    app.focus_next();
    app.on_key(key(KeyCode::Char('b')));
    assert_eq!(app.group_names.filtered, vec!["beta"]);
    app.focus_next();
    app.on_key(key(KeyCode::Enter));
    assert_eq!(app.group_names.selected, vec!["beta"]);
    assert!(app.should_query_restart);
    app.focus_next();
    app.focus_next();
    app.on_key(key(KeyCode::Char('x')));
    assert_eq!(app.logs.state.find_text, "x");
}

#[test]
fn invalid_duration_commit_is_discarded() {
    let mut app = App::new(vec![], opt(None));
    app.focus_next();
    let before = app.duration;
    assert_eq!(app.duration_input.value(), "15m");
    app.on_key(KeyEvent::new(KeyCode::Char('e'), KeyModifiers::control()));
    app.on_key(key(KeyCode::Char('z')));
    assert_eq!(app.duration_input.value(), "15mz");
    app.on_key(key(KeyCode::Enter));
    assert_eq!(app.duration, before);
    assert!(!app.should_query_restart);
    for _ in 0..10 {
        app.on_key(key(KeyCode::Backspace));
    }
    assert_eq!(app.duration_input.value(), "");
    for c in "1h - now".chars() {
        app.on_key(key(KeyCode::Char(c)));
    }
    app.on_key(key(KeyCode::Enter));
    assert!(app.duration.is_valid());
    match app.duration {
        kanten_logs::duration::Duration::Duration { start: Some(s), end: Some(e) } => assert_eq!(e - s, 3600),
        _ => panic!("expected both ends"),
    }
    assert!(app.should_query_restart);
}

#[test]
fn layout_reports_are_taken_over() {
    let mut app = App::new(vec![], opt(None));
    app.update(Message::UpdateLogListEndIndex(7));
    app.update(Message::UpdateLogListPrevPageStartIndex(3));
    assert_eq!(app.logs.state.end_index, 7);
    assert_eq!(app.logs.state.prev_page_start_index, 3);
}

#[test]
fn stale_completions_are_discarded() {
    let mut app = running_app();
    let old = app.generation;
    app.on_key(key(KeyCode::Enter));
    let msgs = app.take_requests();
    assert!(matches!(&msgs[..], [Message::StopQueryRequest(q)] if q.to_text() == "q1"));
    assert_ne!(app.generation, old);
    app.update(Message::GetQueryResultsComplete(old, vec![]));
    assert!(!app.query_completed);
    app.update(Message::StartQueryComplete(old, QueryId::new("late".to_string())));
    let msgs = app.take_requests();
    assert!(matches!(&msgs[..], [Message::StopQueryRequest(q)] if q.to_text() == "late"));
    assert!(app.query_id.is_none());
    app.update(Message::Tick);
    let g = app.generation;
    app.update(Message::StartQueryComplete(g, QueryId::new("fresh".to_string())));
    assert_eq!(app.query_id.as_ref().map(|q| q.to_text()), Some("fresh".to_string()));
}

#[test]
fn start_request_lists_groups_in_ascending_order() {
    let groups = vec!["db-b".to_string(), "db-c".to_string(), "db-a".to_string()];
    let mut app = App::new(groups, opt(Some("db")));
    app.update(Message::Tick);
    match &app.take_requests()[..] {
        [Message::StartQueryRequest(_, input)] => assert_eq!(input.groups, vec!["db-a", "db-b", "db-c"]),
        _ => panic!("expected one start request"),
    }
}

#[test]
fn stop_with_nothing_in_flight_queues_nothing() {
    let mut app = App::new(vec![], opt(None));
    app.request_stop_query();
    assert!(app.take_requests().is_empty());
    assert!(app.query_id.is_none());
}
