use kanten_logs::client::{
    completed_items, item_from_row, query_string, results_outcome, GroupLister, GroupPage, ListingAction,
    ListingResponse, QueryId, QueryStatus, ResultField, SearchResult, StreamInfo, StreamLister, StreamPage,
    QUERY_RESULT_LIMIT,
};

fn field(name: &str, value: &str) -> ResultField {
    ResultField { field: Some(name.to_string()), value: Some(value.to_string()) }
}

fn rows(n: usize) -> Vec<Vec<ResultField>> {
    (0..n).map(|i| vec![field("@timestamp", &format!("t{}", i)), field("@message", &format!("m{}", i))]).collect()
}

#[test]
fn query_text_embeds_the_filter() {
    assert_eq!(
        query_string("error"),
        "fields @timestamp, @message, @log | sort @timestamp desc | filter @message like /error/"
    );
}

#[test]
fn row_fields_are_read_by_name() {
    let row = vec![field("@log", "x"), field("@message", "m1"), field("@timestamp", "t1")];
    let item = item_from_row(&row);
    assert_eq!(item.timestamp, "t1");
    assert_eq!(item.message, "m1");
    let row = vec![ResultField { field: None, value: Some("v".to_string()) }, field("@message", "a"), field("@message", "b")];
    let item = item_from_row(&row);
    assert_eq!(item.timestamp, "");
    assert_eq!(item.message, "b");
}

#[test]
fn running_at_the_cap_counts_as_complete() {
    let id = QueryId::new("q1".to_string());
    let full = rows(QUERY_RESULT_LIMIT);
    match results_outcome(&id, Some(QueryStatus::Running), &full) {
        SearchResult::Complete(items) => {
            assert_eq!(items.len(), 10000);
            assert_eq!(items[9999].message, "m9999");
        }
        SearchResult::Running(_) => panic!("expected a complete result"),
    }
    let running = results_outcome(&id, Some(QueryStatus::Running), &rows(5));
    match running {
        SearchResult::Running(q) => assert_eq!(q.to_text(), "q1"),
        SearchResult::Complete(_) => panic!("expected a running result"),
    }
    assert!(matches!(results_outcome(&id, None, &full), SearchResult::Running(_)));
    assert!(matches!(results_outcome(&id, Some(QueryStatus::Failed), &full), SearchResult::Running(_)));
    match results_outcome(&id, Some(QueryStatus::Complete), &rows(2)) {
        SearchResult::Complete(items) => assert_eq!(items[1].timestamp, "t1"),
        SearchResult::Running(_) => panic!("expected a complete result"),
    }
}

#[test]
fn worker_delivers_only_complete_results() {
    let id = QueryId::new("q".to_string());
    assert!(completed_items(None).is_none());
    assert!(completed_items(Some(SearchResult::Running(id))).is_none());
    let items = completed_items(Some(SearchResult::Complete(vec![]))).expect("items");
    assert!(items.is_empty());
}

fn group_page(names: &[&str], token: Option<&str>) -> GroupPage {
    GroupPage { names: names.iter().map(|n| Some(n.to_string())).collect(), next_token: token.map(|t| t.to_string()) }
}

#[test]
fn three_pages_of_two_groups_give_six_in_order() {
    let mut l = GroupLister::new();
    assert!(matches!(l.start(), ListingAction::Fetch(None)));
    let a = l.on_response(ListingResponse::Page(group_page(&["g1", "g2"], Some("page-two"))));
    assert!(matches!(a, ListingAction::Fetch(Some(ref t)) if t == "page-two"));
    let a = l.on_response(ListingResponse::Throttled);
    assert!(matches!(a, ListingAction::RetryAfter(20, Some(ref t)) if t == "page-two"));
    let a = l.on_response(ListingResponse::Page(group_page(&["g3", "g4"], Some("page-three"))));
    assert!(matches!(a, ListingAction::Fetch(Some(ref t)) if t == "page-three"));
    let a = l.on_response(ListingResponse::Page(group_page(&["g5", "g6"], None)));
    assert!(matches!(a, ListingAction::Done));
    assert_eq!(l.into_output().items, vec!["g1", "g2", "g3", "g4", "g5", "g6"]);
}

#[test]
fn groups_without_a_name_are_skipped_and_failures_end_the_listing() {
    let mut l = GroupLister::new();
    let page = GroupPage { names: vec![None, Some("g".to_string())], next_token: None };
    assert!(matches!(l.on_response(ListingResponse::Page(page)), ListingAction::Done));
    assert_eq!(l.items, vec!["g"]);
    assert!(matches!(l.on_response(ListingResponse::Failed), ListingAction::Fail));
}

fn stream(name: &str, t: i64) -> StreamInfo {
    StreamInfo { name: name.to_string(), last_ingestion_time: t }
}

#[test]
fn stream_listing_stops_at_the_first_stale_stream() {
    let mut l = StreamLister::new(100);
    let a = l.on_response(ListingResponse::Page(StreamPage {
        streams: Some(vec![stream("s1", 200), stream("s2", 150)]),
        next_token: Some("n".to_string()),
    }));
    assert!(matches!(a, ListingAction::Fetch(Some(ref t)) if t == "n"));
    let a = l.on_response(ListingResponse::Page(StreamPage {
        streams: Some(vec![stream("s3", 120), stream("s4", 50), stream("s5", 300)]),
        next_token: Some("m".to_string()),
    }));
    assert!(matches!(a, ListingAction::Done));
    assert_eq!(l.into_output().items, vec!["s1", "s2", "s3"]);
}

#[test]
fn stream_listing_takes_every_page_of_recent_streams() {
    let mut l = StreamLister::new(0);
    for (i, token) in [Some("a"), Some("b"), None].iter().enumerate() {
        let a = l.on_response(ListingResponse::Page(StreamPage {
            streams: Some(vec![stream(&format!("s{}a", i), 5), stream(&format!("s{}b", i), 5)]),
            next_token: token.map(|t| t.to_string()),
        }));
        assert_eq!(matches!(a, ListingAction::Done), token.is_none());
    }
    assert_eq!(l.items.len(), 6);
    assert_eq!(l.items[5], "s2b");
    let mut l = StreamLister::new(0);
    let a = l.on_response(ListingResponse::Page(StreamPage { streams: None, next_token: Some("x".to_string()) }));
    assert!(matches!(a, ListingAction::Done));
}
