//! The remote query client's decisions: the query text, how a poll response
//! is read, and how listings are paged. The network calls are made by the
//! caller, which hands the responses in.

use crate::text::texts_of;
use vstd::prelude::*;

verus! {

/// Most records a query asks for; a running query that already returned
/// this many is as good as complete.
pub const QUERY_RESULT_LIMIT: usize = 10000;

/// Pause before a throttled call is made again, in milliseconds.
pub const THROTTLE_RETRY_DELAY_MS: u64 = 20;

/// Pause before a query that is not complete is polled again, in milliseconds.
pub const POLL_RETRY_DELAY_MS: u64 = 100;

/// Identifier of one query in flight.
#[derive(Clone, Debug)]
pub struct QueryId(String);

impl View for QueryId {
    type V = Seq<char>;

    closed spec fn view(&self) -> Seq<char> {
        self.0@
    }
}

impl QueryId {
    pub fn new(id: String) -> (r: QueryId)
        ensures
            r@ == id@,
    {
        QueryId(id)
    }

    /// The identifier as text.
    pub fn to_text(&self) -> (r: String)
        ensures
            r@ == self@,
    {
        self.0.clone()
    }

    /// A copy of the identifier.
    pub fn duplicate(&self) -> (r: QueryId)
        ensures
            r@ == self@,
    {
        QueryId(self.0.clone())
    }
}

#[derive(Clone, Debug)]
pub struct GetGroupsOutput {
    pub items: Vec<String>,
}

#[derive(Clone, Debug)]
pub struct GetStreamsOutput {
    pub items: Vec<String>,
}

/// One record of a query result.
#[derive(Clone, Debug)]
pub struct SearchResultItem {
    pub message: String,
    pub timestamp: String,
}

/// What a poll says: still running, or the records.
#[derive(Clone, Debug)]
pub enum SearchResult {
    Running(QueryId),
    Complete(Vec<SearchResultItem>),
}

/// What a query is started with: a time range in epoch seconds, the filter
/// text and the groups to search.
#[derive(Clone, Debug)]
pub struct StartQueryInput {
    pub start: i64,
    pub end: i64,
    pub filter: String,
    pub groups: Vec<String>,
}

#[derive(Clone, Debug)]
pub struct FilterOutputItem {
    pub message: String,
    pub timestamp: String,
}

#[derive(Clone, Debug)]
pub struct FilterOutput {
    pub items: Vec<FilterOutputItem>,
}

/// The query expression for a filter text: the timestamp and message of
/// each record whose message holds the text, most recent first.
pub open spec fn query_text(filter: Seq<char>) -> Seq<char> {
    "fields @timestamp, @message, @log | sort @timestamp desc | filter @message like /"@ + filter + "/"@
}

pub fn query_string(filter: &str) -> (r: String)
    ensures
        r@ == query_text(filter@),
{
    let mut q = String::from_str("fields @timestamp, @message, @log | sort @timestamp desc | filter @message like /");
    q.append(filter);
    q.append("/");
    q
}

/// The status that a poll reports.
#[derive(Clone, Copy, Debug, PartialEq, Eq, Structural)]
pub enum QueryStatus {
    Scheduled,
    Running,
    Complete,
    Failed,
    Cancelled,
    Timeout,
    Unknown,
}

/// One field of a result row: its name and value, each possibly missing.
#[derive(Clone, Debug)]
pub struct ResultField {
    pub field: Option<String>,
    pub value: Option<String>,
}

/// The value of the last field of the row with that name; empty when there
/// is none, or when it has no value.
pub open spec fn field_value(row: Seq<ResultField>, name: Seq<char>) -> Seq<char>
    decreases row.len(),
{
    if row.len() == 0 {
        Seq::empty()
    } else if row.last().field is Some && row.last().field->0@ == name {
        match row.last().value {
            Some(v) => v@,
            None => Seq::empty(),
        }
    } else {
        field_value(row.drop_last(), name)
    }
}

/// A record's timestamp and message, read from a result row.
pub open spec fn row_item(row: Seq<ResultField>) -> (Seq<char>, Seq<char>) {
    (field_value(row, "@timestamp"@), field_value(row, "@message"@))
}

pub open spec fn item_view(item: SearchResultItem) -> (Seq<char>, Seq<char>) {
    (item.timestamp@, item.message@)
}

pub open spec fn items_view(items: Seq<SearchResultItem>) -> Seq<(Seq<char>, Seq<char>)> {
    items.map_values(|i: SearchResultItem| item_view(i))
}

pub open spec fn rows_items(rows: Seq<Vec<ResultField>>) -> Seq<(Seq<char>, Seq<char>)> {
    rows.map_values(|r: Vec<ResultField>| row_item(r@))
}

/// Whether a poll counts as complete: the service says so, or it is still
/// running but already returned as many records as a query may.
pub open spec fn poll_is_complete(status: Option<QueryStatus>, n_rows: int) -> bool {
    status == Some(QueryStatus::Complete) || (status == Some(QueryStatus::Running) && n_rows
        >= QUERY_RESULT_LIMIT)
}

/// Reads one result row.
pub fn item_from_row(row: &Vec<ResultField>) -> (r: SearchResultItem)
    ensures
        item_view(r) == row_item(row@),
{
    let ts_name = String::from_str("@timestamp");
    let msg_name = String::from_str("@message");
    let mut timestamp = String::new();
    let mut message = String::new();
    let mut i: usize = 0;
    while i < row.len()
        invariant
            i <= row@.len(),
            ts_name@ == "@timestamp"@,
            msg_name@ == "@message"@,
            timestamp@ == field_value(row@.take(i as int), "@timestamp"@),
            message@ == field_value(row@.take(i as int), "@message"@),
        decreases row@.len() - i,
    {
        let f = &row[i];
        assert(row@.take(i as int + 1).drop_last() =~= row@.take(i as int));
        if let Some(name) = &f.field {
            let v = match &f.value {
                Some(v) => v.clone(),
                None => String::new(),
            };
            if *name == ts_name {
                timestamp = v.clone();
            }
            if *name == msg_name {
                message = v;
            }
        }
        i = i + 1;
    }
    assert(row@.take(row@.len() as int) =~= row@);
    SearchResultItem { message, timestamp }
}

/// Reads a poll response: the records when the poll counts as complete,
/// else the query is still running under the same identifier.
pub fn results_outcome(query_id: &QueryId, status: Option<QueryStatus>, rows: &Vec<Vec<ResultField>>) -> (r: SearchResult)
    ensures
        poll_is_complete(status, rows@.len() as int) ==> r is Complete && items_view(r->Complete_0@)
            == rows_items(rows@),
        !poll_is_complete(status, rows@.len() as int) ==> r is Running && r->Running_0@ == query_id@,
{
    let complete = match status {
        Some(QueryStatus::Complete) => true,
        Some(QueryStatus::Running) => rows.len() >= QUERY_RESULT_LIMIT,
        _ => false,
    };
    if !complete {
        return SearchResult::Running(query_id.duplicate());
    }
    let mut items: Vec<SearchResultItem> = Vec::new();
    let mut i: usize = 0;
    while i < rows.len()
        invariant
            i <= rows@.len(),
            items_view(items@) == rows_items(rows@).take(i as int),
        decreases rows@.len() - i,
    {
        let item = item_from_row(&rows[i]);
        let ghost before = items@;
        items.push(item);
        assert(items_view(items@) =~= items_view(before).push(item_view(item)));
        assert(rows_items(rows@).take(i as int + 1) =~= rows_items(rows@).take(i as int).push(row_item(rows@[i as int]@)));
        i = i + 1;
    }
    assert(rows_items(rows@).take(rows@.len() as int) =~= rows_items(rows@));
    SearchResult::Complete(items)
}

/// What the worker makes of a poll: the records of a complete one, or
/// nothing, in which case it polls again after `POLL_RETRY_DELAY_MS`.
pub fn completed_items(outcome: Option<SearchResult>) -> (r: Option<Vec<SearchResultItem>>)
    ensures
        r is Some <==> (outcome is Some && outcome->0 is Complete),
        r is Some ==> r->0 == outcome->0->Complete_0,
{
    match outcome {
        Some(SearchResult::Complete(items)) => Some(items),
        _ => None,
    }
}

/// What the caller does next in a paged listing.
#[derive(Clone, Debug)]
pub enum ListingAction {
    /// Ask for the page under this cursor (none: the first page).
    Fetch(Option<String>),
    /// Wait this many milliseconds, then ask for the page under this cursor again.
    RetryAfter(u64, Option<String>),
    /// The listing is complete.
    Done,
    /// The listing failed.
    Fail,
}

/// One page of log groups: the group names (a group may lack one) and the
/// cursor of the next page.
#[derive(Clone, Debug)]
pub struct GroupPage {
    pub names: Vec<Option<String>>,
    pub next_token: Option<String>,
}

/// The names that a group page holds, in order.
pub open spec fn page_names(names: Seq<Option<String>>) -> Seq<Seq<char>>
    decreases names.len(),
{
    if names.len() == 0 {
        Seq::empty()
    } else {
        match names.last() {
            Some(n) => page_names(names.drop_last()).push(n@),
            None => page_names(names.drop_last()),
        }
    }
}

/// How a listing call came back.
#[derive(Clone, Debug)]
pub enum ListingResponse<P> {
    Page(P),
    Throttled,
    Failed,
}

/// Collects log group names page by page.
pub struct GroupLister {
    pub items: Vec<String>,
    pub next_token: Option<String>,
}

impl GroupLister {
    pub fn new() -> (r: Self)
        ensures
            r.items@.len() == 0,
            r.next_token is None,
    {
        GroupLister { items: Vec::new(), next_token: None }
    }

    /// The first call to make.
    pub fn start(&self) -> (r: ListingAction)
        ensures
            r == ListingAction::Fetch(None),
    {
        ListingAction::Fetch(None)
    }

    /// Takes a response: a page is added and the next one asked for, or the
    /// listing ends where a page has no cursor; a throttled call is made
    /// again after a pause; any other failure ends the listing.
    pub fn on_response(&mut self, resp: ListingResponse<GroupPage>) -> (r: ListingAction)
        ensures
            match resp {
                ListingResponse::Page(p) => {
                    &&& texts_of(final(self).items@) == texts_of(old(self).items@) + page_names(p.names@)
                    &&& final(self).next_token == p.next_token
                    &&& match p.next_token {
                        Some(t) => r == ListingAction::Fetch(Some(t)),
                        None => r == ListingAction::Done,
                    }
                },
                ListingResponse::Throttled => {
                    &&& final(self).items == old(self).items
                    &&& final(self).next_token == old(self).next_token
                    &&& r == ListingAction::RetryAfter(THROTTLE_RETRY_DELAY_MS, old(self).next_token)
                },
                ListingResponse::Failed => {
                    &&& final(self).items == old(self).items
                    &&& final(self).next_token == old(self).next_token
                    &&& r == ListingAction::Fail
                },
            },
    {
        match resp {
            ListingResponse::Page(p) => {
                let mut i: usize = 0;
                let ghost before = texts_of(self.items@);
                assert(p.names@.take(0) =~= Seq::<Option<String>>::empty());
                assert(before + page_names(Seq::empty()) =~= before);
                while i < p.names.len()
                    invariant
                        i <= p.names@.len(),
                        texts_of(self.items@) == before + page_names(p.names@.take(i as int)),
                    decreases p.names@.len() - i,
                {
                    assert(p.names@.take(i as int + 1).drop_last() =~= p.names@.take(i as int));
                    if let Some(n) = &p.names[i] {
                        let ghost prev = self.items@;
                        self.items.push(n.clone());
                        assert(texts_of(self.items@) =~= texts_of(prev).push(n@));
                        assert(texts_of(self.items@) =~= before + page_names(p.names@.take(i as int + 1)));
                    }
                    i = i + 1;
                }
                assert(p.names@.take(p.names@.len() as int) =~= p.names@);
                self.next_token = p.next_token.clone();
                match p.next_token {
                    Some(t) => ListingAction::Fetch(Some(t)),
                    None => ListingAction::Done,
                }
            },
            ListingResponse::Throttled => ListingAction::RetryAfter(THROTTLE_RETRY_DELAY_MS, self.next_token.clone()),
            ListingResponse::Failed => ListingAction::Fail,
        }
    }

    /// The names collected so far.
    pub fn into_output(self) -> (r: GetGroupsOutput)
        ensures
            r.items == self.items,
    {
        GetGroupsOutput { items: self.items }
    }
}

/// Names of all pages, one page after the other.
pub open spec fn all_page_names(pages: Seq<GroupPage>) -> Seq<Seq<char>>
    decreases pages.len(),
{
    if pages.len() == 0 {
        Seq::empty()
    } else {
        page_names(pages[0].names@) + all_page_names(pages.drop_first())
    }
}

/// Pages handed to a group listing one by one, as long as it asks for
/// more: the names it holds then, and how many pages it took.
pub open spec fn feed_group_pages(items: Seq<Seq<char>>, pages: Seq<GroupPage>) -> (Seq<Seq<char>>, nat)
    decreases pages.len(),
{
    if pages.len() == 0 {
        (items, 0)
    } else {
        let taken = items + page_names(pages[0].names@);
        match pages[0].next_token {
            None => (taken, 1),
            Some(_) => {
                let rest = feed_group_pages(taken, pages.drop_first());
                (rest.0, rest.1 + 1)
            },
        }
    }
}

/// A group listing takes every page up to the first one without a cursor,
/// and holds their names in order: when only the last page lacks a cursor,
/// it takes them all and holds all their names.
pub proof fn lemma_group_listing_takes_every_page(items: Seq<Seq<char>>, pages: Seq<GroupPage>)
    requires
        pages.len() > 0,
        forall|i: int| 0 <= i < pages.len() - 1 ==> (#[trigger] pages[i]).next_token is Some,
        pages.last().next_token is None,
    ensures
        feed_group_pages(items, pages) == (items + all_page_names(pages), pages.len()),
    decreases pages.len(),
{
    let taken = items + page_names(pages[0].names@);
    if pages.len() == 1 {
        assert(pages.drop_first().len() == 0);
        assert(all_page_names(pages) =~= page_names(pages[0].names@));
    } else {
        let rest = pages.drop_first();
        assert forall|i: int| 0 <= i < rest.len() - 1 implies (#[trigger] rest[i]).next_token is Some by {
            assert(rest[i] == pages[i + 1]);
        }
        assert(rest.last() == pages.last());
        lemma_group_listing_takes_every_page(taken, rest);
        assert(taken + all_page_names(rest) =~= items + all_page_names(pages));
    }
}

/// One log stream: its name and when it last received an event (epoch
/// milliseconds).
#[derive(Clone, Debug)]
pub struct StreamInfo {
    pub name: String,
    pub last_ingestion_time: i64,
}

/// One page of log streams, most recently written first, and the cursor of
/// the next page; a page may come without a list.
#[derive(Clone, Debug)]
pub struct StreamPage {
    pub streams: Option<Vec<StreamInfo>>,
    pub next_token: Option<String>,
}

/// Whether a stream received nothing since `since`.
pub open spec fn is_stale(s: StreamInfo, since: usize) -> bool {
    (s.last_ingestion_time as int) < (since as int)
}

/// Index of the first stale stream, or the length when there is none.
pub open spec fn first_stale(ss: Seq<StreamInfo>, since: usize) -> int
    decreases ss.len(),
{
    if ss.len() == 0 {
        0
    } else if is_stale(ss[0], since) {
        0
    } else {
        first_stale(ss.drop_first(), since) + 1
    }
}

/// Names of the given streams.
pub open spec fn stream_names(ss: Seq<StreamInfo>) -> Seq<Seq<char>> {
    ss.map_values(|s: StreamInfo| s.name@)
}

/// Collects the names of the streams written since a point in time, page
/// by page, and stops at the first stream that is older.
pub struct StreamLister {
    pub items: Vec<String>,
    pub next_token: Option<String>,
    pub since: usize,
}

impl StreamLister {
    pub fn new(since: usize) -> (r: Self)
        ensures
            r.items@.len() == 0,
            r.next_token is None,
            r.since == since,
    {
        StreamLister { items: Vec::new(), next_token: None, since }
    }

    /// Takes a response: the names of a page up to its first stale stream
    /// are added; the listing ends at a stale stream, at a page without a
    /// list or without a cursor, and goes on to the next page otherwise. A
    /// throttled call is made again after a pause; any other failure ends
    /// the listing.
    pub fn on_response(&mut self, resp: ListingResponse<StreamPage>) -> (r: ListingAction)
        ensures
            final(self).since == old(self).since,
            match resp {
                ListingResponse::Page(p) => {
                    &&& final(self).next_token == p.next_token
                    &&& match p.streams {
                        None => final(self).items == old(self).items && r == ListingAction::Done,
                        Some(ss) => {
                            let k = first_stale(ss@, old(self).since);
                            &&& texts_of(final(self).items@) == texts_of(old(self).items@) + stream_names(ss@.take(k))
                            &&& r == if k < ss@.len() {
                                ListingAction::Done
                            } else {
                                match p.next_token {
                                    Some(t) => ListingAction::Fetch(Some(t)),
                                    None => ListingAction::Done,
                                }
                            }
                        },
                    }
                },
                ListingResponse::Throttled => {
                    &&& final(self).items == old(self).items
                    &&& final(self).next_token == old(self).next_token
                    &&& r == ListingAction::RetryAfter(THROTTLE_RETRY_DELAY_MS, old(self).next_token)
                },
                ListingResponse::Failed => {
                    &&& final(self).items == old(self).items
                    &&& final(self).next_token == old(self).next_token
                    &&& r == ListingAction::Fail
                },
            },
    {
        match resp {
            ListingResponse::Page(p) => {
                self.next_token = p.next_token.clone();
                match p.streams {
                    None => ListingAction::Done,
                    Some(ss) => {
                        let ghost before = texts_of(self.items@);
                        let ghost k = first_stale(ss@, self.since);
                        let since = self.since;
                        proof {
                            lemma_first_stale(ss@, self.since);
                        }
                        let mut n: usize = 0;
                        let mut stale = false;
                        while n < ss.len() && !stale
                            invariant
                                n <= ss@.len(),
                                since == self.since,
                                forall|j: int| 0 <= j < n ==> !is_stale(#[trigger] ss@[j], since),
                                stale ==> n < ss@.len() && is_stale(ss@[n as int], since),
                            decreases ss@.len() - n + if stale { 0int } else { 1int },
                        {
                            let t = ss[n].last_ingestion_time;
                            if t < 0 || (t as u64) < (since as u64) {
                                stale = true;
                            } else {
                                n = n + 1;
                            }
                        }
                        assert(n as int == k);
                        let mut i: usize = 0;
                        assert(stream_names(ss@.take(0)) =~= Seq::<Seq<char>>::empty());
                        assert(before + Seq::<Seq<char>>::empty() =~= before);
                        while i < n
                            invariant
                                i <= n,
                                n as int == k,
                                0 <= k <= ss@.len(),
                                self.since == old(self).since,
                                self.next_token == p.next_token,
                                texts_of(self.items@) == before + stream_names(ss@.take(i as int)),
                            decreases n - i,
                        {
                            let ghost prev = self.items@;
                            self.items.push(ss[i].name.clone());
                            assert(texts_of(self.items@) =~= texts_of(prev).push(ss@[i as int].name@));
                            assert(stream_names(ss@.take(i as int + 1)) =~= stream_names(ss@.take(i as int)).push(ss@[i as int].name@));
                            i = i + 1;
                        }
                        if n < ss.len() {
                            return ListingAction::Done;
                        }
                        match p.next_token {
                            Some(t) => ListingAction::Fetch(Some(t)),
                            None => ListingAction::Done,
                        }
                    },
                }
            },
            ListingResponse::Throttled => ListingAction::RetryAfter(THROTTLE_RETRY_DELAY_MS, self.next_token.clone()),
            ListingResponse::Failed => ListingAction::Fail,
        }
    }

    /// The names collected so far.
    pub fn into_output(self) -> (r: GetStreamsOutput)
        ensures
            r.items == self.items,
    {
        GetStreamsOutput { items: self.items }
    }
}

proof fn lemma_first_stale(ss: Seq<StreamInfo>, since: usize)
    ensures
        0 <= first_stale(ss, since) <= ss.len(),
        forall|j: int| 0 <= j < first_stale(ss, since) ==> !is_stale(#[trigger] ss[j], since),
        first_stale(ss, since) < ss.len() ==> is_stale(ss[first_stale(ss, since)], since),
    decreases ss.len(),
{
    if ss.len() > 0 && !is_stale(ss[0], since) {
        let rest = ss.drop_first();
        lemma_first_stale(rest, since);
        assert forall|j: int| 0 <= j < first_stale(ss, since) implies !is_stale(#[trigger] ss[j], since) by {
            if j > 0 {
                assert(ss[j] == rest[j - 1]);
            }
        }
        if first_stale(ss, since) < ss.len() {
            assert(ss[first_stale(ss, since)] == rest[first_stale(rest, since)]);
        }
    }
}

/// Names of the streams of all pages, one page after the other.
pub open spec fn all_stream_names(pages: Seq<Seq<StreamInfo>>) -> Seq<Seq<char>>
    decreases pages.len(),
{
    if pages.len() == 0 {
        Seq::empty()
    } else {
        stream_names(pages[0]) + all_stream_names(pages.drop_first())
    }
}

/// Pages of streams handed to a stream listing one by one, as long as it
/// asks for more (each with a list; `tokens[i]` is the cursor of page `i`):
/// the names it holds then, and how many pages it took.
pub open spec fn feed_stream_pages(
    items: Seq<Seq<char>>,
    pages: Seq<Seq<StreamInfo>>,
    tokens: Seq<bool>,
    since: usize,
) -> (Seq<Seq<char>>, nat)
    decreases pages.len(),
{
    if pages.len() == 0 || tokens.len() == 0 {
        (items, 0)
    } else {
        let k = first_stale(pages[0], since);
        let taken = items + stream_names(pages[0].take(k));
        if k < pages[0].len() || !tokens[0] {
            (taken, 1)
        } else {
            let rest = feed_stream_pages(taken, pages.drop_first(), tokens.drop_first(), since);
            (rest.0, rest.1 + 1)
        }
    }
}

/// A stream listing over pages whose streams were all written since the
/// given time takes every page up to the first one without a cursor, and
/// holds all their names in order.
pub proof fn lemma_stream_listing_takes_every_page(
    items: Seq<Seq<char>>,
    pages: Seq<Seq<StreamInfo>>,
    tokens: Seq<bool>,
    since: usize,
)
    requires
        pages.len() > 0,
        tokens.len() == pages.len(),
        forall|i: int| 0 <= i < pages.len() - 1 ==> #[trigger] tokens[i],
        !tokens.last(),
        forall|i: int, j: int|
            0 <= i < pages.len() && 0 <= j < pages[i].len() ==> !is_stale(#[trigger] pages[i][j], since),
    ensures
        feed_stream_pages(items, pages, tokens, since) == (items + all_stream_names(pages), pages.len()),
    decreases pages.len(),
{
    let first = pages[0];
    lemma_first_stale(first, since);
    if first_stale(first, since) < first.len() {
        assert(!is_stale(pages[0][first_stale(first, since)], since));
    }
    assert(first.take(first.len() as int) =~= first);
    let taken = items + stream_names(first);
    if pages.len() == 1 {
        assert(pages.drop_first().len() == 0);
        assert(all_stream_names(pages.drop_first()) =~= Seq::<Seq<char>>::empty());
        assert(all_stream_names(pages) =~= stream_names(first));
    } else {
        let rest = pages.drop_first();
        let trest = tokens.drop_first();
        assert forall|i: int| 0 <= i < rest.len() - 1 implies #[trigger] trest[i] by {
            assert(trest[i] == tokens[i + 1]);
        }
        assert forall|i: int, j: int| 0 <= i < rest.len() && 0 <= j < rest[i].len() implies !is_stale(#[trigger] rest[i][j], since) by {
            assert(rest[i] == pages[i + 1]);
        }
        assert(trest.last() == tokens.last());
        lemma_stream_listing_takes_every_page(taken, rest, trest, since);
        assert(taken + all_stream_names(rest) =~= items + all_stream_names(pages));
    }
}

} // verus!
