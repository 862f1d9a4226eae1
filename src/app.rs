//! The session coordinator: it owns the query session, the widgets and the
//! focus, turns key presses, ticks and completions into new state, and
//! queues the requests that the worker has to carry out.

use crate::client::{QueryId, SearchResultItem, StartQueryInput};
use crate::duration::{range_of_range_text, range_of_texts, Duration};
use crate::group_list::{ascending, toggled, GroupList, SPECIFIABLE_GROUPS_COUNT};
use crate::input::{edited, InputModel};
use crate::keys::{KeyCode, KeyEvent};
use crate::log_list::{record_text, LogListItem, LogListModel, LogListState};
use crate::text::texts_of;
use std::sync::mpsc::Sender;
use vstd::prelude::*;

verus! {

#[verifier::external_type_specification]
#[verifier::external_body]
#[verifier::reject_recursive_types(T)]
pub struct ExSender<T>(Sender<T>);

/// The widget that takes key input.
#[derive(Clone, Copy, Debug, PartialEq, Eq, Structural)]
pub enum FocusTarget {
    LogFilter,
    Duration,
    GroupFilter,
    Groups,
    Logs,
    FindStringInLogs,
}

/// The focus after Tab.
pub open spec fn next_focus(f: FocusTarget) -> FocusTarget {
    match f {
        FocusTarget::LogFilter => FocusTarget::Duration,
        FocusTarget::Duration => FocusTarget::GroupFilter,
        FocusTarget::GroupFilter => FocusTarget::Groups,
        FocusTarget::Groups => FocusTarget::Logs,
        FocusTarget::Logs => FocusTarget::FindStringInLogs,
        FocusTarget::FindStringInLogs => FocusTarget::LogFilter,
    }
}

/// The focus after Control-Tab.
pub open spec fn prev_focus(f: FocusTarget) -> FocusTarget {
    match f {
        FocusTarget::LogFilter => FocusTarget::FindStringInLogs,
        FocusTarget::Duration => FocusTarget::LogFilter,
        FocusTarget::GroupFilter => FocusTarget::Duration,
        FocusTarget::Groups => FocusTarget::GroupFilter,
        FocusTarget::Logs => FocusTarget::Groups,
        FocusTarget::FindStringInLogs => FocusTarget::Logs,
    }
}

/// Moving the focus forward and then back, or back and then forward,
/// returns to where it was.
pub proof fn lemma_focus_cycle_reversible(f: FocusTarget)
    ensures
        prev_focus(next_focus(f)) == f,
        next_focus(prev_focus(f)) == f,
{
}

/// What passes between the coordinator, the input thread and the worker.
/// Start and poll requests carry the session generation that issued them,
/// and the worker hands it back with the completion.
#[derive(Debug)]
pub enum Message {
    Tick,
    KeyInput(KeyEvent),
    GetQueryResultsRequest(u64, QueryId),
    GetQueryResultsComplete(u64, Vec<SearchResultItem>),
    StartQueryRequest(u64, StartQueryInput),
    StartQueryComplete(u64, QueryId),
    StopQueryRequest(QueryId),
    UpdateLogListEndIndex(usize),
    UpdateLogListPrevPageStartIndex(usize),
}

/// What the program is started with.
#[derive(Clone, Debug)]
pub struct Opt {
    pub since: String,
    pub end: Option<String>,
    pub group_name: Option<String>,
}

/// The sending end of the coordinator's channel to the worker.
#[derive(Debug)]
pub struct Messenger {
    pub tx: Sender<Message>,
}

impl Messenger {
    pub fn new(tx: Sender<Message>) -> (r: Self)
        ensures
            r.tx == tx,
    {
        Messenger { tx }
    }
}

/// The stop request for a query in flight, if there is one.
pub open spec fn stop_requests(query_id: Option<QueryId>) -> Seq<Message> {
    match query_id {
        Some(id) => seq![Message::StopQueryRequest(id)],
        None => Seq::empty(),
    }
}

/// The generation after `g`.
pub open spec fn next_generation(g: u64) -> u64 {
    if g < u64::MAX { (g + 1) as u64 } else { 0 }
}

fn bump_generation(g: u64) -> (r: u64)
    ensures
        r == next_generation(g),
{
    if g < u64::MAX { g + 1 } else { 0 }
}

/// The session was set to start afresh: the query in flight was asked to
/// stop, the records were dropped, and what is still in flight belongs to
/// an older generation.
pub open spec fn restarted(old: App, new: App) -> bool {
    &&& new.generation == next_generation(old.generation)
    &&& new.should_query_restart
    &&& new.query_id is None
    &&& new.logs.items@.len() == 0
    &&& new.logs.state.offset == 0
    &&& new.logs.state.selected == Some(0usize)
    &&& new.logs.state.find_text == old.logs.state.find_text
    &&& new.logs.state.end_index == old.logs.state.end_index
    &&& new.logs.state.prev_page_start_index == old.logs.state.prev_page_start_index
    &&& new.outbox@ == old.outbox@ + stop_requests(old.query_id)
    &&& new == (App {
        generation: new.generation,
        should_query_restart: true,
        query_id: None,
        logs: new.logs,
        outbox: new.outbox,
        ..old
    })
}

/// What a tick does: nothing unless a start is due; when due, the restart
/// request is consumed, and a query starts when one can be started (its
/// request is queued under a new generation); the rest of the state stays.
pub open spec fn ticked(old: App, new: App) -> bool {
    &&& !start_due(old) ==> new == old
    &&& start_due(old) && !can_start(old) ==> new == (App {
        should_query_restart: false,
        too_much_groups_specified: old.group_names.selected@.len() > SPECIFIABLE_GROUPS_COUNT,
        ..old
    })
    &&& start_due(old) && can_start(old) ==> {
        &&& new == (App {
            should_query_restart: false,
            too_much_groups_specified: false,
            query_started: true,
            loading: true,
            generation: next_generation(old.generation),
            outbox: new.outbox,
            ..old
        })
        &&& new.outbox@.len() == old.outbox@.len() + 1
        &&& new.outbox@.take(old.outbox@.len() as int) == old.outbox@
        &&& is_start_request_for(new.outbox@.last(), new)
    }
}

/// The optional text of an optional string.
pub open spec fn string_option(e: Option<String>) -> Option<Seq<char>> {
    match e {
        Some(x) => Some(x@),
        None => None,
    }
}

/// Whether a tick is due to start a query.
pub open spec fn start_due(a: App) -> bool {
    !a.query_started || a.should_query_restart
}

/// Whether a query can be started: some groups (no more than a query may
/// search) are selected and both ends of the time range were read.
pub open spec fn can_start(a: App) -> bool {
    &&& a.group_names.selected@.len() > 0
    &&& a.group_names.selected@.len() <= SPECIFIABLE_GROUPS_COUNT
    &&& a.duration.start_of() is Some
    &&& a.duration.end_of() is Some
}

/// The start request that a state asks for.
pub open spec fn is_start_request_for(m: Message, a: App) -> bool {
    match m {
        Message::StartQueryRequest(g, input) => {
            &&& g == a.generation
            &&& input.start == a.duration.start_of()->0
            &&& input.end == a.duration.end_of()->0
            &&& input.filter@ == a.default_query_input.value_view()
            &&& texts_of(input.groups@) == texts_of(a.group_names.selected@)
            &&& ascending(texts_of(input.groups@))
        },
        _ => false,
    }
}

/// Which input owns the key input under each focus.
pub open spec fn inputs_follow_focus(a: App) -> bool {
    &&& a.default_query_input.focus_view() == (a.focus_state == FocusTarget::LogFilter)
    &&& a.duration_input.focus_view() == (a.focus_state == FocusTarget::Duration)
    &&& a.group_filter_input.focus_view() == (a.focus_state == FocusTarget::GroupFilter)
    &&& a.find_string_input.focus_view() == (a.focus_state == FocusTarget::FindStringInLogs)
}

/// The coordinator's state.
pub struct App {
    pub loading: bool,
    pub focus_state: FocusTarget,
    pub should_quit: bool,
    pub should_query_restart: bool,
    pub too_much_groups_specified: bool,
    pub group_names: GroupList,
    pub logs: LogListModel,
    pub duration: Duration,
    pub query_started: bool,
    pub query_completed: bool,
    pub default_query_input: InputModel,
    pub group_filter_input: InputModel,
    pub find_string_input: InputModel,
    pub duration_input: InputModel,
    pub query_id: Option<QueryId>,
    /// Tags the requests of the current session; completions with another
    /// tag are stale.
    pub generation: u64,
    /// Requests for the worker, oldest first.
    pub outbox: Vec<Message>,
}

impl App {
    /// A query is in flight only while the session started it and it has
    /// not completed; selected group names are distinct.
    pub open spec fn wf(self) -> bool {
        &&& (self.query_id is Some ==> self.query_started && !self.query_completed)
        &&& self.group_names.wf()
    }

    pub fn new(group_names: Vec<String>, opt: Opt) -> (r: App)
        ensures
            r.wf(),
            r.focus_state == FocusTarget::LogFilter,
            inputs_follow_focus(r),
            !r.query_started,
            !r.query_completed,
            !r.loading,
            exists|now: i64| r.duration == #[trigger] range_of_texts(opt.since@, string_option(opt.end), now),
            r.query_id is None,
            r.outbox@.len() == 0,
            r.logs.items@.len() == 0,
            r.default_query_input.value_view().len() == 0,
            r.group_filter_input.value_view() == match opt.group_name {
                Some(g) => g@,
                None => Seq::empty(),
            },
            r.group_names.items == group_names,
            r.group_names.filter@ == r.group_filter_input.value_view(),
            r.duration_input.value_view() == match opt.end {
                Some(e) => opt.since@ + " - "@ + e@,
                None => opt.since@,
            },
            r.default_query_input.placeholder_view() == "Filter your logs"@,
            !r.should_query_restart,
            r.generation == 0,
    {
        let mut default_query_input = InputModel::new().set_placeholder(String::from_str("Filter your logs"));
        default_query_input.focus();
        let group_name_filter = match &opt.group_name {
            Some(g) => g.clone(),
            None => String::new(),
        };
        let group_filter_input = InputModel::new().set_placeholder(String::from_str("Filter log groups")).set_value(
            group_name_filter.clone(),
        );
        let group_names = GroupList::with_items(group_names, group_name_filter, true);
        let find_string_input = InputModel::new().set_placeholder(String::from_str("Find string in logs"));
        let duration = match &opt.end {
            Some(e) => Duration::from_opt(opt.since.as_str(), Some(e.as_str())),
            None => Duration::from_opt(opt.since.as_str(), None),
        };
        let duration_input_value = match &opt.end {
            None => opt.since.clone(),
            Some(e) => {
                let mut v = opt.since.clone();
                v.append(" - ");
                v.append(e.as_str());
                v
            },
        };
        let duration_input = InputModel::new().set_placeholder(String::from_str("duration(default 15m)")).set_value(
            duration_input_value,
        );
        App {
            loading: false,
            focus_state: FocusTarget::LogFilter,
            should_quit: false,
            should_query_restart: false,
            too_much_groups_specified: false,
            group_names,
            logs: LogListModel::new(),
            duration,
            query_id: None,
            generation: 0,
            query_started: false,
            query_completed: false,
            default_query_input,
            duration_input,
            group_filter_input,
            find_string_input,
            outbox: Vec::new(),
        }
    }

    /// Hands the queued requests over, oldest first.
    pub fn take_requests(&mut self) -> (r: Vec<Message>)
        ensures
            r@ == old(self).outbox@,
            final(self).outbox@.len() == 0,
            final(self).generation == old(self).generation,
            final(self).query_id == old(self).query_id,
            final(self).query_started == old(self).query_started,
            final(self).query_completed == old(self).query_completed,
            final(self).should_query_restart == old(self).should_query_restart,
            final(self).group_names == old(self).group_names,
            final(self).duration == old(self).duration,
            final(self).default_query_input == old(self).default_query_input,
            final(self).logs == old(self).logs,
    {
        let mut out: Vec<Message> = Vec::new();
        std::mem::swap(&mut out, &mut self.outbox);
        out
    }

    /// Asks the worker to stop the query in flight, if there is one, and
    /// forgets it.
    pub fn request_stop_query(&mut self)
        ensures
            final(self).outbox@ == old(self).outbox@ + stop_requests(old(self).query_id),
            *final(self) == (App { query_id: None, outbox: final(self).outbox, ..*old(self) }),
            old(self).query_id is None ==> *final(self) == *old(self),
    {
        let ghost before = self.outbox@;
        if let Some(id) = self.query_id.take() {
            self.outbox.push(Message::StopQueryRequest(id));
            assert(self.outbox@ =~= before + stop_requests(old(self).query_id));
        } else {
            assert(self.outbox@ =~= before + stop_requests(old(self).query_id));
        }
    }

    /// Sets the session to start afresh on the next tick.
    fn restart(&mut self)
        ensures
            restarted(*old(self), *final(self)),
    {
        self.should_query_restart = true;
        self.generation = bump_generation(self.generation);
        self.request_stop_query();
        self.logs.clear();
    }

    /// On a tick that is due (no query started yet, or a restart asked
    /// for), starts a query when one can be started.
    pub fn on_tick(&mut self)
        requires
            old(self).wf(),
        ensures
            final(self).wf(),
            ticked(*old(self), *final(self)),
            old(self).group_names.selected@.len() == 0 ==> final(self).outbox == old(self).outbox
                && final(self).query_started == old(self).query_started && final(self).loading == old(
                self).loading && final(self).query_id == old(self).query_id,
    {
        if !self.query_started || self.should_query_restart {
            self.should_query_restart = false;
            let groups = self.group_names.selected_names();
            assert(groups@.len() == texts_of(groups@).len());
            assert(self.group_names.selected@.len() == texts_of(self.group_names.selected@).len());
            if groups.len() > SPECIFIABLE_GROUPS_COUNT {
                self.too_much_groups_specified = true;
                return;
            }
            self.too_much_groups_specified = false;
            if groups.len() > 0 && self.duration.is_valid() {
                let (start, end) = match self.duration {
                    Duration::Duration { start, end } => (start.unwrap(), end.unwrap()),
                };
                self.query_started = true;
                self.loading = true;
                self.generation = bump_generation(self.generation);
                let ghost before = self.outbox@;
                self.outbox.push(
                    Message::StartQueryRequest(
                        self.generation,
                        StartQueryInput {
                            start,
                            end,
                            filter: self.default_query_input.value().to_owned(),
                            groups,
                        },
                    ),
                );
                assert(self.outbox@.take(before.len() as int) =~= before);
            }
        }
    }

    /// Commits a range read from the duration input: a range with both ends
    /// replaces the current one and starts the session afresh; any other
    /// leaves everything as it was.
    pub fn commit_duration(&mut self, d: Duration)
        requires
            old(self).wf(),
        ensures
            final(self).wf(),
            d.start_of() is Some && d.end_of() is Some ==> restarted(
                App { duration: d, ..*old(self) },
                *final(self),
            ),
            !(d.start_of() is Some && d.end_of() is Some) ==> *final(self) == *old(self),
    {
        if d.is_valid() {
            self.duration = d;
            self.restart();
        }
    }

    fn blur_all(&mut self)
        ensures
            !final(self).default_query_input.focus_view(),
            !final(self).duration_input.focus_view(),
            !final(self).group_filter_input.focus_view(),
            !final(self).find_string_input.focus_view(),
            final(self).default_query_input.value_view() == old(self).default_query_input.value_view(),
            final(self).duration_input.value_view() == old(self).duration_input.value_view(),
            final(self).group_filter_input.value_view() == old(self).group_filter_input.value_view(),
            final(self).find_string_input.value_view() == old(self).find_string_input.value_view(),
            final(self).focus_state == old(self).focus_state,
            final(self).outbox == old(self).outbox,
            final(self).query_id == old(self).query_id,
            final(self).query_started == old(self).query_started,
            final(self).query_completed == old(self).query_completed,
            final(self).group_names == old(self).group_names,
            final(self).logs == old(self).logs,
            final(self).should_query_restart == old(self).should_query_restart,
    {
        self.default_query_input.blur();
        self.duration_input.blur();
        self.group_filter_input.blur();
        self.find_string_input.blur();
    }

    /// Moves the focus forward: query filter, duration, group filter,
    /// groups, logs, find string, and round again.
    pub fn focus_next(&mut self)
        ensures
            final(self).focus_state == next_focus(old(self).focus_state),
            inputs_follow_focus(*final(self)),
            final(self).default_query_input.value_view() == old(self).default_query_input.value_view(),
            final(self).duration_input.value_view() == old(self).duration_input.value_view(),
            final(self).group_filter_input.value_view() == old(self).group_filter_input.value_view(),
            final(self).find_string_input.value_view() == old(self).find_string_input.value_view(),
            final(self).outbox == old(self).outbox,
            final(self).query_id == old(self).query_id,
            final(self).query_started == old(self).query_started,
            final(self).query_completed == old(self).query_completed,
            final(self).group_names == old(self).group_names,
            final(self).logs == old(self).logs,
            final(self).should_query_restart == old(self).should_query_restart,
    {
        self.blur_all();
        match self.focus_state {
            FocusTarget::LogFilter => {
                self.duration_input.focus();
                self.focus_state = FocusTarget::Duration;
            },
            FocusTarget::Duration => {
                self.group_filter_input.focus();
                self.focus_state = FocusTarget::GroupFilter;
            },
            FocusTarget::GroupFilter => {
                self.focus_state = FocusTarget::Groups;
            },
            FocusTarget::Groups => self.focus_state = FocusTarget::Logs,
            FocusTarget::Logs => {
                self.find_string_input.focus();
                self.focus_state = FocusTarget::FindStringInLogs;
            },
            FocusTarget::FindStringInLogs => {
                self.default_query_input.focus();
                self.focus_state = FocusTarget::LogFilter;
            },
        }
    }

    /// Moves the focus back, the reverse of `focus_next`.
    pub fn focus_prev(&mut self)
        ensures
            final(self).focus_state == prev_focus(old(self).focus_state),
            inputs_follow_focus(*final(self)),
            final(self).default_query_input.value_view() == old(self).default_query_input.value_view(),
            final(self).duration_input.value_view() == old(self).duration_input.value_view(),
            final(self).group_filter_input.value_view() == old(self).group_filter_input.value_view(),
            final(self).find_string_input.value_view() == old(self).find_string_input.value_view(),
            final(self).outbox == old(self).outbox,
            final(self).query_id == old(self).query_id,
            final(self).query_started == old(self).query_started,
            final(self).query_completed == old(self).query_completed,
            final(self).group_names == old(self).group_names,
            final(self).logs == old(self).logs,
            final(self).should_query_restart == old(self).should_query_restart,
    {
        self.blur_all();
        match self.focus_state {
            FocusTarget::LogFilter => {
                self.find_string_input.focus();
                self.focus_state = FocusTarget::FindStringInLogs;
            },
            FocusTarget::Duration => {
                self.default_query_input.focus();
                self.focus_state = FocusTarget::LogFilter;
            },
            FocusTarget::GroupFilter => {
                self.duration_input.focus();
                self.focus_state = FocusTarget::Duration;
            },
            FocusTarget::Groups => {
                self.group_filter_input.focus();
                self.focus_state = FocusTarget::GroupFilter;
            },
            FocusTarget::Logs => {
                self.focus_state = FocusTarget::Groups;
            },
            FocusTarget::FindStringInLogs => {
                self.focus_state = FocusTarget::Logs;
            },
        }
    }

    /// Keys: Tab and Control-Tab move the focus; Enter commits the query
    /// filter, the duration (only when both ends of its range can be read)
    /// or the highlighted group, and each commit starts the session afresh;
    /// any other key goes to the widget in focus.
    pub fn on_key(&mut self, k: KeyEvent)
        requires
            old(self).wf(),
        ensures
            final(self).wf(),
            is_tab(k) ==> final(self).focus_state == next_focus(old(self).focus_state) && inputs_follow_focus(
                *final(self),
            ) && final(self).outbox == old(self).outbox,
            is_control_tab(k) ==> final(self).focus_state == prev_focus(old(self).focus_state)
                && inputs_follow_focus(*final(self)) && final(self).outbox == old(self).outbox,
            k.is_plain_enter() && old(self).focus_state == FocusTarget::LogFilter ==> restarted(
                *old(self),
                *final(self),
            ),
            k.is_plain_enter() && old(self).focus_state == FocusTarget::Groups ==> {
                &&& toggled(old(self).group_names, final(self).group_names)
                &&& final(self).group_names.state == old(self).group_names.state
                &&& final(self).group_names.filtered == old(self).group_names.filtered
                &&& restarted(App { group_names: final(self).group_names, ..*old(self) }, *final(self))
            },
            k.is_plain_enter() && old(self).focus_state == FocusTarget::Duration ==> exists|now: i64|
                {
                    let d = #[trigger] range_of_range_text(old(self).duration_input.value_view(), now);
                    &&& d.start_of() is Some && d.end_of() is Some ==> restarted(
                        App { duration: d, ..*old(self) },
                        *final(self),
                    )
                    &&& !(d.start_of() is Some && d.end_of() is Some) ==> *final(self) == *old(self)
                },
            k.is_plain_enter() && old(self).focus_state != FocusTarget::LogFilter && old(self).focus_state
                != FocusTarget::Groups && old(self).focus_state != FocusTarget::Duration ==> *final(self)
                == *old(self),
            is_edit_key(k) && old(self).focus_state == FocusTarget::LogFilter ==> {
                &&& (final(self).default_query_input.value_view(), final(self).default_query_input.cursor_x())
                    == edited(
                    old(self).default_query_input.value_view(),
                    old(self).default_query_input.cursor_x(),
                    k,
                )
                &&& final(self).outbox == old(self).outbox
                &&& final(self).should_query_restart == old(self).should_query_restart
            },
            is_edit_key(k) && old(self).focus_state == FocusTarget::GroupFilter ==> {
                &&& final(self).group_names.filter@ == final(self).group_filter_input.value_view()
                &&& final(self).outbox == old(self).outbox
            },
            is_edit_key(k) && old(self).focus_state == FocusTarget::FindStringInLogs ==> {
                &&& final(self).logs.state.find_text@ == final(self).find_string_input.value_view()
                &&& final(self).outbox == old(self).outbox
            },
            is_edit_key(k) && old(self).focus_state == FocusTarget::Duration ==> (
            final(self).duration_input.value_view(),
            final(self).duration_input.cursor_x(),
            ) == edited(old(self).duration_input.value_view(), old(self).duration_input.cursor_x(), k)
                && final(self).duration == old(self).duration,
            is_edit_key(k) && old(self).focus_state == FocusTarget::Groups ==> final(self).group_names.filtered
                == old(self).group_names.filtered && final(self).group_names.items == old(self).group_names.items,
            is_edit_key(k) && old(self).focus_state == FocusTarget::Logs ==> final(self).logs.items
                == old(self).logs.items,
            is_edit_key(k) ==> final(self).outbox == old(self).outbox,
    {
        let m = k.modifiers;
        let none = !m.shift && !m.control && !m.alt;
        let ctrl = !m.shift && m.control && !m.alt;
        if k.code == KeyCode::Tab && none {
            self.focus_next();
        } else if k.code == KeyCode::Tab && ctrl {
            self.focus_prev();
        } else if k.code == KeyCode::Enter && none {
            match self.focus_state {
                FocusTarget::LogFilter => {
                    self.restart();
                },
                FocusTarget::Duration => {
                    let duration = Duration::from_range_text(self.duration_input.value());
                    self.commit_duration(duration);
                },
                FocusTarget::Groups => {
                    self.group_names.on_key(k);
                    self.restart();
                },
                _ => {},
            }
        } else {
            match self.focus_state {
                FocusTarget::LogFilter => self.default_query_input.on_key(k),
                FocusTarget::Duration => self.duration_input.on_key(k),
                FocusTarget::GroupFilter => {
                    self.group_filter_input.on_key(k);
                    self.group_names.set_filter(self.group_filter_input.value());
                },
                FocusTarget::Logs => self.logs.on_key(k),
                FocusTarget::Groups => self.group_names.on_key(k),
                FocusTarget::FindStringInLogs => {
                    self.find_string_input.on_key(k);
                    self.logs.set_find_text(self.find_string_input.value());
                },
            }
        }
    }

    /// Applies a message: records of a complete query are appended and the
    /// session is complete; a started query is polled; a tick may start a
    /// query; layout reports are taken over. A completion from an older
    /// generation is dropped, and a query it started is asked to stop.
    pub fn update(&mut self, message: Message)
        requires
            old(self).wf(),
        ensures
            final(self).wf(),
            match message {
                Message::GetQueryResultsComplete(g, items) => if g != old(self).generation
                    || old(self).query_id is None {
                    *final(self) == *old(self)
                } else {
                    &&& *final(self) == (App {
                        logs: final(self).logs,
                        query_completed: true,
                        loading: false,
                        query_id: None,
                        ..*old(self)
                    })
                    &&& final(self).logs.state == old(self).logs.state
                    &&& final(self).logs.items@.len() == old(self).logs.items@.len() + items@.len()
                    &&& forall|i: int|
                        0 <= i < old(self).logs.items@.len() ==> (#[trigger] final(self).logs.items@[i]).text_view()
                            == old(self).logs.items@[i].text_view()
                    &&& forall|i: int|
                        0 <= i < items@.len() ==> final(self).logs.items@[old(self).logs.items@.len() + i].text_view()
                            == record_text((#[trigger] items@[i]).timestamp@, items@[i].message@)
                    &&& final(self).query_completed
                    &&& !final(self).loading
                    &&& final(self).query_id is None
                    &&& final(self).outbox == old(self).outbox
                },
                Message::StartQueryComplete(g, id) => if g != old(self).generation {
                    &&& *final(self) == (App { outbox: final(self).outbox, ..*old(self) })
                    &&& final(self).outbox@ == old(self).outbox@.push(Message::StopQueryRequest(id))
                } else {
                    &&& *final(self) == (App {
                        query_id: Some(id),
                        query_started: true,
                        query_completed: false,
                        outbox: final(self).outbox,
                        ..*old(self)
                    })
                    &&& final(self).outbox@.len() == old(self).outbox@.len() + 1
                    &&& final(self).outbox@.take(old(self).outbox@.len() as int) == old(self).outbox@
                    &&& match final(self).outbox@.last() {
                        Message::GetQueryResultsRequest(h, q) => h == g && q@ == id@,
                        _ => false,
                    }
                },
                Message::Tick => ticked(*old(self), *final(self)),
                Message::UpdateLogListEndIndex(i) => {
                    &&& *final(self) == (App { logs: final(self).logs, ..*old(self) })
                    &&& final(self).logs.items == old(self).logs.items
                    &&& final(self).logs.state == (LogListState { end_index: i, ..old(self).logs.state })
                },
                Message::UpdateLogListPrevPageStartIndex(i) => {
                    &&& *final(self) == (App { logs: final(self).logs, ..*old(self) })
                    &&& final(self).logs.items == old(self).logs.items
                    &&& final(self).logs.state == (LogListState { prev_page_start_index: i, ..old(self).logs.state })
                },
                _ => *final(self) == *old(self),
            },
    {
        match message {
            Message::GetQueryResultsComplete(g, items) => {
                if g != self.generation || self.query_id.is_none() {
                    return;
                }
                let ghost start_items = self.logs.items@;
                let mut i: usize = 0;
                while i < items.len()
                    invariant
                        i <= items@.len(),
                        self.logs.items@.len() == start_items.len() + i,
                        forall|j: int|
                            0 <= j < start_items.len() ==> (#[trigger] self.logs.items@[j]).text_view()
                                == start_items[j].text_view(),
                        forall|j: int|
                            0 <= j < i ==> self.logs.items@[start_items.len() + j].text_view() == record_text(
                                (#[trigger] items@[j]).timestamp@,
                                items@[j].message@,
                            ),
                        self.wf(),
                        *self == (App { logs: self.logs, ..*old(self) }),
                        self.logs.state == old(self).logs.state,
                    decreases items@.len() - i,
                {
                    let item = LogListItem::new(items[i].timestamp.clone(), items[i].message.clone());
                    self.logs.push(item);
                    i = i + 1;
                }
                self.query_completed = true;
                self.loading = false;
                self.query_id = None;
            },
            Message::StartQueryComplete(g, query_id) => {
                if g != self.generation {
                    self.outbox.push(Message::StopQueryRequest(query_id));
                    return;
                }
                let poll = query_id.duplicate();
                self.query_id = Some(query_id);
                self.query_started = true;
                let ghost before = self.outbox@;
                self.outbox.push(Message::GetQueryResultsRequest(g, poll));
                assert(self.outbox@.take(before.len() as int) =~= before);
                self.query_completed = false;
            },
            Message::Tick => {
                self.on_tick();
            },
            Message::UpdateLogListEndIndex(i) => {
                self.logs.update_end_index(i);
            },
            Message::UpdateLogListPrevPageStartIndex(i) => {
                self.logs.update_prev_page_start_index(i);
            },
            _ => {},
        }
    }
}

/// Tab without a modifier.
pub open spec fn is_tab(k: KeyEvent) -> bool {
    k.code == KeyCode::Tab && k.modifiers.is_none()
}

/// Control-Tab.
pub open spec fn is_control_tab(k: KeyEvent) -> bool {
    k.code == KeyCode::Tab && k.modifiers.is_control()
}

/// A key that goes to the widget in focus.
pub open spec fn is_edit_key(k: KeyEvent) -> bool {
    !is_tab(k) && !is_control_tab(k) && !k.is_plain_enter()
}

} // verus!
