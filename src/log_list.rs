//! The list of log records: selection, paging and the layout step that
//! decides which records are drawn.

use crate::compose::{composed, lines_view, StyledSpan};
use crate::keys::{is_down_key, is_up_key, KeyCode, KeyEvent};
use crate::line_builder::LineBuilder;
use crate::viewport::{layout_of, layout_viewport, span_height, target_index, ViewportLayout};
use vstd::prelude::*;

verus! {

/// The text that a record shows: its timestamp, four spaces, its message.
pub open spec fn record_text(timestamp: Seq<char>, log: Seq<char>) -> Seq<char> {
    timestamp + seq![' ', ' ', ' ', ' '] + log
}

/// One record of the list, with the memo of its composed lines.
pub struct LogListItem {
    log: String,
    timestamp: String,
    line_builder: LineBuilder,
}

impl LogListItem {
    /// The text that the record shows.
    pub closed spec fn text_view(&self) -> Seq<char> {
        record_text(self.timestamp@, self.log@)
    }

    pub fn new(timestamp: String, log: String) -> (r: Self)
        ensures
            r.text_view() == record_text(timestamp@, log@),
    {
        LogListItem { log, timestamp, line_builder: LineBuilder::new() }
    }

    pub fn text(&self) -> (r: String)
        ensures
            r@ == self.text_view(),
    {
        let mut t = self.timestamp.clone();
        t.append("    ");
        t.append(self.log.as_str());
        proof {
            reveal_strlit("    ");
        }
        assert(t@ =~= self.text_view());
        t
    }

    /// Number of rows the record takes at `w` columns.
    pub fn height(&mut self, w: u16) -> (r: usize)
        ensures
            r == composed(old(self).text_view(), w as int, Seq::empty()).len(),
            final(self).text_view() == old(self).text_view(),
    {
        let text = self.text();
        let lines = self.line_builder.run_composer(text.as_str(), w, "");
        proof {
            reveal_strlit("");
        }
        assert(""@ =~= Seq::<char>::empty());
        lines.len()
    }

    /// The record's lines at `w` columns with `find_text` highlighted.
    pub fn lines(&mut self, w: u16, find_text: &str) -> (r: Vec<Vec<StyledSpan>>)
        ensures
            lines_view(r@) == composed(old(self).text_view(), w as int, find_text@),
            final(self).text_view() == old(self).text_view(),
    {
        let text = self.text();
        self.line_builder.run_composer(text.as_str(), w, find_text)
    }
}

/// Where the list stands: the first drawn record, the selection, the search
/// term, and what the last layout reported.
#[derive(Clone, Debug)]
pub struct LogListState {
    pub offset: usize,
    pub selected: Option<usize>,
    pub focused: bool,
    pub find_text: String,
    pub end_index: usize,
    pub prev_page_start_index: usize,
}

impl LogListState {
    pub fn new() -> (r: LogListState)
        ensures
            r.offset == 0,
            r.selected is None,
            !r.focused,
            r.find_text@.len() == 0,
            r.end_index == 0,
            r.prev_page_start_index == 0,
    {
        LogListState {
            offset: 0,
            selected: None,
            focused: false,
            prev_page_start_index: 0,
            end_index: 0,
            find_text: String::new(),
        }
    }

    pub fn selected(&self) -> (r: Option<usize>)
        ensures
            r == self.selected,
    {
        self.selected
    }

    /// Selects a record; without a selection the list goes back to its top.
    pub fn select(&mut self, index: Option<usize>)
        ensures
            final(self).selected == index,
            final(self).offset == if index is None { 0 } else { old(self).offset },
            final(self).focused == old(self).focused,
            final(self).find_text == old(self).find_text,
            final(self).end_index == old(self).end_index,
            final(self).prev_page_start_index == old(self).prev_page_start_index,
    {
        self.selected = index;
        if index.is_none() {
            self.offset = 0;
        }
    }
}

/// Heights of the records at `w` columns.
pub open spec fn heights_at(items: Seq<LogListItem>, w: int) -> Seq<usize> {
    Seq::new(items.len(), |i: int| composed(items[i].text_view(), w, Seq::empty()).len() as usize)
}

/// The records with the same texts.
pub open spec fn same_texts(a: Seq<LogListItem>, b: Seq<LogListItem>) -> bool {
    a.len() == b.len() && forall|i: int| 0 <= i < a.len() ==> (#[trigger] a[i]).text_view() == b[i].text_view()
}

/// The records of the list and where it stands.
pub struct LogListModel {
    pub state: LogListState,
    pub items: Vec<LogListItem>,
}

impl LogListModel {
    pub fn new() -> (r: Self)
        ensures
            r.items@.len() == 0,
            r.state.selected == Some(0usize),
            r.state.offset == 0,
            r.state.end_index == 0,
            r.state.prev_page_start_index == 0,
            r.state.find_text@.len() == 0,
    {
        let mut state = LogListState::new();
        state.select(Some(0));
        LogListModel { state, items: Vec::new() }
    }

    pub fn set_find_text(&mut self, t: &str)
        ensures
            final(self).state.find_text@ == t@,
            final(self).state.offset == old(self).state.offset,
            final(self).state.selected == old(self).state.selected,
            final(self).state.end_index == old(self).state.end_index,
            final(self).state.prev_page_start_index == old(self).state.prev_page_start_index,
            final(self).items == old(self).items,
    {
        self.state.find_text = t.to_owned();
    }

    pub fn push(&mut self, item: LogListItem)
        ensures
            final(self).items@ == old(self).items@.push(item),
            final(self).state == old(self).state,
    {
        self.items.push(item);
    }

    /// Drops every record and selects the top.
    pub fn clear(&mut self)
        ensures
            final(self).items@.len() == 0,
            final(self).state.offset == 0,
            final(self).state.selected == Some(0usize),
            final(self).state.find_text == old(self).state.find_text,
            final(self).state.end_index == old(self).state.end_index,
            final(self).state.prev_page_start_index == old(self).state.prev_page_start_index,
    {
        self.items = Vec::new();
        self.state.offset = 0;
        self.state.selected = Some(0);
    }

    /// Moves the selection one record down, if there is one.
    pub fn next_if_exist(&mut self)
        ensures
            final(self).state.selected == match old(self).state.selected {
                Some(i) => if i + 1 < old(self).items@.len() { Some((i + 1) as usize) } else { Some(i) },
                None => None,
            },
            final(self).state.offset == old(self).state.offset,
            final(self).state.end_index == old(self).state.end_index,
            final(self).state.prev_page_start_index == old(self).state.prev_page_start_index,
            final(self).state.find_text == old(self).state.find_text,
            final(self).items == old(self).items,
    {
        if let Some(i) = self.state.selected() {
            if i < self.items.len() && i + 1 < self.items.len() {
                self.state.select(Some(i + 1));
            }
        }
    }

    /// Moves the selection one record up, if there is one.
    pub fn previous_if_exist(&mut self)
        ensures
            final(self).state.selected == match old(self).state.selected {
                Some(i) => if i > 0 { Some((i - 1) as usize) } else { Some(i) },
                None => None,
            },
            final(self).state.offset == old(self).state.offset,
            final(self).state.end_index == old(self).state.end_index,
            final(self).state.prev_page_start_index == old(self).state.prev_page_start_index,
            final(self).state.find_text == old(self).state.find_text,
            final(self).items == old(self).items,
    {
        if let Some(i) = self.state.selected() {
            if i > 0 {
                self.state.select(Some(i - 1));
            }
        }
    }

    /// Page down: the record after the last drawn one becomes the top and
    /// the selection, unless it is the last record or beyond.
    pub fn next_page_if_exist(&mut self)
        ensures
            old(self).state.end_index + 1 < old(self).items@.len() ==> {
                &&& final(self).state.selected == Some(old(self).state.end_index)
                &&& final(self).state.offset == old(self).state.end_index
            },
            !(old(self).state.end_index + 1 < old(self).items@.len()) ==> final(self).state == old(self).state,
            final(self).state.end_index == old(self).state.end_index,
            final(self).state.prev_page_start_index == old(self).state.prev_page_start_index,
            final(self).state.find_text == old(self).state.find_text,
            final(self).items == old(self).items,
    {
        let end = self.state.end_index;
        if end < self.items.len() && end + 1 < self.items.len() {
            self.state.select(Some(end));
            self.state.offset = end;
        }
    }

    /// Page up: the start of the previous page becomes the top and the
    /// selection.
    pub fn previous_page_if_exist(&mut self)
        ensures
            final(self).state.selected == Some(old(self).state.prev_page_start_index),
            final(self).state.offset == old(self).state.prev_page_start_index,
            final(self).state.end_index == old(self).state.end_index,
            final(self).state.prev_page_start_index == old(self).state.prev_page_start_index,
            final(self).state.find_text == old(self).state.find_text,
            final(self).items == old(self).items,
    {
        let p = self.state.prev_page_start_index;
        self.state.select(Some(p));
        self.state.offset = p;
    }

    pub fn update_end_index(&mut self, index: usize)
        ensures
            final(self).state == (LogListState { end_index: index, ..old(self).state }),
            final(self).state.end_index == index,
            final(self).state.offset == old(self).state.offset,
            final(self).state.selected == old(self).state.selected,
            final(self).state.prev_page_start_index == old(self).state.prev_page_start_index,
            final(self).state.find_text == old(self).state.find_text,
            final(self).items == old(self).items,
    {
        self.state.end_index = index;
    }

    pub fn update_prev_page_start_index(&mut self, index: usize)
        ensures
            final(self).state == (LogListState { prev_page_start_index: index, ..old(self).state }),
            final(self).state.prev_page_start_index == index,
            final(self).state.offset == old(self).state.offset,
            final(self).state.selected == old(self).state.selected,
            final(self).state.end_index == old(self).state.end_index,
            final(self).state.find_text == old(self).state.find_text,
            final(self).items == old(self).items,
    {
        self.state.prev_page_start_index = index;
    }

    /// Keys of the list: Down or Control-n, Up or Control-p, PageUp or
    /// Alt-v, PageDown or Control-v.
    pub fn on_key(&mut self, key: KeyEvent)
        ensures
            key.is_down() ==> final(self).state.selected == match old(self).state.selected {
                Some(i) => if i + 1 < old(self).items@.len() { Some((i + 1) as usize) } else { Some(i) },
                None => None,
            },
            key.is_up() ==> final(self).state.selected == match old(self).state.selected {
                Some(i) => if i > 0 { Some((i - 1) as usize) } else { Some(i) },
                None => None,
            },
            is_page_up(key) ==> final(self).state.offset == old(self).state.prev_page_start_index
                && final(self).state.selected == Some(old(self).state.prev_page_start_index),
            is_page_down(key) && old(self).state.end_index + 1 < old(self).items@.len()
                ==> final(self).state.offset == old(self).state.end_index
                && final(self).state.selected == Some(old(self).state.end_index),
            !key.is_down() && !key.is_up() && !is_page_up(key) && !is_page_down(key)
                ==> final(self).state == old(self).state,
            final(self).items == old(self).items,
    {
        let m = key.modifiers;
        if is_down_key(&key) {
            self.next_if_exist();
        } else if is_up_key(&key) {
            self.previous_if_exist();
        } else if match key.code {
            KeyCode::Char(c) => c == 'v' && !m.shift && !m.control && m.alt,
            KeyCode::PageUp => !m.shift && !m.control && !m.alt,
            _ => false,
        } {
            self.previous_page_if_exist();
        } else if match key.code {
            KeyCode::Char(c) => c == 'v' && !m.shift && m.control && !m.alt,
            KeyCode::PageDown => !m.shift && !m.control && !m.alt,
            _ => false,
        } {
            self.next_page_if_exist();
        }
    }

    /// The layout of the list in a window of `width` by `rows`: nothing when
    /// the window or the list is empty (or the heights do not add up in a
    /// machine word), else what the viewport algorithm settles on from the
    /// current offset and selection.
    pub fn layout(&mut self, width: u16, rows: u16) -> (r: Option<ViewportLayout>)
        ensures
            final(self).state == old(self).state,
            same_texts(final(self).items@, old(self).items@),
            (width == 0 || rows == 0 || old(self).items@.len() == 0) ==> r is None,
            r is Some ==> r->0 == layout_of(
                heights_at(old(self).items@, width as int),
                rows as int,
                old(self).state.offset as int,
                old(self).state.selected,
            ),
            r is Some ==> r->0.offset <= target_index(old(self).items@.len() as int, old(self).state.selected)
                < r->0.end <= old(self).items@.len(),
            !(width == 0 || rows == 0 || old(self).items@.len() == 0) && span_height(
                heights_at(old(self).items@, width as int),
                0,
                old(self).items@.len() as int,
            ) <= usize::MAX ==> r is Some,
    {
        if width == 0 || rows == 0 || self.items.len() == 0 {
            return None;
        }
        let ghost items0 = self.items@;
        let ghost hs = heights_at(items0, width as int);
        let n = self.items.len();
        let mut heights: Vec<usize> = Vec::new();
        let mut total: usize = 0;
        let mut fits = true;
        let mut i: usize = 0;
        while i < n
            invariant
                n == self.items@.len(),
                n == items0.len(),
                i <= n,
                same_texts(self.items@, items0),
                hs == heights_at(items0, width as int),
                heights@ == hs.take(i as int),
                fits ==> total as int == span_height(hs, 0, i as int),
                !fits ==> span_height(hs, 0, i as int) > usize::MAX,
                self.state == old(self).state,
            decreases n - i,
        {
            let h = self.items[i].height(width);
            heights.push(h);
            proof {
                assert(heights@ =~= hs.take(i as int + 1));
                assert(span_height(hs, 0, i as int + 1) == span_height(hs, 0, i as int) + hs[i as int]);
            }
            if fits {
                if total > usize::MAX - h {
                    fits = false;
                } else {
                    total = total + h;
                }
            }
            i = i + 1;
        }
        assert(heights@ =~= hs);
        if !fits {
            return None;
        }
        layout_viewport(&heights, rows as usize, self.state.offset, self.state.selected)
    }

    /// Takes over what a layout derived.
    pub fn apply_layout(&mut self, layout: ViewportLayout)
        ensures
            final(self).state.offset == layout.offset,
            final(self).state.end_index == layout.end,
            final(self).state.prev_page_start_index == layout.prev_page_start,
            final(self).state.selected == old(self).state.selected,
            final(self).state.find_text == old(self).state.find_text,
            final(self).items == old(self).items,
    {
        self.state.offset = layout.offset;
        self.state.end_index = layout.end;
        self.state.prev_page_start_index = layout.prev_page_start;
    }
}

/// PageUp, or Alt-v.
pub open spec fn is_page_up(key: KeyEvent) -> bool {
    (key.code == KeyCode::Char('v') && key.modifiers.is_alt()) || (key.code == KeyCode::PageUp
        && key.modifiers.is_none())
}

/// PageDown, or Control-v.
pub open spec fn is_page_down(key: KeyEvent) -> bool {
    (key.code == KeyCode::Char('v') && key.modifiers.is_control()) || (key.code == KeyCode::PageDown
        && key.modifiers.is_none())
}

} // verus!
