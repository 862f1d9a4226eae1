//! The list of log groups: a pattern narrows what is shown, and a set of
//! selected names survives changes of the pattern.

use crate::keys::{is_down_key, is_up_key, KeyCode, KeyEvent};
use crate::text::{chars_of, match_names, pattern_accepted, pattern_matches, texts_of};
use vstd::prelude::*;

verus! {

/// Most groups that one query may search.
pub const SPECIFIABLE_GROUPS_COUNT: usize = 20;

/// Which row of a list is highlighted.
#[derive(Clone, Copy, Debug, PartialEq, Eq, Structural)]
pub struct ListState {
    selected: Option<usize>,
}

impl ListState {
    pub closed spec fn row(self) -> Option<usize> {
        self.selected
    }

    pub fn new() -> (r: Self)
        ensures
            r.row() is None,
    {
        ListState { selected: None }
    }

    pub fn selected(&self) -> (r: Option<usize>)
        ensures
            r == self.row(),
    {
        self.selected
    }

    pub fn select(&mut self, index: Option<usize>)
        ensures
            final(self).row() == index,
    {
        self.selected = index;
    }
}

/// The names among `items` that the pattern matches, in order.
pub open spec fn matching(items: Seq<String>, pattern: Seq<char>) -> Seq<Seq<char>>
    decreases items.len(),
{
    if items.len() == 0 {
        Seq::empty()
    } else if pattern_matches(pattern, items.last()@) {
        matching(items.drop_last(), pattern).push(items.last()@)
    } else {
        matching(items.drop_last(), pattern)
    }
}

/// The names shown for a pattern: all of them for an empty pattern, those it
/// matches otherwise, none where the pattern is refused.
pub open spec fn shown_names(items: Seq<String>, pattern: Seq<char>) -> Seq<Seq<char>> {
    if pattern.len() == 0 {
        texts_of(items)
    } else if pattern_accepted(pattern) {
        matching(items, pattern)
    } else {
        Seq::empty()
    }
}

/// The available groups, the pattern, the names it shows and the selection.
pub struct GroupList {
    pub state: ListState,
    pub items: Vec<String>,
    pub selected: Vec<String>,
    pub filter: String,
    pub filtered: Vec<String>,
}

/// The names that `names` holds, as a set.
pub open spec fn name_set(names: Seq<String>) -> Set<Seq<char>> {
    texts_of(names).to_set()
}

/// Whether a name is among `names`.
pub fn contains_name(names: &Vec<String>, name: &String) -> (r: Option<usize>)
    ensures
        r is None <==> !texts_of(names@).contains(name@),
        r is Some ==> r->0 < names@.len() && names@[r->0 as int]@ == name@,
{
    let mut i: usize = 0;
    while i < names.len()
        invariant
            i <= names@.len(),
            forall|j: int| 0 <= j < i ==> (#[trigger] names@[j])@ != name@,
        decreases names@.len() - i,
    {
        if names[i] == *name {
            assert(texts_of(names@)[i as int] == name@);
            return Some(i);
        }
        i = i + 1;
    }
    proof {
        if texts_of(names@).contains(name@) {
            let j = choose|j: int| 0 <= j < texts_of(names@).len() && texts_of(names@)[j] == name@;
            assert(names@[j]@ == name@);
        }
    }
    None
}

/// The names of `items` that `pattern` shows.
fn filter_names(items: &Vec<String>, pattern: &String) -> (r: Vec<String>)
    ensures
        texts_of(r@) == shown_names(items@, pattern@),
{
    if pattern.as_str().is_empty() {
        return clone_names(items);
    }
    match match_names(pattern.as_str(), items) {
        None => Vec::new(),
        Some(hits) => {
            let mut out: Vec<String> = Vec::new();
            let mut i: usize = 0;
            assert(items@.take(0) =~= Seq::<String>::empty());
            while i < items.len()
                invariant
                    i <= items@.len(),
                    hits@.len() == items@.len(),
                    forall|j: int| 0 <= j < items@.len() ==> hits@[j] == pattern_matches(pattern@, #[trigger] items@[j]@),
                    texts_of(out@) == matching(items@.take(i as int), pattern@),
                decreases items@.len() - i,
            {
                assert(items@.take(i as int + 1).drop_last() =~= items@.take(i as int));
                if hits[i] {
                    let ghost prev = out@;
                    out.push(items[i].clone());
                    assert(texts_of(out@) =~= texts_of(prev).push(items@[i as int]@));
                }
                i = i + 1;
            }
            assert(items@.take(items@.len() as int) =~= items@);
            out
        },
    }
}

/// A copy of a list of names.
fn clone_names(items: &Vec<String>) -> (r: Vec<String>)
    ensures
        texts_of(r@) == texts_of(items@),
{
    let mut out: Vec<String> = Vec::new();
    let mut i: usize = 0;
    while i < items.len()
        invariant
            i <= items@.len(),
            texts_of(out@) == texts_of(items@).take(i as int),
        decreases items@.len() - i,
    {
        let ghost prev = out@;
        out.push(items[i].clone());
        assert(texts_of(out@) =~= texts_of(prev).push(items@[i as int]@));
        assert(texts_of(items@).take(i as int + 1) =~= texts_of(items@).take(i as int).push(items@[i as int]@));
        i = i + 1;
    }
    assert(texts_of(items@).take(items@.len() as int) =~= texts_of(items@));
    out
}

impl GroupList {
    /// Selected names are held once each, in ascending order.
    pub open spec fn wf(&self) -> bool {
        ascending(texts_of(self.selected@))
    }

    /// The groups `items` under a pattern; with a non-empty pattern and
    /// `default_select`, the first names it shows (up to the most a query
    /// may search) start selected. The first row is highlighted.
    pub fn with_items(items: Vec<String>, filter: String, default_select: bool) -> (r: GroupList)
        ensures
            r.wf(),
            r.items == items,
            r.filter == filter,
            texts_of(r.filtered@) == shown_names(items@, filter@),
            r.state.row() == Some(0usize),
            filter@.len() > 0 && default_select ==> name_set(r.selected@) == shown_names(items@, filter@).take(
                min_len(shown_names(items@, filter@).len() as int, SPECIFIABLE_GROUPS_COUNT as int),
            ).to_set(),
            !(filter@.len() > 0 && default_select) ==> r.selected@.len() == 0,
    {
        let filtered = filter_names(&items, &filter);
        let mut selected: Vec<String> = Vec::new();
        assert(texts_of(selected@) =~= Seq::<Seq<char>>::empty());
        if !filter.as_str().is_empty() && default_select {
            let ghost shown = texts_of(filtered@);
            let k = if filtered.len() < SPECIFIABLE_GROUPS_COUNT { filtered.len() } else { SPECIFIABLE_GROUPS_COUNT };
            let mut i: usize = 0;
            while i < k
                invariant
                    i <= k <= filtered@.len(),
                    shown == texts_of(filtered@),
                    ascending(texts_of(selected@)),
                    texts_of(selected@).to_set() == shown.take(i as int).to_set(),
                decreases k - i,
            {
                let ghost prev = selected@;
                assert(shown.take(i as int + 1) =~= shown.take(i as int).push(shown[i as int]));
                proof {
                    lemma_to_set_push(shown.take(i as int), shown[i as int]);
                }
                if contains_name(&selected, &filtered[i]).is_none() {
                    assert(texts_of(filtered@)[i as int] == filtered@[i as int]@);
                    insert_sorted(&mut selected, filtered[i].clone());
                } else {
                    assert(shown.take(i as int).to_set().contains(shown[i as int]));
                    assert(shown.take(i as int + 1).to_set() =~= shown.take(i as int).to_set());
                }
                i = i + 1;
            }
        }
        let mut state = ListState::new();
        state.select(Some(0));
        GroupList { state, items, selected, filtered, filter }
    }

    /// Shows the names that a new pattern matches; the selection stays.
    pub fn set_filter(&mut self, filter: &str)
        ensures
            final(self).filter@ == filter@,
            texts_of(final(self).filtered@) == shown_names(old(self).items@, filter@),
            final(self).items == old(self).items,
            final(self).selected == old(self).selected,
            final(self).state == old(self).state,
    {
        self.filter = filter.to_owned();
        self.filtered = filter_names(&self.items, &self.filter);
    }

    /// Selects the highlighted name when it is not selected, and the other
    /// way round.
    pub fn toggle_highlighted(&mut self)
        requires
            old(self).wf(),
        ensures
            final(self).wf(),
            final(self).items == old(self).items,
            final(self).filtered == old(self).filtered,
            final(self).filter == old(self).filter,
            final(self).state == old(self).state,
            toggled(*old(self), *final(self)),
    {
        if let Some(index) = self.state.selected() {
            if index < self.filtered.len() {
                let name = self.filtered[index].clone();
                let ghost before = texts_of(self.selected@);
                match contains_name(&self.selected, &name) {
                    Some(j) => {
                        self.selected.remove(j);
                        proof {
                            lemma_ascending_distinct(before);
                            lemma_remove_distinct(before, j as int);
                        }
                        assert(texts_of(self.selected@) =~= before.remove(j as int));
                        assert(ascending(texts_of(self.selected@))) by {
                            assert forall|a: int, b: int| 0 <= a < b < before.remove(j as int).len() implies text_less(
                                #[trigger] before.remove(j as int)[a],
                                #[trigger] before.remove(j as int)[b],
                            ) by {
                                let a2 = if a < j { a } else { a + 1 };
                                let b2 = if b < j { b } else { b + 1 };
                                assert(before.remove(j as int)[a] == before[a2]);
                                assert(before.remove(j as int)[b] == before[b2]);
                            }
                        }
                    },
                    None => {
                        insert_sorted(&mut self.selected, name);
                    },
                }
            }
        }
    }

    /// Enter toggles the highlighted name; Down or Control-n and Up or
    /// Control-p move the highlight.
    pub fn on_key(&mut self, key: KeyEvent)
        requires
            old(self).wf(),
        ensures
            final(self).wf(),
            final(self).items == old(self).items,
            final(self).filtered == old(self).filtered,
            final(self).filter == old(self).filter,
            !key.is_plain_enter() ==> final(self).selected == old(self).selected,
            key.is_plain_enter() ==> final(self).state == old(self).state && toggled(*old(self), *final(self)),
            !key.is_plain_enter() && key.is_down() ==> final(self).state.row() == Some(
                next_row(old(self).state.row(), old(self).filtered@.len()),
            ),
            !key.is_plain_enter() && !key.is_down() && key.is_up() ==> final(self).state.row() == Some(
                previous_row(old(self).state.row(), old(self).filtered@.len()),
            ),
            !key.is_plain_enter() && !key.is_down() && !key.is_up() ==> final(self).state == old(self).state,
    {
        let m = key.modifiers;
        let enter = match key.code {
            KeyCode::Enter => !m.shift && !m.control && !m.alt,
            _ => false,
        };
        if enter {
            self.toggle_highlighted();
        } else if is_down_key(&key) {
            self.next();
        } else if is_up_key(&key) {
            self.previous();
        }
    }

    /// Highlights the next name, wrapping round to the first.
    pub fn next(&mut self)
        ensures
            final(self).state.row() == Some(next_row(old(self).state.row(), old(self).filtered@.len())),
            final(self).items == old(self).items,
            final(self).filtered == old(self).filtered,
            final(self).filter == old(self).filter,
            final(self).selected == old(self).selected,
    {
        let n = self.filtered.len();
        let i = match self.state.selected() {
            Some(i) => if n == 0 || i >= n - 1 { 0 } else { i + 1 },
            None => 0,
        };
        self.state.select(Some(i));
    }

    /// Highlights the previous name, wrapping round to the last.
    pub fn previous(&mut self)
        ensures
            final(self).state.row() == Some(previous_row(old(self).state.row(), old(self).filtered@.len())),
            final(self).items == old(self).items,
            final(self).filtered == old(self).filtered,
            final(self).filter == old(self).filter,
            final(self).selected == old(self).selected,
    {
        let n = self.filtered.len();
        let i = match self.state.selected() {
            Some(i) => if i == 0 { if n == 0 { 0 } else { n - 1 } } else { i - 1 },
            None => 0,
        };
        self.state.select(Some(i));
    }

    /// The selected names, in the order they were selected.
    pub fn selected_names(&self) -> (r: Vec<String>)
        ensures
            texts_of(r@) == texts_of(self.selected@),
    {
        clone_names(&self.selected)
    }
}

/// Whether text `a` comes before text `b`: character codes compared in
/// turn, a proper prefix first (the order of `str`).
pub open spec fn text_less(a: Seq<char>, b: Seq<char>) -> bool
    decreases a.len(),
{
    if a.len() == 0 {
        b.len() > 0
    } else if b.len() == 0 {
        false
    } else if a[0] != b[0] {
        a[0] < b[0]
    } else {
        text_less(a.drop_first(), b.drop_first())
    }
}

/// Texts in strictly ascending order.
pub open spec fn ascending(s: Seq<Seq<char>>) -> bool {
    forall|i: int, j: int| 0 <= i < j < s.len() ==> text_less(#[trigger] s[i], #[trigger] s[j])
}

/// Enter on the list: the highlighted name changes from selected to not
/// selected or the other way round; nothing changes without a highlighted name.
pub open spec fn toggled(old: GroupList, new: GroupList) -> bool {
    match old.state.row() {
        Some(i) => if i < old.filtered@.len() {
            let name = old.filtered@[i as int]@;
            name_set(new.selected@) == if name_set(old.selected@).contains(name) {
                name_set(old.selected@).remove(name)
            } else {
                name_set(old.selected@).insert(name)
            }
        } else {
            new.selected == old.selected
        },
        None => new.selected == old.selected,
    }
}

proof fn lemma_less_irreflexive(a: Seq<char>)
    ensures
        !text_less(a, a),
    decreases a.len(),
{
    if a.len() > 0 {
        lemma_less_irreflexive(a.drop_first());
    }
}

proof fn lemma_less_transitive(a: Seq<char>, b: Seq<char>, c: Seq<char>)
    requires
        text_less(a, b),
        text_less(b, c),
    ensures
        text_less(a, c),
    decreases a.len(),
{
    if a.len() > 0 && b.len() > 0 && c.len() > 0 && a[0] == b[0] && b[0] == c[0] {
        lemma_less_transitive(a.drop_first(), b.drop_first(), c.drop_first());
    }
}

proof fn lemma_less_total(a: Seq<char>, b: Seq<char>)
    requires
        a != b,
    ensures
        text_less(a, b) || text_less(b, a),
    decreases a.len(),
{
    if a.len() == 0 {
        if b.len() == 0 {
            assert(a =~= b);
        }
    } else if b.len() > 0 {
        if a[0] == b[0] {
            if a.drop_first() == b.drop_first() {
                assert(a.drop_first().len() == b.drop_first().len());
                assert(a.len() == b.len());
                assert(a =~= b) by {
                    assert forall|k: int| 0 <= k < a.len() implies a[k] == b[k] by {
                        if k > 0 {
                            assert(a[k] == a.drop_first()[k - 1]);
                            assert(b[k] == b.drop_first()[k - 1]);
                        }
                    }
                }
            }
            lemma_less_total(a.drop_first(), b.drop_first());
        }
    }
}

proof fn lemma_ascending_distinct(s: Seq<Seq<char>>)
    requires
        ascending(s),
    ensures
        s.no_duplicates(),
{
    assert forall|i: int, j: int| 0 <= i < s.len() && 0 <= j < s.len() && i != j implies s[i] != s[j] by {
        if i < j {
            lemma_less_irreflexive(s[i]);
        } else {
            lemma_less_irreflexive(s[j]);
        }
    }
}

/// Whether text `a` comes before text `b`.
pub fn name_less(a: &String, b: &String) -> (r: bool)
    ensures
        r == text_less(a@, b@),
{
    let ca = chars_of(a.as_str());
    let cb = chars_of(b.as_str());
    let mut i: usize = 0;
    assert(a@.skip(0) =~= a@ && b@.skip(0) =~= b@);
    while i < ca.len() && i < cb.len() && ca[i] == cb[i]
        invariant
            ca@ == a@,
            cb@ == b@,
            i <= ca@.len(),
            i <= cb@.len(),
            text_less(a@, b@) == text_less(a@.skip(i as int), b@.skip(i as int)),
        decreases ca@.len() - i,
    {
        assert(a@.skip(i as int).drop_first() =~= a@.skip(i as int + 1));
        assert(b@.skip(i as int).drop_first() =~= b@.skip(i as int + 1));
        i = i + 1;
    }
    if i == ca.len() {
        i < cb.len()
    } else if i == cb.len() {
        false
    } else {
        ca[i] < cb[i]
    }
}

/// Inserts a name that is not yet selected at its place in the order.
fn insert_sorted(sel: &mut Vec<String>, name: String)
    requires
        ascending(texts_of(old(sel)@)),
        !texts_of(old(sel)@).contains(name@),
    ensures
        ascending(texts_of(final(sel)@)),
        texts_of(final(sel)@).to_set() == texts_of(old(sel)@).to_set().insert(name@),
{
    let ghost before = texts_of(sel@);
    let mut p: usize = 0;
    while p < sel.len() && name_less(&sel[p], &name)
        invariant
            p <= sel@.len(),
            before == texts_of(sel@),
            forall|i: int| 0 <= i < p ==> text_less(#[trigger] before[i], name@),
        decreases sel@.len() - p,
    {
        p = p + 1;
    }
    if p < sel.len() {
        assert(before[p as int] != name@) by {
            assert(before.contains(before[p as int]));
        }
        proof {
            lemma_less_total(before[p as int], name@);
        }
    }
    sel.insert(p, name);
    let ghost after = texts_of(sel@);
    assert(after =~= before.insert(p as int, name@));
    assert forall|a: int, b: int| 0 <= a < b < after.len() implies text_less(#[trigger] after[a], #[trigger] after[b]) by {
        if b < p {
        } else if b == p {
        } else if a < p {
            assert(after[b] == before[b - 1]);
            assert(text_less(name@, before[p as int]));
            if b - 1 > p {
                lemma_less_transitive(name@, before[p as int], before[b - 1]);
            }
            lemma_less_transitive(before[a], name@, before[b - 1]);
        } else if a == p {
            assert(after[b] == before[b - 1]);
            if b - 1 > p {
                lemma_less_transitive(name@, before[p as int], before[b - 1]);
            }
        } else {
            assert(after[a] == before[a - 1]);
            assert(after[b] == before[b - 1]);
        }
    }
    assert forall|x: Seq<char>| after.to_set().contains(x) <==> before.to_set().insert(name@).contains(x) by {
        if after.contains(x) {
            let k = choose|k: int| 0 <= k < after.len() && after[k] == x;
            if k < p {
                assert(before[k] == x);
            } else if k > p {
                assert(before[k - 1] == x);
            }
        }
        if before.contains(x) {
            let k = choose|k: int| 0 <= k < before.len() && before[k] == x;
            if k < p {
                assert(after[k] == x);
            } else {
                assert(after[k + 1] == x);
            }
        }
        if x == name@ {
            assert(after[p as int] == x);
        }
    }
    assert(after.to_set() =~= before.to_set().insert(name@));
}

pub open spec fn min_len(a: int, b: int) -> int {
    if a < b { a } else { b }
}

/// The row after `row` in a list of `n`, wrapping round.
pub open spec fn next_row(row: Option<usize>, n: nat) -> usize {
    match row {
        Some(i) => if n == 0 || i >= n - 1 { 0 } else { (i + 1) as usize },
        None => 0,
    }
}

/// The row before `row` in a list of `n`, wrapping round.
pub open spec fn previous_row(row: Option<usize>, n: nat) -> usize {
    match row {
        Some(i) => if i == 0 { if n == 0 { 0 } else { (n - 1) as usize } } else { (i - 1) as usize },
        None => 0,
    }
}

proof fn lemma_to_set_push(s: Seq<Seq<char>>, x: Seq<char>)
    ensures
        s.push(x).to_set() == s.to_set().insert(x),
{
    assert forall|y: Seq<char>| s.push(x).to_set().contains(y) <==> s.to_set().insert(x).contains(y) by {
        if s.push(x).contains(y) && y != x {
            let i = choose|i: int| 0 <= i < s.push(x).len() && s.push(x)[i] == y;
            assert(s[i] == y);
        }
        if s.contains(y) {
            let i = choose|i: int| 0 <= i < s.len() && s[i] == y;
            assert(s.push(x)[i] == y);
        }
        if y == x {
            assert(s.push(x)[s.len() as int] == x);
        }
    }
    assert(s.push(x).to_set() =~= s.to_set().insert(x));
}

proof fn lemma_remove_distinct(s: Seq<Seq<char>>, j: int)
    requires
        s.no_duplicates(),
        0 <= j < s.len(),
    ensures
        s.remove(j).no_duplicates(),
        s.remove(j).to_set() == s.to_set().remove(s[j]),
{
    let r = s.remove(j);
    assert forall|a: int, b: int| 0 <= a < r.len() && 0 <= b < r.len() && a != b implies r[a] != r[b] by {
        let a2 = if a < j { a } else { a + 1 };
        let b2 = if b < j { b } else { b + 1 };
        assert(r[a] == s[a2] && r[b] == s[b2]);
    }
    assert forall|x: Seq<char>| r.to_set().contains(x) <==> s.to_set().remove(s[j]).contains(x) by {
        if r.contains(x) {
            let a = choose|a: int| 0 <= a < r.len() && r[a] == x;
            let a2 = if a < j { a } else { a + 1 };
            assert(s[a2] == x);
            assert(a2 != j);
        }
        if s.contains(x) && x != s[j] {
            let a = choose|a: int| 0 <= a < s.len() && s[a] == x;
            assert(a != j);
            let a2 = if a < j { a } else { a - 1 };
            assert(r[a2] == x);
        }
    }
    assert(r.to_set() =~= s.to_set().remove(s[j]));
}

} // verus!
