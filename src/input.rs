//! A one-line text input: its value, placeholder, cursor and focus, and the
//! editing keys.

use crate::keys::{KeyCode, KeyEvent};
use crate::text::{chars_of, grapheme_clusters, graphemes_of, joined, push_char, texts_of};
use vstd::prelude::*;

verus! {

/// Where the cursor stands: `x` counts characters from the start.
#[derive(Clone, Copy, Debug, PartialEq, Eq, Structural)]
pub struct Position {
    pub x: u16,
    pub y: u16,
}

impl Default for Position {
    fn default() -> (r: Self)
        ensures
            r.x == 0 && r.y == 0,
    {
        Position { x: 0, y: 0 }
    }
}

/// What an editing key makes of a value and a cursor: Control-a goes to the
/// start, Control-e to the end, Right or Control-f and Left or Control-b move
/// by one character, a plain or shifted character is inserted at the
/// cursor, Delete or Control-d removes the character under the cursor and
/// Backspace or Control-h the one before it. Other keys change nothing.
pub open spec fn edited(v: Seq<char>, x: int, key: KeyEvent) -> (Seq<char>, int) {
    let m = key.modifiers;
    let n = v.len() as int;
    let end = if n < u16::MAX as int { n } else { u16::MAX as int };
    match key.code {
        KeyCode::Char(c) if c == 'a' && m.is_control() => (v, 0),
        KeyCode::Char(c) if c == 'e' && m.is_control() => (v, end),
        KeyCode::Char(c) if c == 'f' && m.is_control() => (v, if x >= end { x } else { x + 1 }),
        KeyCode::Right if m.is_none() => (v, if x >= end { x } else { x + 1 }),
        KeyCode::Char(c) if c == 'b' && m.is_control() => (v, if x > 0 { x - 1 } else { 0 }),
        KeyCode::Left if m.is_none() => (v, if x > 0 { x - 1 } else { 0 }),
        KeyCode::Char(c) if m.is_none() || m.is_shift() => {
            let pos = if x < n { x } else { n };
            if pos < u16::MAX as int { (v.insert(pos, c), pos + 1) } else { (v, x) }
        },
        KeyCode::Char(c) if c == 'd' && m.is_control() => (if x < n { v.remove(x) } else { v }, x),
        KeyCode::Delete if m.is_none() => (if x < n { v.remove(x) } else { v }, x),
        KeyCode::Char(c) if c == 'h' && m.is_control() => if x == 0 {
            (v, x)
        } else {
            (if x - 1 < n { v.remove(x - 1) } else { v }, x - 1)
        },
        KeyCode::Backspace if m.is_none() => if x == 0 {
            (v, x)
        } else {
            (if x - 1 < n { v.remove(x - 1) } else { v }, x - 1)
        },
        _ => (v, x),
    }
}

/// The state of a text input.
#[derive(Clone, Debug)]
pub struct InputModel {
    value: String,
    placeholder: String,
    cursor_position: Position,
    focused: bool,
}

/// A string made of the given characters.
fn string_of(cs: &Vec<char>) -> (r: String)
    ensures
        r@ == cs@,
{
    let mut s = String::new();
    let mut i: usize = 0;
    while i < cs.len()
        invariant
            i <= cs@.len(),
            s@ == cs@.take(i as int),
        decreases cs@.len() - i,
    {
        push_char(&mut s, cs[i]);
        assert(s@ =~= cs@.take(i as int + 1));
        i = i + 1;
    }
    assert(cs@.take(cs@.len() as int) =~= cs@);
    s
}

impl InputModel {
    pub closed spec fn value_view(&self) -> Seq<char> {
        self.value@
    }

    pub closed spec fn placeholder_view(&self) -> Seq<char> {
        self.placeholder@
    }

    pub closed spec fn cursor_x(&self) -> int {
        self.cursor_position.x as int
    }

    pub closed spec fn focus_view(&self) -> bool {
        self.focused
    }

    pub fn new() -> (r: Self)
        ensures
            r.value_view().len() == 0,
            r.placeholder_view().len() == 0,
            r.cursor_x() == 0,
            !r.focus_view(),
    {
        InputModel {
            value: String::new(),
            placeholder: String::new(),
            cursor_position: Position::default(),
            focused: false,
        }
    }

    pub fn set_value(self, v: String) -> (r: Self)
        ensures
            r.value_view() == v@,
            r.placeholder_view() == self.placeholder_view(),
            r.cursor_x() == self.cursor_x(),
            r.focus_view() == self.focus_view(),
    {
        InputModel { value: v, ..self }
    }

    pub fn set_placeholder(self, v: String) -> (r: Self)
        ensures
            r.placeholder_view() == v@,
            r.value_view() == self.value_view(),
            r.cursor_x() == self.cursor_x(),
            r.focus_view() == self.focus_view(),
    {
        InputModel { placeholder: v, ..self }
    }

    pub fn value(&self) -> (r: &str)
        ensures
            r@ == self.value_view(),
    {
        self.value.as_str()
    }

    pub fn is_empty(&self) -> (r: bool)
        ensures
            r == (self.value_view().len() == 0),
    {
        self.value.as_str().is_empty()
    }

    /// The first `w` grapheme clusters of the value.
    pub fn clamp_by(&self, w: usize) -> (r: String)
        ensures
            r@ == joined(grapheme_clusters(self.value_view()).take(
                if w < grapheme_clusters(self.value_view()).len() { w as int } else { grapheme_clusters(self.value_view()).len() as int },
            )),
    {
        let gs = graphemes_of(self.value.as_str());
        let ghost cl = grapheme_clusters(self.value@);
        let k = if w < gs.len() { w } else { gs.len() };
        let mut out = String::new();
        let mut i: usize = 0;
        assert(cl.take(0) =~= Seq::<Seq<char>>::empty());
        while i < k
            invariant
                i <= k <= gs@.len(),
                texts_of(gs@) == cl,
                out@ == joined(cl.take(i as int)),
            decreases k - i,
        {
            out.append(gs[i].as_str());
            assert(cl.take(i as int + 1).drop_last() =~= cl.take(i as int));
            assert(texts_of(gs@)[i as int] == gs@[i as int]@);
            i = i + 1;
        }
        out
    }

    pub fn placeholder(&self) -> (r: &str)
        ensures
            r@ == self.placeholder_view(),
    {
        self.placeholder.as_str()
    }

    pub fn cursor(&self) -> (r: Position)
        ensures
            r.x as int == self.cursor_x(),
    {
        self.cursor_position
    }

    pub fn focus(&mut self)
        ensures
            final(self).focus_view(),
            final(self).value_view() == old(self).value_view(),
            final(self).placeholder_view() == old(self).placeholder_view(),
            final(self).cursor_x() == old(self).cursor_x(),
    {
        self.focused = true;
    }

    pub fn is_focused(&self) -> (r: bool)
        ensures
            r == self.focus_view(),
    {
        self.focused
    }

    pub fn blur(&mut self)
        ensures
            !final(self).focus_view(),
            final(self).value_view() == old(self).value_view(),
            final(self).placeholder_view() == old(self).placeholder_view(),
            final(self).cursor_x() == old(self).cursor_x(),
    {
        self.focused = false;
    }

    /// Applies an editing key.
    pub fn on_key(&mut self, key: KeyEvent)
        ensures
            (final(self).value_view(), final(self).cursor_x()) == edited(
                old(self).value_view(),
                old(self).cursor_x(),
                key,
            ),
            final(self).placeholder_view() == old(self).placeholder_view(),
            final(self).focus_view() == old(self).focus_view(),
    {
        let mut cs = chars_of(self.value.as_str());
        let n = cs.len();
        let end: u16 = if n < 65535 { n as u16 } else { 65535 };
        let x = self.cursor_position.x;
        let m = key.modifiers;
        let none = !m.shift && !m.control && !m.alt;
        let ctrl = !m.shift && m.control && !m.alt;
        let shift = m.shift && !m.control && !m.alt;
        let code = key.code;
        if code == KeyCode::Char('a') && ctrl {
            self.cursor_position.x = 0;
        } else if code == KeyCode::Char('e') && ctrl {
            self.cursor_position.x = end;
        } else if (code == KeyCode::Char('f') && ctrl) || (code == KeyCode::Right && none) {
            if x < end {
                self.cursor_position.x = x + 1;
            }
        } else if (code == KeyCode::Char('b') && ctrl) || (code == KeyCode::Left && none) {
            self.cursor_position.x = if x > 0 { x - 1 } else { 0 };
        } else if let KeyCode::Char(c) = code {
            if none || shift {
                let pos: usize = if (x as usize) < n { x as usize } else { n };
                if pos < 65535 {
                    cs.insert(pos, c);
                    self.value = string_of(&cs);
                    self.cursor_position.x = (pos + 1) as u16;
                }
            } else if c == 'd' && ctrl {
                if (x as usize) < n {
                    cs.remove(x as usize);
                    self.value = string_of(&cs);
                }
            } else if c == 'h' && ctrl {
                if x > 0 {
                    if ((x - 1) as usize) < n {
                        cs.remove((x - 1) as usize);
                        self.value = string_of(&cs);
                    }
                    self.cursor_position.x = x - 1;
                }
            }
        } else if code == KeyCode::Delete && none {
            if (x as usize) < n {
                cs.remove(x as usize);
                self.value = string_of(&cs);
            }
        } else if code == KeyCode::Backspace && none {
            if x > 0 {
                if ((x - 1) as usize) < n {
                    cs.remove((x - 1) as usize);
                    self.value = string_of(&cs);
                }
                self.cursor_position.x = x - 1;
            }
        }
    }
}

} // verus!
