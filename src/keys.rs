//! Key events as the widgets read them.

use vstd::prelude::*;

verus! {

/// The key that was pressed.
#[derive(Clone, Copy, Debug, PartialEq, Eq, Structural)]
pub enum KeyCode {
    Backspace,
    Enter,
    Left,
    Right,
    Up,
    Down,
    Home,
    End,
    PageUp,
    PageDown,
    Tab,
    BackTab,
    Delete,
    Insert,
    F(u8),
    Char(char),
    Null,
    Esc,
}

/// The modifier keys held down with it.
#[derive(Clone, Copy, Debug, PartialEq, Eq, Structural)]
pub struct KeyModifiers {
    pub shift: bool,
    pub control: bool,
    pub alt: bool,
}

impl KeyModifiers {
    pub open spec fn is_none(self) -> bool {
        !self.shift && !self.control && !self.alt
    }

    pub open spec fn is_control(self) -> bool {
        !self.shift && self.control && !self.alt
    }

    pub open spec fn is_alt(self) -> bool {
        !self.shift && !self.control && self.alt
    }

    pub open spec fn is_shift(self) -> bool {
        self.shift && !self.control && !self.alt
    }

    /// No modifier.
    pub fn none() -> (r: Self)
        ensures
            r.is_none(),
    {
        KeyModifiers { shift: false, control: false, alt: false }
    }

    /// Control alone.
    pub fn control() -> (r: Self)
        ensures
            r.is_control(),
    {
        KeyModifiers { shift: false, control: true, alt: false }
    }

    /// Alt alone.
    pub fn alt() -> (r: Self)
        ensures
            r.is_alt(),
    {
        KeyModifiers { shift: false, control: false, alt: true }
    }

    /// Shift alone.
    pub fn shift() -> (r: Self)
        ensures
            r.is_shift(),
    {
        KeyModifiers { shift: true, control: false, alt: false }
    }
}

/// One key press.
#[derive(Clone, Copy, Debug, PartialEq, Eq, Structural)]
pub struct KeyEvent {
    pub code: KeyCode,
    pub modifiers: KeyModifiers,
}

impl KeyEvent {
    pub fn new(code: KeyCode, modifiers: KeyModifiers) -> (r: Self)
        ensures
            r.code == code,
            r.modifiers == modifiers,
    {
        KeyEvent { code, modifiers }
    }

    /// Down, or Control-n.
    pub open spec fn is_down(self) -> bool {
        (self.code == KeyCode::Char('n') && self.modifiers.is_control()) || (self.code == KeyCode::Down
            && self.modifiers.is_none())
    }

    /// Up, or Control-p.
    pub open spec fn is_up(self) -> bool {
        (self.code == KeyCode::Char('p') && self.modifiers.is_control()) || (self.code == KeyCode::Up
            && self.modifiers.is_none())
    }

    /// Enter without a modifier.
    pub open spec fn is_plain_enter(self) -> bool {
        self.code == KeyCode::Enter && self.modifiers.is_none()
    }
}

/// Whether a key event is Down or Control-n.
pub fn is_down_key(k: &KeyEvent) -> (r: bool)
    ensures
        r == k.is_down(),
{
    let m = k.modifiers;
    match k.code {
        KeyCode::Char(c) => c == 'n' && !m.shift && m.control && !m.alt,
        KeyCode::Down => !m.shift && !m.control && !m.alt,
        _ => false,
    }
}

/// Whether a key event is Up or Control-p.
pub fn is_up_key(k: &KeyEvent) -> (r: bool)
    ensures
        r == k.is_up(),
{
    let m = k.modifiers;
    match k.code {
        KeyCode::Char(c) => c == 'p' && !m.shift && m.control && !m.alt,
        KeyCode::Up => !m.shift && !m.control && !m.alt,
        _ => false,
    }
}

} // verus!
