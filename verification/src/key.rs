//! Key events.

use vstd::prelude::*;

verus! {

/// A key.
#[derive(Clone, Copy, PartialEq, Eq, Structural, Debug)]
pub enum KeyCode {
    Char(char),
    Enter,
    Esc,
    Backspace,
    Tab,
    BackTab,
    Delete,
    Up,
    Down,
    Left,
    Right,
    Home,
    End,
    PageUp,
    PageDown,
    Other,
}

/// The modifier keys that are held down.
#[derive(Clone, Copy, PartialEq, Eq, Structural, Debug)]
pub struct KeyModifiers {
    pub shift: bool,
    pub control: bool,
    pub alt: bool,
    /// Any other modifier key.
    pub other: bool,
}

impl KeyModifiers {
    /// No modifier key.
    pub open spec fn none() -> KeyModifiers {
        KeyModifiers { shift: false, control: false, alt: false, other: false }
    }

    /// The control key alone.
    pub open spec fn control_only() -> KeyModifiers {
        KeyModifiers { control: true, ..KeyModifiers::none() }
    }

    /// The alt key alone.
    pub open spec fn alt_only() -> KeyModifiers {
        KeyModifiers { alt: true, ..KeyModifiers::none() }
    }

    /// Whether no modifier key is held down.
    pub fn is_empty(self) -> (b: bool)
        ensures
            b == (self == KeyModifiers::none()),
    {
        !self.shift && !self.control && !self.alt && !self.other
    }

    /// Whether the alt key alone is held down.
    pub fn is_alt(self) -> (b: bool)
        ensures
            b == (self == KeyModifiers::alt_only()),
    {
        !self.shift && !self.control && self.alt && !self.other
    }

    /// Whether the control key alone is held down.
    pub fn is_control(self) -> (b: bool)
        ensures
            b == (self == KeyModifiers::control_only()),
    {
        !self.shift && self.control && !self.alt && !self.other
    }
}

/// What happened to a key.
#[derive(Clone, Copy, PartialEq, Eq, Structural, Debug)]
pub enum KeyEventKind {
    Press,
    Repeat,
    Release,
}

/// A key that was pressed, repeated or released.
#[derive(Clone, Copy, PartialEq, Eq, Structural, Debug)]
pub struct KeyEvent {
    pub code: KeyCode,
    pub modifiers: KeyModifiers,
    pub kind: KeyEventKind,
}

impl KeyEvent {
    /// Whether the event is the character `c` with the control key held down.
    pub open spec fn is_ctrl(self, c: char) -> bool {
        self.modifiers.control && self.code == KeyCode::Char(c)
    }

    /// Whether the event is Ctrl+C.
    pub fn is_ctrl_c(self) -> (b: bool)
        ensures
            b == self.is_ctrl('c'),
    {
        self.modifiers.control && self.code == KeyCode::Char('c')
    }

    /// Whether the event is Ctrl+G, which opens the external editor.
    pub fn is_ctrl_g(self) -> (b: bool)
        ensures
            b == self.is_ctrl('g'),
    {
        self.modifiers.control && self.code == KeyCode::Char('g')
    }

    /// Whether the event is Ctrl+L.
    pub fn is_ctrl_l(self) -> (b: bool)
        ensures
            b == self.is_ctrl('l'),
    {
        self.modifiers.control && self.code == KeyCode::Char('l')
    }
}

} // verus!
