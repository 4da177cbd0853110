//! Input events: keys with modifiers, and pastes of text.

use vstd::prelude::*;

verus! {

/// The modifier keys held down with a key press.
#[derive(Debug, Clone, Copy, PartialEq, Eq, Structural)]
pub struct Modifiers {
    pub ctrl: bool,
    pub alt: bool,
    pub shift: bool,
    pub sup: bool,
}

impl Modifiers {
    /// No modifiers.
    pub fn none() -> (r: Self)
        ensures
            r == (Modifiers { ctrl: false, alt: false, shift: false, sup: false }),
    {
        Modifiers { ctrl: false, alt: false, shift: false, sup: false }
    }

    /// Control alone.
    pub fn ctrl() -> (r: Self)
        ensures
            r == (Modifiers { ctrl: true, alt: false, shift: false, sup: false }),
    {
        Modifiers { ctrl: true, alt: false, shift: false, sup: false }
    }

    /// Alt alone.
    pub fn alt() -> (r: Self)
        ensures
            r == (Modifiers { ctrl: false, alt: true, shift: false, sup: false }),
    {
        Modifiers { ctrl: false, alt: true, shift: false, sup: false }
    }

    /// Shift alone.
    pub fn shift() -> (r: Self)
        ensures
            r == (Modifiers { ctrl: false, alt: false, shift: true, sup: false }),
    {
        Modifiers { ctrl: false, alt: false, shift: true, sup: false }
    }
}

/// True when no modifier is held.
pub open spec fn mods_none(m: Modifiers) -> bool {
    m == (Modifiers { ctrl: false, alt: false, shift: false, sup: false })
}

/// True when exactly Control is held.
pub open spec fn mods_ctrl(m: Modifiers) -> bool {
    m == (Modifiers { ctrl: true, alt: false, shift: false, sup: false })
}

/// True when exactly Alt is held.
pub open spec fn mods_alt(m: Modifiers) -> bool {
    m == (Modifiers { ctrl: false, alt: true, shift: false, sup: false })
}

/// True when exactly Shift is held.
pub open spec fn mods_shift(m: Modifiers) -> bool {
    m == (Modifiers { ctrl: false, alt: false, shift: true, sup: false })
}

/// A key on the keyboard.
#[derive(Debug, Clone, Copy, PartialEq, Eq, Structural)]
pub enum KeyCode {
    Char(char),
    Tab,
    Enter,
    Backspace,
    UpArrow,
    DownArrow,
    LeftArrow,
    RightArrow,
    Home,
    End,
    Escape,
    Delete,
    Insert,
    PageUp,
    PageDown,
    FunctionKey(u8),
}

/// One key press together with its modifiers.
#[derive(Debug, Clone, Copy, PartialEq, Eq, Structural)]
pub struct KeyEvent {
    pub key: KeyCode,
    pub modifiers: Modifiers,
}

/// One input event from the transport.
#[derive(Debug, Clone)]
pub enum InputEvent {
    Key(KeyEvent),
    Paste(String),
}

/// Mathematical model of an input event.
pub enum EventModel {
    Key(KeyEvent),
    Paste(Seq<char>),
}

impl View for InputEvent {
    type V = EventModel;

    open spec fn view(&self) -> EventModel {
        match self {
            InputEvent::Key(k) => EventModel::Key(*k),
            InputEvent::Paste(s) => EventModel::Paste(s@),
        }
    }
}

} // verus!
