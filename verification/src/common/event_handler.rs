//! Key combinations for shortcuts, and mouse buttons.

use vstd::prelude::*;
use crate::common::events::KeyboardEvent;

verus! {

broadcast use vstd::string::group_string_axioms;

/// A key together with the modifiers that must be held with it.
#[derive(Debug, Clone, PartialEq, Eq, Hash)]
pub struct KeyCombo {
    pub key: String,
    pub ctrl: bool,
    pub shift: bool,
    pub alt: bool,
    pub meta: bool,
}

impl KeyCombo {
    /// The key alone, with no modifier.
    pub fn new(key: &str) -> (r: Self)
        ensures
            r.key@ == key@,
            !r.ctrl && !r.shift && !r.alt && !r.meta,
    {
        Self { key: key.to_string(), ctrl: false, shift: false, alt: false, meta: false }
    }

    /// The same combination, with Ctrl.
    pub fn with_ctrl(self) -> (r: Self)
        ensures
            r == (Self { ctrl: true, ..self }),
    {
        let mut s = self;
        s.ctrl = true;
        s
    }

    /// The same combination, with Shift.
    pub fn with_shift(self) -> (r: Self)
        ensures
            r == (Self { shift: true, ..self }),
    {
        let mut s = self;
        s.shift = true;
        s
    }

    /// The same combination, with Alt.
    pub fn with_alt(self) -> (r: Self)
        ensures
            r == (Self { alt: true, ..self }),
    {
        let mut s = self;
        s.alt = true;
        s
    }

    /// The same combination, with Meta (Cmd or Win).
    pub fn with_meta(self) -> (r: Self)
        ensures
            r == (Self { meta: true, ..self }),
    {
        let mut s = self;
        s.meta = true;
        s
    }

    /// Whether an event is this key with exactly these modifiers.
    pub fn matches(&self, event: &KeyboardEvent) -> (r: bool)
        ensures
            r == (self.key@ == event.key@ && self.ctrl == event.ctrl_key && self.shift == event.shift_key
                && self.alt == event.alt_key && self.meta == event.meta_key),
    {
        crate::text::str_eq(self.key.as_str(), event.key.as_str()) && self.ctrl == event.ctrl_key
            && self.shift == event.shift_key && self.alt == event.alt_key && self.meta == event.meta_key
    }
}

/// A mouse button.
#[derive(Debug, Clone, Copy, PartialEq, Eq)]
pub enum MouseButton {
    Left,
    Middle,
    Right,
}

impl MouseButton {
    /// The button of a DOM mouse event's `button` number (0 left, 1 middle,
    /// 2 right); `None` for any other.
    pub fn from_button(button: i16) -> (r: Option<Self>)
        ensures
            button == 0 ==> r == Some(MouseButton::Left),
            button == 1 ==> r == Some(MouseButton::Middle),
            button == 2 ==> r == Some(MouseButton::Right),
            button != 0 && button != 1 && button != 2 ==> r is None,
    {
        match button {
            0 => Some(MouseButton::Left),
            1 => Some(MouseButton::Middle),
            2 => Some(MouseButton::Right),
            _ => None,
        }
    }
}

} // verus!
