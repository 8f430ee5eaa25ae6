//! Input events as plain values, independent of the platform that
//! delivered them.

use vstd::prelude::*;

verus! {

/// The button a pointer event came from.
#[derive(Debug, Clone, Copy, PartialEq, Eq)]
pub enum PointerButton {
    /// The left mouse button, or a primary touch.
    Primary,
    /// The right mouse button.
    Secondary,
    /// The middle mouse button.
    Auxiliary,
    /// No button (touch).
    NoButton,
}

impl PointerButton {
    /// The button of a DOM mouse event's `button` number: 0 is the primary
    /// button, 1 the auxiliary one, 2 the secondary one, anything else none.
    pub fn from_button(button: i16) -> (r: Self)
        ensures
            button == 0 ==> r == PointerButton::Primary,
            button == 1 ==> r == PointerButton::Auxiliary,
            button == 2 ==> r == PointerButton::Secondary,
            button != 0 && button != 1 && button != 2 ==> r == PointerButton::NoButton,
    {
        match button {
            0 => PointerButton::Primary,
            1 => PointerButton::Auxiliary,
            2 => PointerButton::Secondary,
            _ => PointerButton::NoButton,
        }
    }
}

/// A key press: the key's value, its physical code, the modifiers held,
/// and whether it repeats a held key.
#[derive(Debug, Clone, PartialEq, Eq)]
pub struct KeyboardEvent {
    pub key: String,
    pub code: String,
    pub shift_key: bool,
    pub ctrl_key: bool,
    pub alt_key: bool,
    pub meta_key: bool,
    pub repeat: bool,
}

/// Whether the modifiers of an event are exactly the required ones.
pub fn matches_modifier(
    event_shift: bool,
    event_ctrl: bool,
    event_alt: bool,
    event_meta: bool,
    required_shift: bool,
    required_ctrl: bool,
    required_alt: bool,
    required_meta: bool,
) -> (r: bool)
    ensures
        r == (event_shift == required_shift && event_ctrl == required_ctrl && event_alt == required_alt
            && event_meta == required_meta),
{
    event_shift == required_shift && event_ctrl == required_ctrl && event_alt == required_alt
        && event_meta == required_meta
}

} // verus!
