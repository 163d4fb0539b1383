//! Which window events the user interface keeps for itself.
//!
//! The user interface says whether it wants the keyboard and whether it
//! wants the mouse. An event that it keeps does not reach the canvas.

use vstd::prelude::*;

verus! {

/// A key, as far as the rule tells keys apart.
#[derive(Clone, Copy, Debug, PartialEq, Eq)]
pub enum Key {
    LShift,
    RShift,
    LControl,
    RControl,
    LAlt,
    RAlt,
    A,
    C,
    V,
    X,
    Y,
    Z,
    Left,
    Right,
    Other,
}

/// A window event, as far as the rule tells events apart.
#[derive(Clone, Copy, Debug, PartialEq, Eq)]
pub enum Input {
    /// A key was pressed or released while the given modifiers were down.
    Key { shift: bool, ctrl: bool, alt: bool, key: Key },
    /// A character was typed.
    Character,
    CursorMoved,
    MouseWheel,
    MouseInput,
    /// Any other event.
    Other,
}

impl Key {
    /// The key is Shift, Control or Alt, on either side.
    pub open spec fn is_modifier(self) -> bool {
        self is LShift || self is RShift || self is LControl || self is RControl || self is LAlt
            || self is RAlt
    }

    /// With Control, the key undoes, redoes, copies, pastes, cuts or selects
    /// everything.
    pub open spec fn is_editing(self) -> bool {
        self is Y || self is Z || self is C || self is V || self is X || self is A
    }

    /// The key moves the cursor along the line.
    pub open spec fn is_horizontal_arrow(self) -> bool {
        self is Left || self is Right
    }
}

/// Whether a key event belongs to text input: typing without Control and
/// Alt, the modifier keys themselves, the editing shortcuts with Control
/// alone, and moving by words with Control and an arrow, with or without
/// Shift.
pub open spec fn is_text_input(shift: bool, ctrl: bool, alt: bool, key: Key) -> bool {
    ||| !ctrl && !alt
    ||| key.is_modifier()
    ||| !shift && ctrl && !alt && key.is_editing()
    ||| ctrl && !alt && key.is_horizontal_arrow()
}

/// Whether the user interface keeps `input`: text input and typed
/// characters when it wants the keyboard, mouse events when it wants the
/// mouse, and nothing else.
pub open spec fn spec_captured(input: Input, want_keyboard: bool, want_mouse: bool) -> bool {
    match input {
        Input::Key { shift, ctrl, alt, key } => want_keyboard && is_text_input(
            shift,
            ctrl,
            alt,
            key,
        ),
        Input::Character => want_keyboard,
        Input::CursorMoved | Input::MouseWheel | Input::MouseInput => want_mouse,
        Input::Other => false,
    }
}

/// Decides whether the user interface keeps `input`.
pub fn captured(input: Input, want_keyboard: bool, want_mouse: bool) -> (r: bool)
    ensures
        r == spec_captured(input, want_keyboard, want_mouse),
{
    match input {
        Input::Key { shift, ctrl, alt, key } => match (shift, ctrl, alt, key) {
            (_, false, false, _)
            | (_, _, _, Key::LShift)
            | (_, _, _, Key::RShift)
            | (_, _, _, Key::LControl)
            | (_, _, _, Key::RControl)
            | (_, _, _, Key::LAlt)
            | (_, _, _, Key::RAlt)
            | (false, true, false, Key::Y)
            | (false, true, false, Key::Z)
            | (false, true, false, Key::C)
            | (false, true, false, Key::V)
            | (false, true, false, Key::X)
            | (false, true, false, Key::A)
            | (_, true, false, Key::Left)
            | (_, true, false, Key::Right) => want_keyboard,
            _ => false,
        },
        Input::Character => want_keyboard,
        Input::CursorMoved => want_mouse,
        Input::MouseWheel => want_mouse,
        Input::MouseInput => want_mouse,
        Input::Other => false,
    }
}

} // verus!
