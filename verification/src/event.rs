//! Input events, as the editor's modes see them.
use vstd::prelude::*;

use crate::edit_core::Cursor;

verus! {

/// A key press.
#[derive(Debug, Clone, Copy, PartialEq, Eq, Structural)]
pub enum Key {
    Char(char),
    Ctrl(char),
    Alt(char),
    Esc,
    Backspace,
    Delete,
    Left,
    Right,
    Up,
    Down,
    /// Shift and Tab.
    BackTab,
    /// Any other key.
    Other,
}

/// A mouse button.
#[derive(Debug, Clone, Copy, PartialEq, Eq, Structural)]
pub enum MouseButton {
    Left,
    Right,
    Middle,
    WheelUp,
    WheelDown,
}

/// A mouse event, with the text position that the screen cell under the
/// pointer shows, if it shows one.
#[derive(Debug, Clone, Copy, PartialEq, Eq, Structural)]
pub enum MouseEvent {
    Press(MouseButton, Option<Cursor>),
    Release,
    Hold(Option<Cursor>),
}

/// An input event.
#[derive(Debug, Clone, Copy, PartialEq, Eq, Structural)]
pub enum Event {
    Key(Key),
    Mouse(MouseEvent),
    /// A byte sequence the terminal could not decode.
    Unsupported,
}

} // verus!
