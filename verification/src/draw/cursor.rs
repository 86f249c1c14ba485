//! The shape and visibility of the terminal cursor.
use vstd::prelude::*;

use crate::edit_core::Cursor;

verus! {

/// How the terminal draws its cursor.
#[derive(Debug, Clone, Copy, PartialEq, Eq, Structural)]
pub enum CursorShape {
    Block,
    Bar,
    Underline,
}

/// Where the terminal cursor stands, if it is shown at all.
#[derive(Debug, Clone, Copy, PartialEq, Eq, Structural)]
pub enum CursorState {
    Hide,
    Show(Cursor, CursorShape),
}

} // verus!
