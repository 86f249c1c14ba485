//! Helpers on the chars that end a line.
use vstd::prelude::*;

use crate::edit_core::model::is_line_end_spec;

verus! {

/// The char closes a line: LF, VT, FF, CR, NEL, LS or PS.
pub fn is_line_end(c: char) -> (r: bool)
    ensures
        r == is_line_end_spec(c),
{
    c == '\u{000a}' || c == '\u{000b}' || c == '\u{000c}' || c == '\u{000d}' || c == '\u{0085}'
        || c == '\u{2028}' || c == '\u{2029}'
}

} // verus!
