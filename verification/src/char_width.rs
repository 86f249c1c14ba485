//! Display width of a character on the terminal.
use vstd::prelude::*;

use unicode_width::UnicodeWidthChar;

verus! {

/// The column count that `unicode-width` gives a character (`None` for a
/// control character).
pub uninterp spec fn char_width_spec(c: char) -> Option<usize>;

/// Calls `UnicodeWidthChar::width` on `c`. The result is named by
/// `char_width_spec`; beyond that the contract states what the crate's
/// table lookup shows for every input: printable ASCII is one column wide,
/// the C0 and C1 control characters have no width, and no character is
/// wider than three columns.
#[verifier::external_body]
pub fn char_width(c: char) -> (w: Option<usize>)
    ensures
        w == char_width_spec(c),
        (' ' <= c && c < '\x7f') ==> w == Some(1usize),
        (c < ' ' || ('\x7f' <= c && c < '\u{a0}')) ==> w is None,
        w matches Some(n) ==> n <= 3,
{
    c.width()
}

/// The width used for drawing: control characters take no room.
pub open spec fn draw_width(c: char) -> nat {
    match char_width_spec(c) {
        Some(n) => n as nat,
        None => 0,
    }
}

/// `char_width(c).unwrap_or(0)`.
pub fn width_or_zero(c: char) -> (w: usize)
    ensures
        w == draw_width(c),
        w <= 3,
        (' ' <= c && c < '\x7f') ==> w == 1,
{
    match char_width(c) {
        Some(n) => n,
        None => 0,
    }
}

} // verus!
