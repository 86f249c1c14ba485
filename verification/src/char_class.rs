//! Classes of chars that the editor's motions and keys tell apart.
use vstd::prelude::*;

verus! {

/// An ASCII letter or digit.
pub open spec fn is_ascii_alphanumeric_spec(c: char) -> bool {
    ('a' <= c && c <= 'z') || ('A' <= c && c <= 'Z') || ('0' <= c && c <= '9')
}

/// What `char::is_alphanumeric` answers outside ASCII (Unicode's
/// alphabetic or numeric classes).
pub uninterp spec fn is_non_ascii_alphanumeric(c: char) -> bool;

/// What `char::is_alphanumeric` answers: in ASCII the letters and digits.
pub open spec fn is_alphanumeric_spec(c: char) -> bool {
    if (c as u32) < 0x80 {
        is_ascii_alphanumeric_spec(c)
    } else {
        is_non_ascii_alphanumeric(c)
    }
}

/// `char::is_alphanumeric`: in ASCII exactly the letters and digits (the
/// alphabetic and numeric classes of Unicode hold no other ASCII char).
#[verifier::external_body]
pub(crate) fn is_alphanumeric(c: char) -> (r: bool)
    ensures
        r == is_alphanumeric_spec(c),
        (c as u32) < 0x80 ==> r == is_ascii_alphanumeric_spec(c),
        (c as u32) >= 0x80 ==> r == is_non_ascii_alphanumeric(c),
{
    c.is_alphanumeric()
}

/// Unicode's White_Space property, which `char::is_whitespace` tests.
pub open spec fn is_whitespace_spec(c: char) -> bool {
    let v = c as u32;
    (0x09 <= v && v <= 0x0d) || v == 0x20 || v == 0x85 || v == 0xa0 || v == 0x1680 || (0x2000 <= v && v
        <= 0x200a) || v == 0x2028 || v == 0x2029 || v == 0x202f || v == 0x205f || v == 0x3000
}

/// Same answer as `char::is_whitespace`.
pub fn is_whitespace(c: char) -> (r: bool)
    ensures
        r == is_whitespace_spec(c),
{
    let v = c as u32;
    (0x09 <= v && v <= 0x0d) || v == 0x20 || v == 0x85 || v == 0xa0 || v == 0x1680 || (0x2000 <= v && v
        <= 0x200a) || v == 0x2028 || v == 0x2029 || v == 0x202f || v == 0x205f || v == 0x3000
}

/// Unicode's control chars (general category Cc): U+0000 to U+001F and
/// U+007F to U+009F.
pub open spec fn is_control_spec(c: char) -> bool {
    (c as u32) <= 0x1f || (0x7f <= (c as u32) && (c as u32) <= 0x9f)
}

/// Same answer as `char::is_control`.
pub fn is_control(c: char) -> (r: bool)
    ensures
        r == is_control_spec(c),
{
    let v = c as u32;
    v <= 0x1f || (0x7f <= v && v <= 0x9f)
}

/// The decimal digit that `c` is, as `char::to_digit(10)` gives it.
pub open spec fn decimal_digit_spec(c: char) -> Option<u32> {
    if '0' <= c && c <= '9' {
        Some(((c as u32) - ('0' as u32)) as u32)
    } else {
        None
    }
}

/// Same answer as `char::to_digit(10)`.
pub fn decimal_digit(c: char) -> (r: Option<u32>)
    ensures
        r == decimal_digit_spec(c),
{
    if '0' <= c && c <= '9' {
        Some((c as u32) - ('0' as u32))
    } else {
        None
    }
}

} // verus!
