//! The one `String` operation that vstd gives no contract for and the
//! editor needs: appending a char.
use vstd::prelude::*;

verus! {

/// Calls `String::push`, which appends `c` to the end of the string.
#[verifier::external_body]
pub fn string_push(s: &mut String, c: char)
    ensures
        final(s)@ == old(s)@.push(c),
{
    s.push(c);
}

} // verus!
