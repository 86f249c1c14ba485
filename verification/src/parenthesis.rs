//! The bracket pairs the editor knows.
use vstd::prelude::*;

verus! {

/// An opening bracket: `(`, `{` or `[`.
pub open spec fn is_paren_left_spec(c: char) -> bool {
    c == '(' || c == '{' || c == '['
}

/// A closing bracket: `)`, `}` or `]`.
pub open spec fn is_paren_right_spec(c: char) -> bool {
    c == ')' || c == '}' || c == ']'
}

pub fn is_paren_left(c: char) -> (r: bool)
    ensures
        r == is_paren_left_spec(c),
{
    c == '(' || c == '{' || c == '['
}

pub fn is_paren_right(c: char) -> (r: bool)
    ensures
        r == is_paren_right_spec(c),
{
    c == ')' || c == '}' || c == ']'
}

/// Every bracket the editor knows belongs to a pair, which it gives opening
/// bracket first: `(` `)`, `{` `}` or `[` `]`; the bracket given is one of the
/// two, and nothing else has a pair.
pub proof fn law_paren_pair_of_brackets(c: char)
    ensures
        paren_pair_spec(c) is Some <==> is_paren_left_spec(c) || is_paren_right_spec(c),
        paren_pair_spec(c) matches Some(p) ==> {
            &&& c == p.0 || c == p.1
            &&& is_paren_left_spec(p.0)
            &&& is_paren_right_spec(p.1)
            &&& (p == ('(', ')') || p == ('{', '}') || p == ('[', ']'))
        },
{
}

/// The bracket pair that `c` belongs to, opening bracket first.
pub open spec fn paren_pair_spec(c: char) -> Option<(char, char)> {
    if c == '(' || c == ')' {
        Some(('(', ')'))
    } else if c == '{' || c == '}' {
        Some(('{', '}'))
    } else if c == '[' || c == ']' {
        Some(('[', ']'))
    } else {
        None
    }
}

pub fn paren_pair(c: char) -> (r: Option<(char, char)>)
    ensures
        r == paren_pair_spec(c),
{
    if c == '(' || c == ')' {
        Some(('(', ')'))
    } else if c == '{' || c == '}' {
        Some(('{', '}'))
    } else if c == '[' || c == ']' {
        Some(('[', ']'))
    } else {
        None
    }
}

} // verus!
