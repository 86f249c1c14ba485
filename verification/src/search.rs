//! Finding a pattern in text: the first match, found by `aho-corasick` on
//! the UTF-8 bytes, and the char index that a byte offset falls in.
use vstd::prelude::*;

use aho_corasick::AhoCorasick;
use vstd::utf8::{encode_scalar, encode_utf8};

verus! {

/// The first offset at or after `i` where `pat` occurs in `hay`.
pub open spec fn first_match_from(hay: Seq<u8>, pat: Seq<u8>, i: nat) -> Option<nat>
    decreases hay.len() + 1 - i,
{
    if i + pat.len() > hay.len() {
        None
    } else if hay.subrange(i as int, (i + pat.len()) as int) == pat {
        Some(i)
    } else {
        first_match_from(hay, pat, i + 1)
    }
}

/// The first offset where `pat` occurs in `hay`.
pub open spec fn first_match(hay: Seq<u8>, pat: Seq<u8>) -> Option<nat> {
    first_match_from(hay, pat, 0)
}

/// Calls `AhoCorasick::new(vec![pattern]).find(haystack)` and gives the start
/// of the match. With one pattern the match found is the leftmost one, so
/// the result is the first byte offset at which the pattern's UTF-8 bytes
/// occur in the haystack's, or `None` when they do not occur.
#[verifier::external_body]
fn ac_find(pattern: &str, haystack: &str) -> (r: Option<usize>)
    requires
        pattern@.len() > 0,
    ensures
        r matches Some(i) ==> first_match(encode_utf8(haystack@), encode_utf8(pattern@)) == Some(i as nat),
        r is None ==> first_match(encode_utf8(haystack@), encode_utf8(pattern@)) is None,
{
    let ac = AhoCorasick::new(vec![pattern]);
    ac.find(haystack).map(|m| m.start())
}

/// How many leading chars of `s` fit, encoded, in `b` bytes: the char index
/// that byte offset `b` falls in.
pub open spec fn chars_within(s: Seq<char>, b: nat) -> nat
    decreases s.len(),
{
    if s.len() == 0 {
        0
    } else {
        let w = encode_scalar(s[0] as u32).len();
        if w <= b {
            1 + chars_within(s.drop_first(), (b - w) as nat)
        } else {
            0
        }
    }
}

/// The length of a char's UTF-8 encoding.
pub fn utf8_len(c: char) -> (w: usize)
    ensures
        w == encode_scalar(c as u32).len(),
{
    let u = c as u32;
    if u <= 0x7f {
        1
    } else if u <= 0x7ff {
        2
    } else if u <= 0xffff {
        proof {
            broadcast use vstd::utf8::char_is_scalar;
            assert(vstd::utf8::is_scalar(c as u32));
        }
        3
    } else {
        4
    }
}

/// The char index that byte offset `b` of `s` falls in.
pub fn char_index_of_byte(s: &str, b: usize) -> (k: usize)
    ensures
        k == chars_within(s@, b as nat),
        k <= s@.len(),
{
    let n = s.unicode_len();
    let mut i: usize = 0;
    let mut rem: usize = b;
    assert(s@.skip(0) =~= s@);
    while i < n
        invariant
            n == s@.len(),
            i <= n,
            chars_within(s@, b as nat) == i + chars_within(s@.skip(i as int), rem as nat),
        decreases n - i,
    {
        let c = s.get_char(i);
        let w = utf8_len(c);
        assert(s@.skip(i as int).drop_first() =~= s@.skip(i + 1));
        assert(s@.skip(i as int)[0] == c);
        if w > rem {
            proof {
                assert(chars_within(s@.skip(i as int), rem as nat) == 0);
            }
            return i;
        }
        rem = rem - w;
        i = i + 1;
    }
    proof {
        if i == n {
            assert(s@.skip(i as int).len() == 0);
        }
    }
    i
}

/// The first match of `pattern` in `haystack`, as a char index.
pub fn find_chars(pattern: &str, haystack: &str) -> (r: Option<usize>)
    requires
        pattern@.len() > 0,
    ensures
        r matches Some(k) ==> first_match(encode_utf8(haystack@), encode_utf8(pattern@)) matches Some(m)
            && k == chars_within(haystack@, m) && k <= haystack@.len(),
        r is None ==> first_match(encode_utf8(haystack@), encode_utf8(pattern@)) is None,
{
    match ac_find(pattern, haystack) {
        Some(m) => Some(char_index_of_byte(haystack, m)),
        None => None,
    }
}


/// `pat` occurs in `hay` at offset `j`.
pub open spec fn occurs_at(hay: Seq<u8>, pat: Seq<u8>, j: nat) -> bool {
    j + pat.len() <= hay.len() && hay.subrange(j as int, (j + pat.len()) as int) == pat
}

/// A match that the search finds is an occurrence of the pattern, and none
/// starts before it.
pub proof fn law_first_match_is_first_occurrence(hay: Seq<u8>, pat: Seq<u8>, i: nat)
    requires
        first_match(hay, pat) == Some(i),
    ensures
        occurs_at(hay, pat, i),
        forall|j: nat| j < i ==> !#[trigger] occurs_at(hay, pat, j),
{
    lemma_first_match_from(hay, pat, 0, i);
}

proof fn lemma_first_match_from(hay: Seq<u8>, pat: Seq<u8>, k: nat, i: nat)
    requires
        first_match_from(hay, pat, k) == Some(i),
    ensures
        k <= i,
        occurs_at(hay, pat, i),
        forall|j: nat| k <= j < i ==> !#[trigger] occurs_at(hay, pat, j),
    decreases hay.len() + 1 - k,
{
    if k + pat.len() > hay.len() {
    } else if hay.subrange(k as int, (k + pat.len()) as int) == pat {
    } else {
        lemma_first_match_from(hay, pat, k + 1, i);
    }
}

/// When the search finds nothing, the pattern occurs nowhere.
pub proof fn law_no_match_no_occurrence(hay: Seq<u8>, pat: Seq<u8>)
    requires
        first_match(hay, pat) is None,
    ensures
        forall|j: nat| !#[trigger] occurs_at(hay, pat, j),
{
    lemma_no_match_from(hay, pat, 0);
}

proof fn lemma_no_match_from(hay: Seq<u8>, pat: Seq<u8>, k: nat)
    requires
        first_match_from(hay, pat, k) is None,
    ensures
        forall|j: nat| k <= j ==> !#[trigger] occurs_at(hay, pat, j),
    decreases hay.len() + 1 - k,
{
    if k + pat.len() > hay.len() {
    } else {
        lemma_no_match_from(hay, pat, k + 1);
    }
}

} // verus!
