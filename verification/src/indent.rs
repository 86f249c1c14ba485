//! How deep the next line is indented.
use vstd::prelude::*;

use crate::parenthesis::{is_paren_left, is_paren_left_spec};

verus! {

/// Total width of the spaces and tabs that start `s`: one per space and
/// `indent_width` per tab.
pub open spec fn leading_width(s: Seq<char>, indent_width: nat) -> nat
    decreases s.len(),
{
    if s.len() == 0 {
        0
    } else if s[0] == ' ' {
        1 + leading_width(s.drop_first(), indent_width)
    } else if s[0] == '\t' {
        indent_width + leading_width(s.drop_first(), indent_width)
    } else {
        0
    }
}

/// The indent level of the line after `line`: the level of its own leading
/// white space, one more when it ends with an opening bracket.
pub open spec fn next_indent_level_spec(line: Seq<char>, indent_width: nat) -> nat {
    leading_width(line, indent_width) / indent_width + if line.len() > 0 && is_paren_left_spec(
        line.last(),
    ) {
        1nat
    } else {
        0nat
    }
}

pub fn next_indent_level(line: &str, indent_width: usize) -> (r: usize)
    requires
        indent_width > 0,
    ensures
        r == next_indent_level_spec(line@, indent_width as nat),
{
    let n = line.unicode_len();
    let mut i: usize = 0;
    // The width so far is q * indent_width + rem, with rem < indent_width.
    let mut q: usize = 0;
    let mut rem: usize = 0;
    assert(line@.skip(0) =~= line@);
    while i < n && (line.get_char(i) == ' ' || line.get_char(i) == '\t')
        invariant
            n == line@.len(),
            i <= n,
            q <= i,
            rem < indent_width,
            forall|j: int| 0 <= j < i ==> line@[j] == ' ' || line@[j] == '\t',
            q * indent_width + rem + leading_width(line@.skip(i as int), indent_width as nat)
                == leading_width(line@, indent_width as nat),
        decreases n - i,
    {
        let c = line.get_char(i);
        assert(line@.skip(i as int).drop_first() =~= line@.skip(i + 1));
        assert(line@.skip(i as int)[0] == c);
        assert((q + 1) * indent_width == q * indent_width + indent_width) by (nonlinear_arith);
        if c == ' ' {
            if rem + 1 == indent_width {
                q = q + 1;
                rem = 0;
            } else {
                rem = rem + 1;
            }
        } else {
            q = q + 1;
        }
        i = i + 1;
    }
    proof {
        if i == n {
            assert(line@.skip(i as int).len() == 0);
        }
        vstd::arithmetic::div_mod::lemma_fundamental_div_mod_converse(
            leading_width(line@, indent_width as nat) as int,
            indent_width as int,
            q as int,
            rem as int,
        );
    }
    if n > 0 && is_paren_left(line.get_char(n - 1)) {
        q + 1
    } else {
        q
    }
}

/// `n` spaces.
pub open spec fn blanks(n: nat) -> Seq<char> {
    Seq::new(n, |i: int| ' ')
}

proof fn lemma_blanks_width(n: nat, t: Seq<char>, w: nat)
    ensures
        leading_width(blanks(n) + t, w) == n + leading_width(t, w),
    decreases n,
{
    if n > 0 {
        assert((blanks(n) + t).drop_first() =~= blanks((n - 1) as nat) + t);
        lemma_blanks_width((n - 1) as nat, t, w);
    } else {
        assert(blanks(n) + t =~= t);
    }
}

/// Each leading space counts one column and each leading tab counts
/// `indent_width` columns: a line whose white space before `t` is `n` spaces
/// and `k` tabs (in any order) is at level `(n + k * indent_width) /
/// indent_width`, one more when the line ends with an opening bracket.
pub proof fn law_next_indent_level_counts_columns(n: nat, t: Seq<char>, w: nat)
    requires
        w > 0,
        t.len() > 0,
        t[0] != ' ' && t[0] != '\t',
    ensures
        next_indent_level_spec(blanks(n) + t, w) == n / w + if is_paren_left_spec(t.last()) {
            1nat
        } else {
            0nat
        },
        next_indent_level_spec(seq!['\t'] + blanks(n) + t, w) == (w + n) / w + if is_paren_left_spec(
            t.last(),
        ) {
            1nat
        } else {
            0nat
        },
        next_indent_level_spec(seq!['\t'] + blanks(n) + t, w) == next_indent_level_spec(
            blanks(w + n) + t,
            w,
        ),
{
    lemma_blanks_width(n, t, w);
    lemma_blanks_width(w + n, t, w);
    let u = seq!['\t'] + blanks(n) + t;
    assert(u.drop_first() =~= blanks(n) + t);
    assert(t[0] != ' ' && t[0] != '\t');
    assert(leading_width(t, w) == 0);
    assert((blanks(n) + t).last() == t.last());
    assert(u.last() == t.last());
    assert((blanks(w + n) + t).last() == t.last());
}

/// How many times `c` occurs in `s`.
pub open spec fn count_of(s: Seq<char>, c: char) -> nat
    decreases s.len(),
{
    if s.len() == 0 {
        0
    } else {
        (if s[0] == c {
            1nat
        } else {
            0nat
        }) + count_of(s.drop_first(), c)
    }
}

proof fn lemma_white_width(ws: Seq<char>, t: Seq<char>, w: nat)
    requires
        forall|i: int| 0 <= i < ws.len() ==> ws[i] == ' ' || ws[i] == '\t',
    ensures
        leading_width(ws + t, w) == count_of(ws, ' ') + w * count_of(ws, '\t') + leading_width(
            t,
            w,
        ),
    decreases ws.len(),
{
    if ws.len() == 0 {
        assert(ws + t =~= t);
        assert(count_of(ws, '\t') == 0);
        assert(w * 0 == 0) by (nonlinear_arith);
    } else {
        let r = ws.drop_first();
        assert((ws + t).drop_first() =~= r + t);
        assert forall|i: int| 0 <= i < r.len() implies r[i] == ' ' || r[i] == '\t' by {
            assert(r[i] == ws[i + 1]);
        }
        lemma_white_width(r, t, w);
        let k = count_of(r, '\t');
        assert((ws + t)[0] == ws[0]);
        assert((ws + t).len() > 0);
        if ws[0] == ' ' {
            assert(count_of(ws, ' ') == 1 + count_of(r, ' '));
            assert(count_of(ws, '\t') == k);
            assert(leading_width(ws + t, w) == 1 + leading_width(r + t, w));
        } else {
            assert(count_of(ws, ' ') == count_of(r, ' '));
            assert(count_of(ws, '\t') == k + 1);
            assert(leading_width(ws + t, w) == w + leading_width(r + t, w));
            assert(w * (k + 1) == w * k + w) by (nonlinear_arith);
        }
    }
}

/// The level of the next line counts the white space that starts a line: one
/// column per space, `indent_width` columns per tab, in any order, divided by
/// `indent_width`; one more when the line ends with an opening bracket.
pub proof fn law_next_indent_level_of_white_space(ws: Seq<char>, t: Seq<char>, w: nat)
    requires
        w > 0,
        forall|i: int| 0 <= i < ws.len() ==> ws[i] == ' ' || ws[i] == '\t',
        t.len() > 0,
        t[0] != ' ' && t[0] != '\t',
    ensures
        next_indent_level_spec(ws + t, w) == (count_of(ws, ' ') + w * count_of(ws, '\t')) / w
            + if is_paren_left_spec(t.last()) {
            1nat
        } else {
            0nat
        },
{
    lemma_white_width(ws, t, w);
    assert(leading_width(t, w) == 0);
    assert((ws + t).last() == t.last());
}

} // verus!
