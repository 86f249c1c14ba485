//! What the word motions do, stated over the positions of the text.
use vstd::prelude::*;

use super::buffer::{char_at_spec, cursor_index, cursor_valid};
use super::model::{line_count, line_len};
use super::{
    b_spec, cursor_le, cursor_lt, dec_spec, dec_while, inc_spec, is_word_char, lemma_cursor_order,
    lemma_dec_spec, lemma_inc_spec, pred_not_word, pred_word, Cursor,
};

verus! {

/// A position on a line's text or just after it (not among the line-end chars
/// that follow).
pub open spec fn on_line_pos(s: Seq<char>, d: Cursor) -> bool {
    d.col <= line_len(s, d.row as nat)
}

/// One step back lands on the last position of a line before `d`.
pub proof fn lemma_dec_greatest(s: Seq<char>, d: Cursor, x: Cursor)
    requires
        s.len() <= usize::MAX,
        dec_spec(s, d) is Some,
        on_line_pos(s, x),
        cursor_lt(x, d),
    ensures
        cursor_le(x, dec_spec(s, d)->0),
{
    lemma_line_fits(s, (d.row - 1) as nat);
}

/// A line's length fits in a `usize`.
proof fn lemma_line_fits(s: Seq<char>, row: nat)
    requires
        s.len() <= usize::MAX,
    ensures
        line_len(s, row) <= usize::MAX,
{
    crate::edit_core::model::lemma_line_len_bounds(s, row);
}

/// One step on lands on the first position of a line after `c`.
pub proof fn lemma_inc_least(s: Seq<char>, c: Cursor, x: Cursor)
    requires
        cursor_valid(s, x),
        on_line_pos(s, x),
        cursor_lt(c, x),
    ensures
        inc_spec(s, c) matches Some(n) && cursor_le(n, x) && on_line_pos(s, n),
{
    crate::edit_core::model::lemma_valid_before_next_line(s, x.row as nat, x.col as nat);
}

/// A step on and a step back come to the same position.
pub proof fn lemma_dec_inc(s: Seq<char>, c: Cursor)
    requires
        s.len() <= usize::MAX,
        on_line_pos(s, c),
        inc_spec(s, c) is Some,
    ensures
        dec_spec(s, inc_spec(s, c)->0) == Some(c),
{
    lemma_line_fits(s, c.row as nat);
    crate::edit_core::model::lemma_nl_count_le_len(s);
    let n = inc_spec(s, c)->0;
    if c.col < line_len(s, c.row as nat) {
        assert(n == Cursor { row: c.row, col: (c.col + 1) as usize });
    } else {
        assert(n == Cursor { row: (c.row + 1) as usize, col: 0 });
        assert(c.col == line_len(s, c.row as nat));
    }
}

/// Stepping back while `p` holds: every position of a line passed over
/// satisfies `p`, and the walk stops where `p` fails or at the start.
pub proof fn lemma_dec_while(s: Seq<char>, c: Cursor, p: spec_fn(Option<char>) -> bool)
    requires
        cursor_valid(s, c),
        s.len() <= usize::MAX,
    ensures
        ({
            let r = dec_while(s, c, p);
            &&& cursor_valid(s, r)
            &&& cursor_le(r, c)
            &&& on_line_pos(s, c) ==> on_line_pos(s, r)
            &&& !p(char_at_spec(s, r)) || dec_spec(s, r) is None
            &&& forall|d: Cursor|
                cursor_lt(r, d) && cursor_le(d, c) && on_line_pos(s, d) ==> #[trigger] p(
                    char_at_spec(s, d),
                )
        }),
    decreases cursor_index(s, c),
{
    if p(char_at_spec(s, c)) {
        match dec_spec(s, c) {
            Some(n) => {
                lemma_dec_spec(s, c);
                lemma_cursor_order(s, n, c);
                lemma_dec_while(s, n, p);
                let r = dec_while(s, n, p);
                assert forall|d: Cursor|
                    cursor_lt(r, d) && cursor_le(d, c) && on_line_pos(s, d) implies #[trigger] p(
                    char_at_spec(s, d),
                ) by {
                    if d != c {
                        lemma_dec_greatest(s, c, d);
                    }
                }
            },
            None => {},
        }
    }
}

/// A word char stands on a line.
proof fn lemma_word_on_line(s: Seq<char>, d: Cursor)
    requires
        is_word_char(char_at_spec(s, d)),
    ensures
        on_line_pos(s, d),
        d.col < line_len(s, d.row as nat),
{
}

/// `b`, when a word char lies before the cursor, goes back to the first char
/// of the last word that starts before it: the result is before the cursor,
/// on a word char that follows no word char, and every word char between it
/// and the cursor follows another word char.
pub proof fn law_b_goes_to_previous_word_start(s: Seq<char>, c: Cursor, w: Cursor)
    requires
        s.len() <= usize::MAX,
        cursor_valid(s, c),
        cursor_valid(s, w),
        cursor_index(s, w) < cursor_index(s, c),
        is_word_char(char_at_spec(s, w)),
    ensures
        ({
            let r = b_spec(s, c);
            &&& cursor_valid(s, r)
            &&& cursor_index(s, r) < cursor_index(s, c)
            &&& is_word_char(char_at_spec(s, r))
            &&& (dec_spec(s, r) matches Some(q) ==> !is_word_char(char_at_spec(s, q)))
            &&& forall|d: Cursor|
                cursor_valid(s, d) && cursor_index(s, r) < cursor_index(s, d) < cursor_index(s, c)
                    && is_word_char(#[trigger] char_at_spec(s, d)) ==> (dec_spec(s, d) matches Some(
                    q,
                ) && is_word_char(char_at_spec(s, q)))
        }),
{
    lemma_cursor_order(s, w, c);
    lemma_word_on_line(s, w);
    let c1 = dec_spec(s, c)->0;
    lemma_dec_spec(s, c);
    lemma_cursor_order(s, c1, c);
    lemma_dec_greatest(s, c, w);
    let c2 = dec_while(s, c1, pred_not_word());
    lemma_dec_while(s, c1, pred_not_word());
    // c2 stands on a word char: else it is the start, and `w` would be passed over.
    if !is_word_char(char_at_spec(s, c2)) {
        assert(pred_not_word()(char_at_spec(s, c2)));
        assert(dec_spec(s, c2) is None);
        assert(c2.row == 0 && c2.col == 0);
        if w != c2 {
            assert(pred_not_word()(char_at_spec(s, w)));
        }
        assert(false);
    }
    lemma_word_on_line(s, c2);
    let c3 = dec_while(s, c2, pred_word());
    lemma_dec_while(s, c2, pred_word());
    lemma_cursor_order(s, c3, c2);
    lemma_cursor_order(s, c2, c1);
    let r = b_spec(s, c);
    if !is_word_char(char_at_spec(s, c3)) {
        assert(c3 != c2);
        lemma_inc_least(s, c3, c2);
        lemma_inc_spec(s, c3);
        lemma_dec_inc(s, c3);
        assert(r == inc_spec(s, c3)->0);
        if r != c2 {
            assert(pred_word()(char_at_spec(s, r)));
        }
    } else {
        assert(r == c3);
        assert(dec_spec(s, c3) is None);
    }
    assert(is_word_char(char_at_spec(s, r)));
    lemma_cursor_order(s, r, c2);
    lemma_cursor_order(s, r, c);
    assert forall|d: Cursor|
        cursor_valid(s, d) && cursor_index(s, r) < cursor_index(s, d) < cursor_index(s, c)
            && is_word_char(#[trigger] char_at_spec(s, d)) implies (dec_spec(s, d) matches Some(q)
        && is_word_char(char_at_spec(s, q))) by {
        lemma_cursor_order(s, r, d);
        lemma_cursor_order(s, d, c);
        lemma_word_on_line(s, d);
        lemma_dec_greatest(s, c, d);
        if cursor_lt(c2, d) {
            assert(pred_not_word()(char_at_spec(s, d)));
            assert(false);
        }
        assert(dec_spec(s, d) is Some);
        let q = dec_spec(s, d)->0;
        lemma_dec_spec(s, d);
        lemma_cursor_order(s, q, d);
        lemma_word_on_line(s, r);
        lemma_dec_greatest(s, d, r);
        if q != r {
            lemma_dec_greatest(s, d, c3);
            assert(cursor_lt(c3, q));
            assert(on_line_pos(s, q));
            assert(pred_word()(char_at_spec(s, q)));
        }
    }
}

} // verus!
