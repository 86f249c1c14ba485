//! What `n` does, stated over the chars of the text: it moves on from the
//! cursor to the next occurrence of the pattern, wrapping round to the start.
use vstd::prelude::*;

use crate::edit_core::buffer::{cursor_index, cursor_valid};
use crate::edit_core::model::{
    is_line_end_spec, lemma_line_len_bounds, lemma_line_start_end, line_count, line_len,
    line_start, trim_end_pos,
};
use crate::edit_core::{inc_spec, lemma_inc_spec, Cursor};
use crate::mode::search_forward;
use crate::search::{
    chars_within, first_match, law_first_match_is_first_occurrence, law_no_match_no_occurrence,
    occurs_at,
};
use vstd::utf8::{
    encode_scalar, encode_utf8, has_width_1_encoding, has_width_2_encoding, has_width_3_encoding,
    has_width_4_encoding, is_continuation_byte,
};

verus! {

/// `pat` occurs in `s` at char index `j`.
pub open spec fn occurs_in(s: Seq<char>, pat: Seq<char>, j: int) -> bool {
    &&& 0 <= j
    &&& j + pat.len() <= s.len()
    &&& s.subrange(j, j + pat.len()) == pat
}

proof fn lemma_encode_concat(a: Seq<char>, b: Seq<char>)
    ensures
        encode_utf8(a + b) == encode_utf8(a) + encode_utf8(b),
    decreases a.len(),
{
    if a.len() == 0 {
        assert(a + b =~= b);
    } else {
        assert((a + b).drop_first() =~= a.drop_first() + b);
        lemma_encode_concat(a.drop_first(), b);
    }
}

/// An occurrence of the chars is an occurrence of their bytes.
proof fn lemma_occurs_bytes(t: Seq<char>, pat: Seq<char>, j: int)
    requires
        occurs_in(t, pat, j),
    ensures
        occurs_at(encode_utf8(t), encode_utf8(pat), encode_utf8(t.take(j)).len()),
{
    let a = t.take(j);
    let z = t.skip(j + pat.len());
    assert(t =~= a + pat + z);
    lemma_encode_concat(a + pat, z);
    lemma_encode_concat(a, pat);
    let e = encode_utf8(t);
    let b = encode_utf8(a).len();
    assert(e.subrange(b as int, (b + encode_utf8(pat).len()) as int) =~= encode_utf8(pat));
}

/// A byte offset within the first `j` chars' bytes falls in one of them.
proof fn lemma_chars_within_le(t: Seq<char>, m: nat, j: int)
    requires
        0 <= j <= t.len(),
        m <= encode_utf8(t.take(j)).len(),
    ensures
        chars_within(t, m) <= j,
    decreases t.len(),
{
    if t.len() > 0 {
        let w = encode_scalar(t[0] as u32).len();
        assert(w >= 1);
        if j == 0 {
            assert(t.take(0) =~= Seq::<char>::empty());
        } else {
            let u = t.take(j);
            assert(u[0] == t[0]);
            assert(u.drop_first() =~= t.drop_first().take(j - 1));
            if w <= m {
                lemma_chars_within_le(t.drop_first(), (m - w) as nat, j - 1);
            }
        }
    }
}

/// When the pattern occurs at `j`, the search finds a match, no later than
/// `j` (counted in chars).
proof fn lemma_found_by_j(t: Seq<char>, pat: Seq<char>, j: int)
    requires
        occurs_in(t, pat, j),
    ensures
        first_match(encode_utf8(t), encode_utf8(pat)) matches Some(m) && chars_within(t, m) <= j,
{
    lemma_occurs_bytes(t, pat, j);
    let b = encode_utf8(t.take(j)).len();
    match first_match(encode_utf8(t), encode_utf8(pat)) {
        Some(m) => {
            law_first_match_is_first_occurrence(encode_utf8(t), encode_utf8(pat), m);
            assert(m <= b);
            lemma_chars_within_le(t, m, j);
        },
        None => {
            law_no_match_no_occurrence(encode_utf8(t), encode_utf8(pat));
            assert(occurs_at(encode_utf8(t), encode_utf8(pat), b));
        },
    }
}

proof fn lemma_trim_tail(s: Seq<char>, start: int, end: int, x: int)
    requires
        trim_end_pos(s, start, end) <= x < end,
    ensures
        is_line_end_spec(s[x]),
    decreases end - start,
{
    if end <= start {
    } else if is_line_end_spec(s[end - 1]) {
        if x < end - 1 {
            lemma_trim_tail(s, start, end - 1, x);
        }
    } else {
    }
}

/// The chars that one step on from the cursor passes over, past the one at
/// the cursor, are line-end chars.
proof fn lemma_step_passes_line_ends(s: Seq<char>, cur: Cursor, x: int)
    requires
        s.len() <= usize::MAX,
        cursor_valid(s, cur),
        cursor_index(s, cur) < x < s.len(),
        inc_spec(s, cur) matches Some(n) ==> x < cursor_index(s, n),
    ensures
        is_line_end_spec(s[x]),
{
    let row = cur.row as nat;
    lemma_line_len_bounds(s, row);
    crate::edit_core::model::lemma_nl_count_le_len(s);
    if cur.col < line_len(s, row) {
    } else {
        if row + 1 >= line_count(s) {
            lemma_line_start_end(s);
        }
        lemma_trim_tail(s, line_start(s, row) as int, line_start(s, row + 1) as int, x);
    }
}

proof fn lemma_continuation(z: u32)
    ensures
        is_continuation_byte((0x80u8 | (z & 0x3F) as u8)),
{
    assert(0x80 <= (0x80u8 | (z & 0x3F) as u8) <= 0xBF) by (bit_vector);
}

/// The bytes of one char: a leading byte that tells their number, then
/// continuation bytes.
proof fn lemma_scalar_bytes(x: char)
    ensures
        ({
            let e = encode_scalar(x as u32);
            &&& 1 <= e.len() <= 4
            &&& !is_continuation_byte(e[0])
            &&& forall|i: int| 1 <= i < e.len() ==> is_continuation_byte(#[trigger] e[i])
            &&& (e.len() == 1 <==> e[0] <= 0x7F)
            &&& (e.len() == 2 <==> 0xC0 <= e[0] <= 0xDF)
            &&& (e.len() == 3 <==> 0xE0 <= e[0] <= 0xEF)
            &&& (e.len() == 4 <==> 0xF0 <= e[0] <= 0xF7)
        }),
{
    broadcast use vstd::utf8::char_is_scalar;

    let v = x as u32;
    let e = encode_scalar(v);
    lemma_continuation(v);
    lemma_continuation(v >> 6);
    lemma_continuation(v >> 12);
    if has_width_1_encoding(v) {
        assert((v & 0x7F) as u8 <= 0x7F) by (bit_vector);
    } else if has_width_2_encoding(v) {
        assert(0xC0 <= (0xC0u8 | ((v >> 6) & 0x1F) as u8) <= 0xDF) by (bit_vector);
    } else if has_width_3_encoding(v) {
        assert(0xE0 <= (0xE0u8 | ((v >> 12) & 0x0F) as u8) <= 0xEF) by (bit_vector);
    } else {
        assert(has_width_4_encoding(v));
        assert(0xF0 <= (0xF0u8 | ((v >> 18) & 0x7) as u8) <= 0xF7) by (bit_vector);
    }
    assert forall|i: int| 1 <= i < e.len() implies is_continuation_byte(#[trigger] e[i]) by {}
}

/// Bytes that begin with the encoding of `p` come from chars that begin
/// with `p`.
proof fn lemma_prefix_chars(y: Seq<char>, p: Seq<char>)
    requires
        encode_utf8(p).len() <= encode_utf8(y).len(),
        encode_utf8(y).take(encode_utf8(p).len() as int) == encode_utf8(p),
    ensures
        p.len() <= y.len(),
        y.take(p.len() as int) == p,
    decreases p.len(),
{
    if p.len() == 0 {
        assert(y.take(0) =~= p);
    } else {
        lemma_scalar_bytes(p[0]);
        let ep = encode_scalar(p[0] as u32);
        assert(encode_utf8(y).len() > 0);
        assert(y.len() > 0);
        lemma_scalar_bytes(y[0]);
        let ey = encode_scalar(y[0] as u32);
        assert(encode_utf8(y)[0] == ey[0]);
        assert(encode_utf8(p)[0] == ep[0]);
        assert(encode_utf8(y).take(encode_utf8(p).len() as int)[0] == encode_utf8(y)[0]);
        assert(ey.len() == ep.len());
        assert(ey =~= ep) by {
            assert forall|i: int| 0 <= i < ey.len() implies ey[i] == ep[i] by {
                assert(encode_utf8(y)[i] == ey[i]);
                assert(encode_utf8(p)[i] == ep[i]);
                assert(encode_utf8(y).take(encode_utf8(p).len() as int)[i] == encode_utf8(y)[i]);
            }
        }
        assert(encode_utf8(seq![y[0]]) =~= ey) by {
            let one = seq![y[0]];
            assert(one.drop_first() =~= Seq::<char>::empty());
            assert(encode_utf8(one.drop_first()) =~= Seq::<u8>::empty());
            assert(one[0] == y[0]);
            assert(encode_utf8(one) == encode_scalar(one[0] as u32) + encode_utf8(one.drop_first()));
        }
        assert(encode_utf8(seq![p[0]]) =~= ep) by {
            let one = seq![p[0]];
            assert(one.drop_first() =~= Seq::<char>::empty());
            assert(encode_utf8(one.drop_first()) =~= Seq::<u8>::empty());
            assert(one[0] == p[0]);
            assert(encode_utf8(one) == encode_scalar(one[0] as u32) + encode_utf8(one.drop_first()));
        }
        vstd::utf8::encode_utf8_decode_utf8(seq![y[0]]);
        vstd::utf8::encode_utf8_decode_utf8(seq![p[0]]);
        assert(y[0] == p[0]) by {
            assert(seq![y[0]] =~= seq![p[0]]);
            assert(seq![y[0]][0] == seq![p[0]][0]);
        }
        let w = ep.len() as int;
        let y2 = y.drop_first();
        let p2 = p.drop_first();
        assert(encode_utf8(y) == ey + encode_utf8(y2));
        assert(encode_utf8(p) == ep + encode_utf8(p2));
        assert(encode_utf8(y2).take(encode_utf8(p2).len() as int) =~= encode_utf8(p2)) by {
            assert forall|i: int| 0 <= i < encode_utf8(p2).len() implies encode_utf8(y2)[i]
                == encode_utf8(p2)[i] by {
                assert(encode_utf8(y)[w + i] == encode_utf8(y2)[i]);
                assert(encode_utf8(p)[w + i] == encode_utf8(p2)[i]);
                assert(encode_utf8(y).take(encode_utf8(p).len() as int)[w + i] == encode_utf8(y)[w
                    + i]);
            }
        }
        lemma_prefix_chars(y2, p2);
        assert(y.take(p.len() as int) =~= seq![y[0]] + y2.take(p2.len() as int));
        assert(p =~= seq![p[0]] + p2);
    }
}

/// A match of the pattern's bytes starts at a char, and the chars match
/// there.
proof fn lemma_match_at_char(t: Seq<char>, pat: Seq<char>, m: nat)
    requires
        pat.len() > 0,
        occurs_at(encode_utf8(t), encode_utf8(pat), m),
    ensures
        encode_utf8(t.take(chars_within(t, m) as int)).len() == m,
        occurs_in(t, pat, chars_within(t, m) as int),
    decreases t.len(),
{
    lemma_scalar_bytes(pat[0]);
    assert(encode_utf8(pat).len() >= 1);
    assert(encode_utf8(t).len() > 0);
    let w = encode_scalar(t[0] as u32).len();
    lemma_scalar_bytes(t[0]);
    let et = encode_utf8(t);
    let t2 = t.drop_first();
    assert(et == encode_scalar(t[0] as u32) + encode_utf8(t2));
    assert(et.subrange(m as int, (m + encode_utf8(pat).len()) as int)[0] == et[m as int]);
    assert(et[m as int] == encode_utf8(pat)[0]);
    assert(encode_utf8(pat)[0] == encode_scalar(pat[0] as u32)[0]);
    if m == 0 {
        assert(chars_within(t, 0) == 0);
        assert(t.take(0) =~= Seq::<char>::empty());
        assert(et.take(encode_utf8(pat).len() as int) =~= encode_utf8(pat));
        lemma_prefix_chars(t, pat);
        assert(t.subrange(0, pat.len() as int) =~= t.take(pat.len() as int));
    } else if m < w {
        assert(et[m as int] == encode_scalar(t[0] as u32)[m as int]);
        assert(false);
    } else {
        let m2 = (m - w) as nat;
        assert(encode_utf8(t2).subrange(m2 as int, (m2 + encode_utf8(pat).len()) as int) =~= et.subrange(
            m as int,
            (m + encode_utf8(pat).len()) as int,
        ));
        lemma_match_at_char(t2, pat, m2);
        let c2 = chars_within(t2, m2);
        assert(chars_within(t, m) == 1 + c2);
        let u = t.take((1 + c2) as int);
        assert(u[0] == t[0]);
        assert(u.drop_first() =~= t2.take(c2 as int));
        assert(t.subrange((1 + c2) as int, (1 + c2 + pat.len()) as int) =~= t2.subrange(
            c2 as int,
            (c2 + pat.len()) as int,
        ));
    }
}

/// The chars before `y` take more bytes than those before `x < y`.
proof fn lemma_take_bytes_lt(t: Seq<char>, x: int, y: int)
    requires
        0 <= x < y <= t.len(),
    ensures
        encode_utf8(t.take(x)).len() < encode_utf8(t.take(y)).len(),
{
    assert(t.take(y) =~= t.take(x) + t.subrange(x, y));
    lemma_encode_concat(t.take(x), t.subrange(x, y));
    lemma_scalar_bytes(t.subrange(x, y)[0]);
}

/// The match the search finds, counted in chars, is the first occurrence of
/// the pattern's chars.
proof fn lemma_first_char_occurrence(t: Seq<char>, pat: Seq<char>)
    requires
        pat.len() > 0,
        first_match(encode_utf8(t), encode_utf8(pat)) is Some,
    ensures
        ({
            let c = chars_within(t, first_match(encode_utf8(t), encode_utf8(pat))->0) as int;
            &&& occurs_in(t, pat, c)
            &&& forall|x: int| 0 <= x < c ==> !#[trigger] occurs_in(t, pat, x)
        }),
{
    let m = first_match(encode_utf8(t), encode_utf8(pat))->0;
    law_first_match_is_first_occurrence(encode_utf8(t), encode_utf8(pat), m);
    lemma_match_at_char(t, pat, m);
    let c = chars_within(t, m) as int;
    assert forall|x: int| 0 <= x < c implies !#[trigger] occurs_in(t, pat, x) by {
        if occurs_in(t, pat, x) {
            lemma_occurs_bytes(t, pat, x);
            lemma_take_bytes_lt(t, x, c);
        }
    }
}

/// `n` moves on from the cursor to an occurrence of the pattern (whose
/// first char is not a line-end char). When the pattern occurs at `j` other
/// than at the cursor, and that occurrence starts after the cursor or ends by
/// the char under it, `n` finds an occurrence away from the cursor: when `j`
/// is after the cursor, the first occurrence after the cursor (so at `j` or
/// before); else one after the cursor or, wrapping round, one at `j` or
/// before.
pub proof fn law_search_next_moves_on(s: Seq<char>, cur: Cursor, pat: Seq<char>, j: int)
    requires
        s.len() <= usize::MAX,
        cursor_valid(s, cur),
        pat.len() > 0,
        !is_line_end_spec(pat[0]),
        occurs_in(s, pat, j),
        j != cursor_index(s, cur),
        j > cursor_index(s, cur) || j + pat.len() <= cursor_index(s, cur) + 1,
    ensures
        search_forward(s, cur, pat) matches Some(k) && k != cursor_index(s, cur) && occurs_in(
            s,
            pat,
            k,
        ) && (if j > cursor_index(s, cur) {
            &&& cursor_index(s, cur) < k <= j
            &&& forall|x: int| cursor_index(s, cur) < x < k ==> !#[trigger] occurs_in(s, pat, x)
        } else {
            k <= j || cursor_index(s, cur) < k
        }),
{
    let ic = cursor_index(s, cur);
    lemma_inc_spec(s, cur);
    assert(s[j] == pat[0]);
    let pos = match inc_spec(s, cur) {
        Some(n) => n,
        None => Cursor { row: 0, col: 0 },
    };
    let i = cursor_index(s, pos);
    let after = s.skip(i);
    let before = s.take(i);
    if inc_spec(s, cur) is None {
        assert(i == 0);
        assert(after =~= s);
        if j > ic {
            lemma_step_passes_line_ends(s, cur, j);
        }
        lemma_found_by_j(s, pat, j);
        lemma_first_char_occurrence(s, pat);
    } else {
        assert(i > ic);
        crate::edit_core::model::lemma_valid_before_next_line(s, pos.row as nat, pos.col as nat);
        assert(i <= s.len());
        if j > ic {
            if j < i {
                lemma_step_passes_line_ends(s, cur, j);
            }
            assert(after.subrange(j - i, j - i + pat.len()) =~= s.subrange(j, j + pat.len()));
            lemma_found_by_j(after, pat, j - i);
            lemma_first_char_occurrence(after, pat);
            let c = chars_within(after, first_match(encode_utf8(after), encode_utf8(pat))->0) as int;
            assert(s.subrange(i + c, i + c + pat.len()) =~= after.subrange(c, c + pat.len()));
            assert forall|x: int| ic < x < i + c implies !#[trigger] occurs_in(s, pat, x) by {
                if occurs_in(s, pat, x) {
                    assert(s[x] == pat[0]);
                    if x < i {
                        lemma_step_passes_line_ends(s, cur, x);
                    } else {
                        assert(after.subrange(x - i, x - i + pat.len()) =~= s.subrange(
                            x,
                            x + pat.len(),
                        ));
                        assert(!occurs_in(after, pat, x - i));
                    }
                }
            }
        } else {
            match first_match(encode_utf8(after), encode_utf8(pat)) {
                Some(m) => {
                    lemma_first_char_occurrence(after, pat);
                    let c = chars_within(after, m) as int;
                    assert(s.subrange(i + c, i + c + pat.len()) =~= after.subrange(
                        c,
                        c + pat.len(),
                    ));
                },
                None => {
                    assert(before.subrange(j, j + pat.len()) =~= s.subrange(j, j + pat.len()));
                    lemma_found_by_j(before, pat, j);
                    lemma_first_char_occurrence(before, pat);
                    let c = chars_within(before, first_match(encode_utf8(before), encode_utf8(pat))->0) as int;
                    assert(s.subrange(c, c + pat.len()) =~= before.subrange(c, c + pat.len()));
                },
            }
        }
    }
}

} // verus!
