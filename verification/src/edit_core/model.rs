//! The mathematical model of a text buffer: a sequence of chars split into
//! lines at each `'\n'` (a CRLF pair ends a line at its `'\n'`), as the rope
//! that stores the text counts lines.
use vstd::prelude::*;

verus! {

/// Number of `'\n'` in `s`.
pub open spec fn nl_count(s: Seq<char>) -> nat
    decreases s.len(),
{
    if s.len() == 0 {
        0
    } else {
        nl_count(s.drop_last()) + if s.last() == '\n' { 1nat } else { 0nat }
    }
}

/// Number of lines of `s`: one more than its line breaks.
pub open spec fn line_count(s: Seq<char>) -> nat {
    nl_count(s) + 1
}

/// Char index at which line `k` starts: just after the `k`-th `'\n'`.
/// For `k == line_count(s)` it is `s.len()` (one past the end).
pub open spec fn line_start(s: Seq<char>, k: nat) -> nat
    decreases s.len(),
{
    if k == 0 || s.len() == 0 {
        0
    } else if nl_count(s.drop_last()) >= k {
        line_start(s.drop_last(), k)
    } else {
        s.len()
    }
}

/// The chars that end a line when they close it: LF, VT, FF, CR, NEL, LS, PS.
pub open spec fn is_line_end_spec(c: char) -> bool {
    c == '\u{000a}' || c == '\u{000b}' || c == '\u{000c}' || c == '\u{000d}' || c == '\u{0085}'
        || c == '\u{2028}' || c == '\u{2029}'
}

/// End of `s[start..end]` once trailing line-end chars are trimmed.
pub open spec fn trim_end_pos(s: Seq<char>, start: int, end: int) -> int
    decreases end - start,
{
    if end <= start {
        end
    } else if is_line_end_spec(s[end - 1]) {
        trim_end_pos(s, start, end - 1)
    } else {
        end
    }
}

/// Length of line `row`, not counting its trailing line-end chars.
pub open spec fn line_len(s: Seq<char>, row: nat) -> nat {
    (trim_end_pos(s, line_start(s, row) as int, line_start(s, row + 1) as int) - line_start(
        s,
        row,
    )) as nat
}

/// Char index of position `col` of line `row`.
pub open spec fn pos_of(s: Seq<char>, row: nat, col: nat) -> int {
    (line_start(s, row) + col) as int
}

/// A position lies in the text, on its line, before that line's `'\n'`.
pub open spec fn valid_pos(s: Seq<char>, row: nat, col: nat) -> bool {
    &&& row < line_count(s)
    &&& pos_of(s, row, col) <= s.len()
    &&& nl_count(s.take(pos_of(s, row, col))) == row
}

pub proof fn lemma_nl_count_take_last(s: Seq<char>, x: int)
    requires
        0 <= x < s.len(),
    ensures
        nl_count(s.take(x + 1)) == nl_count(s.take(x)) + if s[x] == '\n' { 1nat } else { 0nat },
{
    assert(s.take(x + 1).drop_last() =~= s.take(x));
}

pub proof fn lemma_nl_count_take_full(s: Seq<char>)
    ensures
        s.take(s.len() as int) == s,
{
    assert(s.take(s.len() as int) =~= s);
}

/// Counting newlines of a concatenation adds the counts.
pub proof fn lemma_nl_count_add(a: Seq<char>, b: Seq<char>)
    ensures
        nl_count(a + b) == nl_count(a) + nl_count(b),
    decreases b.len(),
{
    if b.len() == 0 {
        assert(a + b =~= a);
    } else {
        assert((a + b).drop_last() =~= a + b.drop_last());
        lemma_nl_count_add(a, b.drop_last());
    }
}

/// More chars never hold fewer newlines.
pub proof fn lemma_nl_count_mono(s: Seq<char>, x: int, y: int)
    requires
        0 <= x <= y <= s.len(),
    ensures
        nl_count(s.take(x)) <= nl_count(s.take(y)),
    decreases y - x,
{
    if x < y {
        lemma_nl_count_mono(s, x, y - 1);
        lemma_nl_count_take_last(s, y - 1);
    }
}

pub proof fn lemma_nl_count_le_len(s: Seq<char>)
    ensures
        nl_count(s) <= s.len(),
    decreases s.len(),
{
    if s.len() > 0 {
        lemma_nl_count_le_len(s.drop_last());
    }
}

/// The start of line `k` only depends on the text before it.
pub proof fn lemma_line_start_take(s: Seq<char>, n: int, k: nat)
    requires
        0 <= n <= s.len(),
        k <= nl_count(s.take(n)),
    ensures
        line_start(s, k) == line_start(s.take(n), k),
        line_start(s, k) <= n,
    decreases s.len() - n,
{
    if n == s.len() {
        lemma_nl_count_take_full(s);
        lemma_line_start_le_len(s, k);
    } else {
        let t = s.drop_last();
        assert(t.take(n) =~= s.take(n));
        lemma_nl_count_mono(t, n, t.len() as int);
        lemma_nl_count_take_full(t);
        if k > 0 {
            assert(nl_count(t) >= k);
        }
        lemma_line_start_take(t, n, k);
    }
}

pub proof fn lemma_line_start_le_len(s: Seq<char>, k: nat)
    ensures
        line_start(s, k) <= s.len(),
    decreases s.len(),
{
    if k > 0 && s.len() > 0 && nl_count(s.drop_last()) >= k {
        lemma_line_start_le_len(s.drop_last(), k);
    }
}

/// Two texts that agree up to `n` start line `k` at the same place.
pub proof fn lemma_line_start_prefix(s: Seq<char>, t: Seq<char>, n: int, k: nat)
    requires
        0 <= n <= s.len(),
        n <= t.len(),
        s.take(n) == t.take(n),
        k <= nl_count(s.take(n)),
    ensures
        line_start(s, k) == line_start(t, k),
        line_start(s, k) <= n,
{
    lemma_line_start_take(s, n, k);
    lemma_line_start_take(t, n, k);
}

/// The text before the start of line `k` holds exactly `k` newlines, and
/// the char just before it is a newline.
pub proof fn lemma_line_start_count(s: Seq<char>, k: nat)
    requires
        k <= nl_count(s),
    ensures
        line_start(s, k) <= s.len(),
        nl_count(s.take(line_start(s, k) as int)) == k,
        k > 0 ==> line_start(s, k) >= 1 && s[line_start(s, k) - 1] == '\n',
    decreases s.len(),
{
    if k == 0 {
        assert(s.take(0) =~= Seq::<char>::empty());
    } else {
        let t = s.drop_last();
        if nl_count(t) >= k {
            lemma_line_start_count(t, k);
            let x = line_start(t, k) as int;
            assert(s.take(x) =~= t.take(x));
        } else {
            lemma_nl_count_take_full(s);
        }
    }
}

/// A text whose first `n` chars hold `k` newlines, the last of them at
/// `n - 1`, starts line `k` at `n`.
pub proof fn lemma_line_start_at(s: Seq<char>, n: int, k: nat)
    requires
        1 <= n <= s.len(),
        s[n - 1] == '\n',
        nl_count(s.take(n)) == k,
    ensures
        line_start(s, k) == n,
{
    lemma_nl_count_take_last(s, n - 1);
    lemma_line_start_take(s, n, k);
    let p = s.take(n);
    assert(p.drop_last() =~= s.take(n - 1));
    assert(k >= 1);
}

/// Every position from the start of line `row` up to its newline lies on
/// that line.
pub proof fn lemma_on_line(s: Seq<char>, row: nat, x: int)
    requires
        row < line_count(s),
        line_start(s, row) <= x <= s.len(),
        row + 1 < line_count(s) ==> x < line_start(s, row + 1),
    ensures
        nl_count(s.take(x)) == row,
{
    lemma_line_start_count(s, row);
    let l = line_start(s, row) as int;
    lemma_nl_count_mono(s, l, x);
    if row + 1 < line_count(s) {
        lemma_line_start_count(s, row + 1);
        let e = line_start(s, row + 1) as int;
        lemma_nl_count_take_last(s, e - 1);
        lemma_nl_count_mono(s, x, e - 1);
    } else {
        lemma_nl_count_take_full(s);
        lemma_nl_count_mono(s, x, s.len() as int);
    }
}

/// Line starts never go backwards.
pub proof fn lemma_line_start_mono(s: Seq<char>, j: nat, k: nat)
    requires
        j <= k,
    ensures
        line_start(s, j) <= line_start(s, k),
    decreases s.len(),
{
    if j > 0 && s.len() > 0 {
        let t = s.drop_last();
        if nl_count(t) >= k {
            lemma_line_start_mono(t, j, k);
        } else if nl_count(t) >= j {
            lemma_line_start_le_len(t, j);
        }
    }
}

pub proof fn lemma_trim_end_pos_bounds(s: Seq<char>, start: int, end: int)
    requires
        start <= end,
    ensures
        start <= trim_end_pos(s, start, end) <= end,
    decreases end - start,
{
    if end > start && is_line_end_spec(s[end - 1]) {
        lemma_trim_end_pos_bounds(s, start, end - 1);
    }
}

proof fn lemma_trim_end_pos_below_newline(s: Seq<char>, start: int, end: int)
    requires
        start < end <= s.len(),
        s[end - 1] == '\n',
    ensures
        trim_end_pos(s, start, end) <= end - 1,
{
    lemma_trim_end_pos_bounds(s, start, end - 1);
}

/// Every column up to the trimmed length of a line is a valid position.
pub proof fn lemma_valid_up_to_line_len(s: Seq<char>, row: nat, col: nat)
    requires
        row < line_count(s),
        col <= line_len(s, row),
    ensures
        valid_pos(s, row, col),
{
    let l = line_start(s, row) as int;
    let e = line_start(s, row + 1) as int;
    lemma_line_start_mono(s, row, row + 1);
    lemma_line_start_le_len(s, row + 1);
    lemma_trim_end_pos_bounds(s, l, e);
    if row + 1 < line_count(s) {
        lemma_line_start_count(s, row + 1);
        lemma_line_start_count(s, row);
        if e <= l {
            lemma_nl_count_mono(s, e, l);
        }
        lemma_trim_end_pos_below_newline(s, l, e);
    }
    lemma_on_line(s, row, l + col);
}

/// A line's trimmed end lies between its start and the next line's start.
pub proof fn lemma_line_len_bounds(s: Seq<char>, row: nat)
    ensures
        line_start(s, row) <= line_start(s, row + 1) <= s.len(),
        line_start(s, row) + line_len(s, row) <= line_start(s, row + 1),
{
    lemma_line_start_mono(s, row, row + 1);
    lemma_line_start_le_len(s, row + 1);
    lemma_trim_end_pos_bounds(s, line_start(s, row) as int, line_start(s, row + 1) as int);
}

/// A valid position lies before the start of the next line.
pub proof fn lemma_valid_before_next_line(s: Seq<char>, row: nat, col: nat)
    requires
        valid_pos(s, row, col),
    ensures
        pos_of(s, row, col) <= line_start(s, row + 1),
        row + 1 < line_count(s) ==> pos_of(s, row, col) < line_start(s, row + 1),
{
    lemma_line_len_bounds(s, row);
    if row + 1 < line_count(s) {
        lemma_line_start_count(s, row + 1);
        let e = line_start(s, row + 1) as int;
        if e <= pos_of(s, row, col) {
            lemma_nl_count_mono(s, e, pos_of(s, row, col));
        }
    } else {
        lemma_line_start_le_len(s, row + 1);
        assert(line_start(s, row + 1) == s.len()) by {
            lemma_line_start_end(s);
        }
    }
}

/// The line after the last one starts at the end of the text.
pub proof fn lemma_line_start_end(s: Seq<char>)
    ensures
        line_start(s, line_count(s)) == s.len(),
    decreases s.len(),
{
    if s.len() > 0 {
        let t = s.drop_last();
        if nl_count(t) >= line_count(s) {
            lemma_nl_count_le_len(t);
        }
    }
}

} // verus!
