//! The text store behind the editing core, described by its chars.
use vstd::prelude::*;

use super::model::{
    lemma_line_start_at, lemma_line_start_count, lemma_line_start_prefix, lemma_line_start_take,
    lemma_nl_count_le_len, lemma_nl_count_mono, lemma_nl_count_take_full, lemma_nl_count_take_last,
    lemma_valid_up_to_line_len, line_count, line_len, line_start, nl_count, pos_of, valid_pos,
};
use super::{Cursor, CursorBound};

pub use super::ropey_core_buffer::RopeyCoreBuffer;

verus! {

/// Char index of a cursor in `s`.
pub open spec fn cursor_index(s: Seq<char>, c: Cursor) -> int {
    pos_of(s, c.row as nat, c.col as nat)
}

/// The cursor names a position of `s` on its line.
pub open spec fn cursor_valid(s: Seq<char>, c: Cursor) -> bool {
    valid_pos(s, c.row as nat, c.col as nat)
}

/// Char index just after the char at `c`.
pub open spec fn index_after(s: Seq<char>, c: Cursor) -> int {
    cursor_index(s, c) + 1
}

/// First char index of a range that starts at `b`.
pub open spec fn start_index(s: Seq<char>, b: CursorBound) -> int {
    match b {
        CursorBound::Included(c) => cursor_index(s, c),
        CursorBound::Excluded(c) => index_after(s, c),
        CursorBound::Unbounded => 0,
    }
}

/// Char index one past a range that ends at `b`.
pub open spec fn end_index(s: Seq<char>, b: CursorBound) -> int {
    match b {
        CursorBound::Included(c) => index_after(s, c),
        CursorBound::Excluded(c) => cursor_index(s, c),
        CursorBound::Unbounded => s.len() as int,
    }
}

pub open spec fn bound_valid(s: Seq<char>, b: CursorBound) -> bool {
    match b {
        CursorBound::Included(c) => cursor_valid(s, c),
        CursorBound::Excluded(c) => cursor_valid(s, c),
        CursorBound::Unbounded => true,
    }
}

/// Both ends name positions of `s` and the range neither runs backwards
/// nor past the end.
pub open spec fn range_valid(s: Seq<char>, r: (CursorBound, CursorBound)) -> bool {
    &&& bound_valid(s, r.0)
    &&& bound_valid(s, r.1)
    &&& start_index(s, r.0) <= end_index(s, r.1) <= s.len()
}

/// The chars of `s` that a range covers.
pub open spec fn range_text(s: Seq<char>, r: (CursorBound, CursorBound)) -> Seq<char> {
    s.subrange(start_index(s, r.0), end_index(s, r.1))
}

/// `s` with the chars of a range taken out.
pub open spec fn remove_range(s: Seq<char>, r: (CursorBound, CursorBound)) -> Seq<char> {
    s.take(start_index(s, r.0)) + s.skip(end_index(s, r.1))
}

/// `s` with `t` put in at char index `i`.
pub open spec fn insert_at(s: Seq<char>, i: int, t: Seq<char>) -> Seq<char> {
    s.take(i) + t + s.skip(i)
}

/// The char shown at a cursor, if the cursor stands on one of its line.
pub open spec fn char_at_spec(s: Seq<char>, c: Cursor) -> Option<char> {
    if c.row < line_count(s) && c.col < line_len(s, c.row as nat) {
        Some(s[cursor_index(s, c)])
    } else {
        None
    }
}

/// The position after the last char.
pub open spec fn end_cursor_spec(s: Seq<char>) -> Cursor {
    Cursor { row: (line_count(s) - 1) as usize, col: line_len(s, (line_count(s) - 1) as nat) as usize }
}

/// A text store: a sequence of chars cut into lines.
pub trait CoreBuffer: Sized {
    /// The chars the store holds.
    spec fn text(&self) -> Seq<char>;

    /// An empty store.
    fn new() -> (r: Self)
        ensures
            r.text() == Seq::<char>::empty(),
    ;

    /// A store that holds `s`.
    fn from_str(s: &str) -> (r: Self)
        ensures
            r.text() == s@,
    ;

    /// A store that holds the chars that `bytes` encode in UTF-8; `None` when
    /// they are not UTF-8.
    fn from_reader(bytes: &[u8]) -> (r: Option<Self>)
        ensures
            r is Some <==> vstd::utf8::valid_utf8(bytes@),
            r matches Some(b) ==> b.text() == vstd::utf8::decode_utf8(bytes@),
    ;

    fn len_chars(&self) -> (n: usize)
        ensures
            n == self.text().len(),
    ;

    /// Size of the text in UTF-8.
    fn len_bytes(&self) -> (n: usize)
        ensures
            n == vstd::utf8::encode_utf8(self.text()).len(),
    ;

    fn len_lines(&self) -> (n: usize)
        ensures
            n == line_count(self.text()),
    ;

    /// Chars of line `idx_line` without its line-end chars.
    fn len_line(&self, idx_line: usize) -> (n: usize)
        requires
            idx_line < line_count(self.text()),
        ensures
            n == line_len(self.text(), idx_line as nat),
    ;

    fn char_at(&self, cursor: Cursor) -> (r: Option<char>)
        ensures
            r == char_at_spec(self.text(), cursor),
    ;

    fn insert_char(&mut self, cursor: Cursor, c: char)
        requires
            cursor_valid(old(self).text(), cursor),
        ensures
            final(self).text() == insert_at(
                old(self).text(),
                cursor_index(old(self).text(), cursor),
                seq![c],
            ),
    ;

    fn insert(&mut self, cursor: Cursor, s: &str)
        requires
            cursor_valid(old(self).text(), cursor),
        ensures
            final(self).text() == insert_at(
                old(self).text(),
                cursor_index(old(self).text(), cursor),
                s@,
            ),
    ;

    fn get_range(&self, range: (CursorBound, CursorBound)) -> (r: String)
        requires
            range_valid(self.text(), range),
        ensures
            r@ == range_text(self.text(), range),
    ;

    fn delete_range(&mut self, range: (CursorBound, CursorBound))
        requires
            range_valid(old(self).text(), range),
        ensures
            final(self).text() == remove_range(old(self).text(), range),
    ;

    /// Char index of a cursor.
    fn cursor_to_char(&self, cursor: Cursor) -> (i: usize)
        requires
            cursor_valid(self.text(), cursor),
        ensures
            i == cursor_index(self.text(), cursor),
    ;

    /// The cursor at a char index.
    fn char_to_cursor(&self, char_idx: usize) -> (c: Cursor)
        requires
            char_idx <= self.text().len(),
        ensures
            cursor_valid(self.text(), c),
            cursor_index(self.text(), c) == char_idx,
    ;

    fn to_string(&self) -> (r: String)
        ensures
            r@ == self.text(),
    ;

    /// The position after the last char.
    fn end_cursor(&self) -> (c: Cursor)
        ensures
            c == end_cursor_spec(self.text()),
            cursor_valid(self.text(), c),
    {
        let row = self.len_lines() - 1;
        let col = self.len_line(row);
        proof {
            lemma_valid_up_to_line_len(self.text(), row as nat, col as nat);
        }
        Cursor { row, col }
    }
}

/// A valid cursor stays valid, at the same index, in any text that keeps the
/// chars before it.
pub proof fn lemma_cursor_prefix(s: Seq<char>, t: Seq<char>, c: Cursor)
    requires
        cursor_valid(s, c),
        cursor_index(s, c) <= t.len(),
        t.take(cursor_index(s, c)) == s.take(cursor_index(s, c)),
    ensures
        cursor_valid(t, c),
        cursor_index(t, c) == cursor_index(s, c),
{
    let p = cursor_index(s, c);
    lemma_line_start_prefix(s, t, p, c.row as nat);
    lemma_nl_count_mono(t, p, t.len() as int);
    lemma_nl_count_take_full(t);
}

/// The cursor at char index `i`, when it counts the newlines before it.
pub proof fn lemma_cursor_of_index(s: Seq<char>, i: int, c: Cursor)
    requires
        0 <= i <= s.len(),
        c.row == nl_count(s.take(i)),
        c.col == i - line_start(s, c.row as nat),
    ensures
        cursor_valid(s, c),
        cursor_index(s, c) == i,
{
    lemma_line_start_take(s, i, c.row as nat);
    lemma_nl_count_mono(s, i, s.len() as int);
    lemma_nl_count_take_full(s);
}

/// Where the cursor lands after typing `c` at `cur`.
pub open spec fn cursor_after_insert(cur: Cursor, c: char) -> Cursor {
    if c == '\n' {
        Cursor { row: (cur.row + 1) as usize, col: 0 }
    } else {
        Cursor { row: cur.row, col: (cur.col + 1) as usize }
    }
}

/// After a char goes in at a valid cursor, the cursor past it is valid and
/// stands just after it.
pub proof fn lemma_insert_char_cursor(s: Seq<char>, cur: Cursor, c: char)
    requires
        cursor_valid(s, cur),
        s.len() < usize::MAX,
    ensures
        ({
            let t = insert_at(s, cursor_index(s, cur), seq![c]);
            &&& cursor_valid(t, cur)
            &&& cursor_index(t, cur) == cursor_index(s, cur)
            &&& cursor_valid(t, cursor_after_insert(cur, c))
            &&& cursor_index(t, cursor_after_insert(cur, c)) == cursor_index(s, cur) + 1
        }),
{
    let p = cursor_index(s, cur);
    let t = insert_at(s, p, seq![c]);
    assert(t.take(p) =~= s.take(p));
    lemma_cursor_prefix(s, t, cur);
    assert(t[p] == c);
    lemma_nl_count_le_len(s);
    lemma_nl_count_take_last(t, p);
    assert(nl_count(t.take(p)) == cur.row);
    let n = cursor_after_insert(cur, c);
    if c == '\n' {
        lemma_line_start_at(t, p + 1, (cur.row + 1) as nat);
    } else {
        lemma_line_start_prefix(s, t, p, cur.row as nat);
    }
    lemma_nl_count_mono(t, p + 1, t.len() as int);
    lemma_nl_count_take_full(t);
    assert(cursor_index(t, n) == p + 1);
    assert(cursor_valid(t, n));
}

} // verus!
