//! The text store kept in a rope of the `ropey` crate.
use vstd::prelude::*;

use ropey::Rope;

use super::buffer::{
    bound_valid, cursor_index, cursor_valid, end_index, index_after, insert_at,
    lemma_cursor_of_index, start_index, CoreBuffer,
};
use super::model::{
    lemma_line_len_bounds, lemma_line_start_take, lemma_nl_count_mono, lemma_nl_count_take_full,
    lemma_valid_up_to_line_len, nl_count, line_count,
    line_start, trim_end_pos,
};
use super::{Cursor, CursorBound};
use crate::ropey_util::is_line_end;

verus! {

#[verifier::external_type_specification]
#[verifier::external_body]
pub struct ExRope(ropey::Rope);

/// The chars that a rope holds.
pub uninterp spec fn rope_chars(r: Rope) -> Seq<char>;

/// `Rope::from_str`: a rope that holds the chars of `s`.
#[verifier::external_body]
fn rope_from_str(s: &str) -> (r: Rope)
    ensures
        rope_chars(r) == s@,
{
    Rope::from_str(s)
}

/// `Rope::from_reader` on a byte slice: the rope of the chars that the bytes
/// encode in UTF-8, and an error (here `None`) when they are not UTF-8; reading
/// from a slice itself never fails.
#[verifier::external_body]
fn rope_from_reader(bytes: &[u8]) -> (r: Option<Rope>)
    ensures
        r is Some <==> vstd::utf8::valid_utf8(bytes@),
        r matches Some(rope) ==> rope_chars(rope) == vstd::utf8::decode_utf8(bytes@),
{
    Rope::from_reader(bytes).ok()
}

/// `Rope::len_chars`: the number of chars.
#[verifier::external_body]
fn rope_len_chars(r: &Rope) -> (n: usize)
    ensures
        n == rope_chars(*r).len(),
{
    r.len_chars()
}

/// `Rope::len_bytes`: the size of the text in UTF-8.
#[verifier::external_body]
fn rope_len_bytes(r: &Rope) -> (n: usize)
    ensures
        n == vstd::utf8::encode_utf8(rope_chars(*r)).len(),
{
    r.len_bytes()
}

/// `Rope::len_lines`: one more than the line breaks. Built without ropey's
/// `cr_lines` and `unicode_lines` features, the rope breaks lines at LF only
/// (a CRLF pair is one break, at its LF).
#[verifier::external_body]
fn rope_len_lines(r: &Rope) -> (n: usize)
    ensures
        n == line_count(rope_chars(*r)),
{
    r.len_lines()
}

/// `Rope::line_to_char`: the char index at which line `line_idx` starts; one
/// past the last line gives the end of the text. It panics beyond that.
#[verifier::external_body]
fn rope_line_to_char(r: &Rope, line_idx: usize) -> (n: usize)
    requires
        line_idx <= line_count(rope_chars(*r)),
    ensures
        n == line_start(rope_chars(*r), line_idx as nat),
{
    r.line_to_char(line_idx)
}

/// `Rope::char_to_line`: the line of char index `char_idx`, the count of line
/// breaks before it (LF only, as `rope_len_lines` says); it panics past the end.
#[verifier::external_body]
fn rope_char_to_line(r: &Rope, char_idx: usize) -> (n: usize)
    requires
        char_idx <= rope_chars(*r).len(),
    ensures
        n == nl_count(rope_chars(*r).take(char_idx as int)),
{
    r.char_to_line(char_idx)
}

/// `Rope::char`: the char at `char_idx`; it panics past the end.
#[verifier::external_body]
fn rope_char(r: &Rope, char_idx: usize) -> (c: char)
    requires
        char_idx < rope_chars(*r).len(),
    ensures
        c == rope_chars(*r)[char_idx as int],
{
    r.char(char_idx)
}

/// `Rope::insert_char`: puts `c` in at `char_idx`; it panics past the end.
#[verifier::external_body]
fn rope_insert_char(r: &mut Rope, char_idx: usize, c: char)
    requires
        char_idx <= rope_chars(*old(r)).len(),
    ensures
        rope_chars(*final(r)) == insert_at(rope_chars(*old(r)), char_idx as int, seq![c]),
{
    r.insert_char(char_idx, c)
}

/// `Rope::insert`: puts the chars of `s` in at `char_idx`; it panics past the end.
#[verifier::external_body]
fn rope_insert(r: &mut Rope, char_idx: usize, s: &str)
    requires
        char_idx <= rope_chars(*old(r)).len(),
    ensures
        rope_chars(*final(r)) == insert_at(rope_chars(*old(r)), char_idx as int, s@),
{
    r.insert(char_idx, s)
}

/// `Rope::remove` on `start..end`: takes those chars out; it panics when the
/// range runs backwards or past the end.
#[verifier::external_body]
fn rope_remove(r: &mut Rope, start: usize, end: usize)
    requires
        start <= end <= rope_chars(*old(r)).len(),
    ensures
        rope_chars(*final(r)) == rope_chars(*old(r)).take(start as int) + rope_chars(
            *old(r),
        ).skip(end as int),
{
    r.remove(start..end)
}

/// `Rope::slice` on `start..end`, turned into a `String` by `String::from`.
#[verifier::external_body]
fn rope_slice_string(r: &Rope, start: usize, end: usize) -> (s: String)
    requires
        start <= end <= rope_chars(*r).len(),
    ensures
        s@ == rope_chars(*r).subrange(start as int, end as int),
{
    String::from(r.slice(start..end))
}

/// `String::from(&Rope)`: the whole text.
#[verifier::external_body]
fn rope_to_string(r: &Rope) -> (s: String)
    ensures
        s@ == rope_chars(*r),
{
    String::from(r)
}

/// The text store of the editor, kept in a rope.
pub struct RopeyCoreBuffer(Rope);

impl RopeyCoreBuffer {
    /// Char index of a valid cursor.
    fn index_of(&self, cursor: Cursor) -> (i: usize)
        requires
            cursor_valid(self.text(), cursor),
        ensures
            i == cursor_index(self.text(), cursor),
    {
        let _len = rope_len_chars(&self.0);
        rope_line_to_char(&self.0, cursor.row) + cursor.col
    }

    /// Char index just after the char at a valid cursor.
    fn index_after_of(&self, cursor: Cursor) -> (i: usize)
        requires
            cursor_valid(self.text(), cursor),
            cursor_index(self.text(), cursor) < self.text().len(),
        ensures
            i == index_after(self.text(), cursor),
    {
        let _len = rope_len_chars(&self.0);
        self.index_of(cursor) + 1
    }

    fn start_index_of(&self, b: CursorBound, end: usize) -> (i: usize)
        requires
            bound_valid(self.text(), b),
            start_index(self.text(), b) <= end <= self.text().len(),
        ensures
            i == start_index(self.text(), b),
    {
        match b {
            CursorBound::Included(c) => self.index_of(c),
            CursorBound::Excluded(c) => self.index_after_of(c),
            CursorBound::Unbounded => 0,
        }
    }

    fn end_index_of(&self, b: CursorBound) -> (i: usize)
        requires
            bound_valid(self.text(), b),
            end_index(self.text(), b) <= self.text().len(),
        ensures
            i == end_index(self.text(), b),
    {
        match b {
            CursorBound::Included(c) => self.index_after_of(c),
            CursorBound::Excluded(c) => {
                let i = self.index_of(c);
                i
            },
            CursorBound::Unbounded => rope_len_chars(&self.0),
        }
    }
}

impl CoreBuffer for RopeyCoreBuffer {
    closed spec fn text(&self) -> Seq<char> {
        rope_chars(self.0)
    }

    fn new() -> (r: Self) {
        proof {
            reveal_strlit("");
        }
        RopeyCoreBuffer(rope_from_str(""))
    }

    fn from_str(s: &str) -> (r: Self) {
        RopeyCoreBuffer(rope_from_str(s))
    }

    fn from_reader(bytes: &[u8]) -> (r: Option<Self>) {
        match rope_from_reader(bytes) {
            Some(rope) => Some(RopeyCoreBuffer(rope)),
            None => None,
        }
    }

    fn len_chars(&self) -> (n: usize) {
        rope_len_chars(&self.0)
    }

    fn len_bytes(&self) -> (n: usize) {
        rope_len_bytes(&self.0)
    }

    fn len_lines(&self) -> (n: usize) {
        rope_len_lines(&self.0)
    }

    fn len_line(&self, idx_line: usize) -> (n: usize) {
        let ghost s = self.text();
        proof {
            lemma_line_len_bounds(s, idx_line as nat);
        }
        let _lines = rope_len_lines(&self.0);
        let start = rope_line_to_char(&self.0, idx_line);
        let end0 = rope_line_to_char(&self.0, idx_line + 1);
        let mut end = end0;
        while end > start && is_line_end(rope_char(&self.0, end - 1))
            invariant
                s == self.text(),
                start <= end <= end0 <= s.len(),
                start == line_start(s, idx_line as nat),
                end0 == line_start(s, (idx_line + 1) as nat),
                trim_end_pos(s, start as int, end as int) == trim_end_pos(
                    s,
                    start as int,
                    end0 as int,
                ),
            decreases end,
        {
            end = end - 1;
        }
        end - start
    }

    fn char_at(&self, cursor: Cursor) -> (r: Option<char>) {
        let ghost s = self.text();
        if cursor.row < self.len_lines() {
            let n = self.len_line(cursor.row);
            if cursor.col < n {
                proof {
                    lemma_valid_up_to_line_len(s, cursor.row as nat, cursor.col as nat);
                    lemma_line_len_bounds(s, cursor.row as nat);
                }
                let i = self.index_of(cursor);
                Some(rope_char(&self.0, i))
            } else {
                None
            }
        } else {
            None
        }
    }

    fn insert_char(&mut self, cursor: Cursor, c: char) {
        let i = self.index_of(cursor);
        rope_insert_char(&mut self.0, i, c);
    }

    fn insert(&mut self, cursor: Cursor, s: &str) {
        let i = self.index_of(cursor);
        rope_insert(&mut self.0, i, s);
    }

    fn get_range(&self, range: (CursorBound, CursorBound)) -> (r: String) {
        let end = self.end_index_of(range.1);
        let start = self.start_index_of(range.0, end);
        rope_slice_string(&self.0, start, end)
    }

    fn delete_range(&mut self, range: (CursorBound, CursorBound)) {
        let end = self.end_index_of(range.1);
        let start = self.start_index_of(range.0, end);
        rope_remove(&mut self.0, start, end);
    }

    fn cursor_to_char(&self, cursor: Cursor) -> (i: usize) {
        self.index_of(cursor)
    }

    fn char_to_cursor(&self, char_idx: usize) -> (c: Cursor) {
        let row = rope_char_to_line(&self.0, char_idx);
        proof {
            lemma_line_start_take(self.text(), char_idx as int, row as nat);
            lemma_nl_count_mono(self.text(), char_idx as int, self.text().len() as int);
            lemma_nl_count_take_full(self.text());
        }
        let start = rope_line_to_char(&self.0, row);
        let c = Cursor { row, col: char_idx - start };
        proof {
            lemma_cursor_of_index(self.text(), char_idx as int, c);
        }
        c
    }

    fn to_string(&self) -> (r: String) {
        rope_to_string(&self.0)
    }
}

impl Default for RopeyCoreBuffer {
    fn default() -> (r: Self)
        ensures
            r.text() == Seq::<char>::empty(),
    {
        <RopeyCoreBuffer as CoreBuffer>::new()
    }
}

} // verus!
