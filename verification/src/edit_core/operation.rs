//! The edits that the core records, each with what it takes to undo it.
use vstd::prelude::*;

use super::buffer::{
    char_at_spec, cursor_after_insert, cursor_index, cursor_valid, insert_at,
    lemma_cursor_prefix, lemma_insert_char_cursor, range_text, range_valid, remove_range,
    start_index, CoreBuffer,
};
use super::model::{lemma_nl_count_le_len, lemma_valid_up_to_line_len, line_count, line_len};
use super::{cursor_min, min_cursor, Cursor, CursorBound};

verus! {

/// Typing one char at a cursor.
#[derive(Debug)]
pub struct InsertChar {
    pub cursor: Cursor,
    pub c: char,
}

/// Taking a range of text out; it keeps what it took and where.
#[derive(Debug)]
pub struct DeleteRange {
    range: (CursorBound, CursorBound),
    orig: Option<String>,
    at: usize,
}

/// Replacing the whole text; it keeps the text it replaced.
#[derive(Debug)]
pub struct SetText {
    to: String,
    from: Option<String>,
}

/// Where the cursor goes once the text is `s`: the earlier of `cur` and the
/// end of the text, pulled back onto its line.
pub open spec fn clamp_cursor(s: Seq<char>, cur: Cursor) -> Cursor {
    let end = Cursor {
        row: (line_count(s) - 1) as usize,
        col: line_len(s, (line_count(s) - 1) as nat) as usize,
    };
    let m = cursor_min(cur, end);
    Cursor {
        row: m.row,
        col: if m.col <= line_len(s, m.row as nat) { m.col } else { line_len(s, m.row as nat) as usize },
    }
}

pub(crate) fn clamp_cursor_exec<B: CoreBuffer>(buf: &B, cur: Cursor) -> (r: Cursor)
    ensures
        r == clamp_cursor(buf.text(), cur),
        cursor_valid(buf.text(), r),
{
    let end = buf.end_cursor();
    let m = min_cursor(cur, end);
    let n = buf.len_line(m.row);
    let r = Cursor { row: m.row, col: if m.col <= n { m.col } else { n } };
    proof {
        lemma_valid_up_to_line_len(buf.text(), r.row as nat, r.col as nat);
    }
    r
}

impl InsertChar {
    pub open spec fn pre(self, s: Seq<char>) -> bool {
        cursor_valid(s, self.cursor) && s.len() < usize::MAX
    }

    pub open spec fn apply(self, s: Seq<char>) -> Seq<char> {
        insert_at(s, cursor_index(s, self.cursor), seq![self.c])
    }

    /// Puts the char in and moves the cursor past it; gives the first line
    /// that changed.
    pub fn perform<B: CoreBuffer>(&self, core_buffer: &mut B, cursor: &mut Cursor) -> (r: Option<
        usize,
    >)
        requires
            self.pre(old(core_buffer).text()),
        ensures
            final(core_buffer).text() == self.apply(old(core_buffer).text()),
            *final(cursor) == cursor_after_insert(self.cursor, self.c),
            cursor_valid(final(core_buffer).text(), *final(cursor)),
            r == Some(self.cursor.row),
    {
        proof {
            lemma_insert_char_cursor(core_buffer.text(), self.cursor, self.c);
            lemma_nl_count_le_len(core_buffer.text());
        }
        core_buffer.insert_char(self.cursor, self.c);
        *cursor = if self.c == '\n' {
            Cursor { row: self.cursor.row + 1, col: 0 }
        } else {
            Cursor { row: self.cursor.row, col: self.cursor.col + 1 }
        };
        Some(self.cursor.row)
    }

    /// Takes the char out again.
    pub fn undo<B: CoreBuffer>(&self, core_buffer: &mut B, cursor: &mut Cursor, Ghost(
        before,
    ): Ghost<Seq<char>>) -> (r: Option<usize>)
        requires
            self.pre(before),
            old(core_buffer).text() == self.apply(before),
        ensures
            final(core_buffer).text() == before,
            *final(cursor) == self.cursor,
            cursor_valid(before, self.cursor),
            r == Some(self.cursor.row),
    {
        let ghost t = core_buffer.text();
        let ghost p = cursor_index(before, self.cursor);
        proof {
            lemma_insert_char_cursor(before, self.cursor, self.c);
            assert(t.take(p) + t.skip(p + 1) =~= before);
        }
        core_buffer.delete_range(
            (CursorBound::Included(self.cursor), CursorBound::Included(self.cursor)),
        );
        *cursor = self.cursor;
        Some(self.cursor.row)
    }
}

/// Cursor at which a range starts.
pub open spec fn bound_cursor(b: CursorBound) -> Cursor {
    match b {
        CursorBound::Included(c) => c,
        CursorBound::Excluded(c) => c,
        CursorBound::Unbounded => Cursor { row: 0, col: 0 },
    }
}

impl DeleteRange {
    pub closed spec fn range_spec(self) -> (CursorBound, CursorBound) {
        self.range
    }

    /// It holds what it took out of `s`, and where.
    pub closed spec fn performed_from(self, s: Seq<char>) -> bool {
        &&& self.orig matches Some(o) && o@ == range_text(s, self.range)
        &&& self.at == start_index(s, self.range.0)
    }

    pub fn new(range: (CursorBound, CursorBound)) -> (r: Self)
        ensures
            r.range_spec() == range,
    {
        Self { range, orig: None, at: 0 }
    }

    pub open spec fn pre(self, s: Seq<char>) -> bool {
        range_valid(s, self.range_spec())
    }

    pub open spec fn apply(self, s: Seq<char>) -> Seq<char> {
        remove_range(s, self.range_spec())
    }

    fn start_of<B: CoreBuffer>(core_buffer: &B, b: CursorBound) -> (i: usize)
        requires
            match b {
                CursorBound::Included(c) => cursor_valid(core_buffer.text(), c),
                CursorBound::Excluded(c) => cursor_valid(core_buffer.text(), c) && cursor_index(
                    core_buffer.text(),
                    c,
                ) < core_buffer.text().len(),
                CursorBound::Unbounded => true,
            },
        ensures
            i == start_index(core_buffer.text(), b),
    {
        match b {
            CursorBound::Included(c) => core_buffer.cursor_to_char(c),
            CursorBound::Excluded(c) => {
                let _len = core_buffer.len_chars();
                core_buffer.cursor_to_char(c) + 1
            },
            CursorBound::Unbounded => 0,
        }
    }

    /// Takes the range out, keeps it, and puts the cursor at its start.
    pub fn perform<B: CoreBuffer>(&mut self, core_buffer: &mut B, cursor: &mut Cursor) -> (r:
        Option<usize>)
        requires
            old(self).pre(old(core_buffer).text()),
        ensures
            final(self).range_spec() == old(self).range_spec(),
            final(self).performed_from(old(core_buffer).text()),
            final(core_buffer).text() == old(self).apply(old(core_buffer).text()),
            *final(cursor) == bound_cursor(old(self).range_spec().0),
            cursor_valid(final(core_buffer).text(), *final(cursor)),
            r == Some(bound_cursor(old(self).range_spec().0).row),
    {
        let ghost s = core_buffer.text();
        self.orig = Some(core_buffer.get_range(self.range));
        let at = Self::start_of(core_buffer, self.range.0);
        self.at = at;
        core_buffer.delete_range(self.range);
        let c = match self.range.0 {
            CursorBound::Included(c) => c,
            CursorBound::Excluded(c) => c,
            CursorBound::Unbounded => Cursor { row: 0, col: 0 },
        };
        proof {
            let t = core_buffer.text();
            assert(t.take(at as int) =~= s.take(at as int));
            match self.range.0 {
                CursorBound::Unbounded => {
                    lemma_valid_up_to_line_len(t, 0, 0);
                },
                _ => {
                    let p = cursor_index(s, c);
                    assert(t.take(p) =~= s.take(p));
                    lemma_cursor_prefix(s, t, c);
                },
            }
        }
        *cursor = c;
        Some(c.row)
    }

    /// Does the deletion again on the text it was first done to.
    pub fn redo<B: CoreBuffer>(&self, core_buffer: &mut B, cursor: &mut Cursor) -> (r: Option<
        usize,
    >)
        requires
            self.pre(old(core_buffer).text()),
            self.performed_from(old(core_buffer).text()),
        ensures
            final(core_buffer).text() == self.apply(old(core_buffer).text()),
            *final(cursor) == bound_cursor(self.range_spec().0),
            cursor_valid(final(core_buffer).text(), *final(cursor)),
            r == Some(bound_cursor(self.range_spec().0).row),
    {
        let ghost s = core_buffer.text();
        core_buffer.delete_range(self.range);
        let c = match self.range.0 {
            CursorBound::Included(c) => c,
            CursorBound::Excluded(c) => c,
            CursorBound::Unbounded => Cursor { row: 0, col: 0 },
        };
        proof {
            let t = core_buffer.text();
            match self.range.0 {
                CursorBound::Unbounded => {
                    lemma_valid_up_to_line_len(t, 0, 0);
                },
                _ => {
                    let p = cursor_index(s, c);
                    assert(t.take(p) =~= s.take(p));
                    lemma_cursor_prefix(s, t, c);
                },
            }
        }
        *cursor = c;
        Some(c.row)
    }

    /// Puts the text it took back where it was and the cursor at the start
    /// of the range.
    pub fn undo<B: CoreBuffer>(&self, core_buffer: &mut B, cursor: &mut Cursor, Ghost(
        before,
    ): Ghost<Seq<char>>) -> (r: Option<usize>)
        requires
            self.pre(before),
            self.performed_from(before),
            old(core_buffer).text() == self.apply(before),
        ensures
            final(core_buffer).text() == before,
            *final(cursor) == bound_cursor(self.range_spec().0),
            cursor_valid(before, *final(cursor)),
            r == Some(bound_cursor(self.range_spec().0).row),
    {
        let ghost t = core_buffer.text();
        let _len = core_buffer.len_chars();
        let at = self.at;
        let l = core_buffer.char_to_cursor(at);
        match &self.orig {
            Some(o) => {
                core_buffer.insert(l, o.as_str());
            },
            None => {},
        }
        let c = match self.range.0 {
            CursorBound::Included(c) => c,
            CursorBound::Excluded(c) => c,
            CursorBound::Unbounded => Cursor { row: 0, col: 0 },
        };
        proof {
            let b = crate::edit_core::buffer::end_index(before, self.range.1);
            assert(core_buffer.text() =~= before);
            match self.range.0 {
                CursorBound::Unbounded => {
                    lemma_valid_up_to_line_len(before, 0, 0);
                },
                _ => {},
            }
        }
        *cursor = c;
        Some(c.row)
    }
}

impl SetText {
    pub closed spec fn to_spec(self) -> Seq<char> {
        self.to@
    }

    /// It holds the text that it replaced.
    pub closed spec fn performed_from(self, s: Seq<char>) -> bool {
        self.from matches Some(f) && f@ == s
    }

    pub fn new(to: String) -> (r: Self)
        ensures
            r.to_spec() == to@,
    {
        Self { to, from: None }
    }

    pub open spec fn apply(self, s: Seq<char>) -> Seq<char> {
        self.to_spec()
    }

    /// Replaces the text and pulls the cursor back into it.
    pub fn perform<B: CoreBuffer>(&mut self, core_buffer: &mut B, cursor: &mut Cursor) -> (r:
        Option<usize>)
        ensures
            final(self).to_spec() == old(self).to_spec(),
            final(self).performed_from(old(core_buffer).text()),
            final(core_buffer).text() == old(self).to_spec(),
            *final(cursor) == clamp_cursor(final(core_buffer).text(), *old(cursor)),
            cursor_valid(final(core_buffer).text(), *final(cursor)),
            r == Some(0usize),
    {
        self.from = Some(core_buffer.to_string());
        *core_buffer = B::from_str(self.to.as_str());
        *cursor = clamp_cursor_exec(core_buffer, *cursor);
        Some(0)
    }

    /// Sets the text again on the text it was first done to.
    pub fn redo<B: CoreBuffer>(&self, core_buffer: &mut B, cursor: &mut Cursor) -> (r: Option<
        usize,
    >)
        ensures
            final(core_buffer).text() == self.to_spec(),
            *final(cursor) == clamp_cursor(final(core_buffer).text(), *old(cursor)),
            cursor_valid(final(core_buffer).text(), *final(cursor)),
            r == Some(0usize),
    {
        *core_buffer = B::from_str(self.to.as_str());
        *cursor = clamp_cursor_exec(core_buffer, *cursor);
        Some(0)
    }

    /// Brings the replaced text back and pulls the cursor into it.
    pub fn undo<B: CoreBuffer>(&self, core_buffer: &mut B, cursor: &mut Cursor, Ghost(
        before,
    ): Ghost<Seq<char>>) -> (r: Option<usize>)
        requires
            self.performed_from(before),
        ensures
            final(core_buffer).text() == before,
            *final(cursor) == clamp_cursor(before, *old(cursor)),
            cursor_valid(before, *final(cursor)),
            r == Some(0usize),
    {
        match &self.from {
            Some(f) => {
                *core_buffer = B::from_str(f.as_str());
            },
            None => {},
        }
        *cursor = clamp_cursor_exec(core_buffer, *cursor);
        Some(0)
    }
}

/// A recorded edit.
#[derive(Debug)]
pub enum Operation {
    InsertChar(InsertChar),
    DeleteRange(DeleteRange),
    SetText(SetText),
}

impl Operation {
    /// The edit can be done on `s`.
    pub open spec fn pre(self, s: Seq<char>) -> bool {
        match self {
            Operation::InsertChar(o) => o.pre(s),
            Operation::DeleteRange(o) => o.pre(s),
            Operation::SetText(_) => true,
        }
    }

    /// The text that the edit makes of `s`.
    pub open spec fn apply(self, s: Seq<char>) -> Seq<char> {
        match self {
            Operation::InsertChar(o) => o.apply(s),
            Operation::DeleteRange(o) => o.apply(s),
            Operation::SetText(o) => o.apply(s),
        }
    }

    /// The edit holds what it needs to be undone, after it was done on `s`.
    pub open spec fn performed_from(self, s: Seq<char>) -> bool {
        match self {
            Operation::InsertChar(_) => true,
            Operation::DeleteRange(o) => o.performed_from(s),
            Operation::SetText(o) => o.performed_from(s),
        }
    }

    /// Where the cursor is after the edit, given where it was.
    pub open spec fn cursor_after(self, cur: Cursor) -> Cursor {
        match self {
            Operation::InsertChar(o) => cursor_after_insert(o.cursor, o.c),
            Operation::DeleteRange(o) => bound_cursor(o.range_spec().0),
            Operation::SetText(o) => clamp_cursor(o.to_spec(), cur),
        }
    }

    /// Where undoing the edit puts the cursor, where that does not depend on
    /// where the cursor was.
    pub open spec fn undo_cursor(self) -> Option<Cursor> {
        match self {
            Operation::InsertChar(o) => Some(o.cursor),
            Operation::DeleteRange(o) => Some(bound_cursor(o.range_spec().0)),
            Operation::SetText(_) => None,
        }
    }

    /// Where doing the edit again puts the cursor, where that does not depend
    /// on where the cursor was.
    pub open spec fn redo_cursor(self) -> Option<Cursor> {
        match self {
            Operation::InsertChar(o) => Some(cursor_after_insert(o.cursor, o.c)),
            Operation::DeleteRange(o) => Some(bound_cursor(o.range_spec().0)),
            Operation::SetText(_) => None,
        }
    }

    /// Does the edit for the first time; gives the first line that changed.
    pub fn perform<B: CoreBuffer>(&mut self, core_buffer: &mut B, cursor: &mut Cursor) -> (r:
        Option<usize>)
        requires
            old(self).pre(old(core_buffer).text()),
        ensures
            final(self).pre(old(core_buffer).text()),
            final(self).performed_from(old(core_buffer).text()),
            forall|t: Seq<char>| #[trigger] final(self).apply(t) == old(self).apply(t),
            forall|t: Seq<char>| #[trigger] final(self).pre(t) == old(self).pre(t),
            final(core_buffer).text() == old(self).apply(old(core_buffer).text()),
            cursor_valid(final(core_buffer).text(), *final(cursor)),
            *final(cursor) == old(self).cursor_after(*old(cursor)),
            final(self).undo_cursor() == old(self).undo_cursor(),
            final(self).redo_cursor() == old(self).redo_cursor(),
            forall|c: Cursor| #[trigger] final(self).cursor_after(c) == old(self).cursor_after(c),
            r is Some,
    {
        match self {
            Operation::InsertChar(o) => o.perform(core_buffer, cursor),
            Operation::DeleteRange(o) => o.perform(core_buffer, cursor),
            Operation::SetText(o) => o.perform(core_buffer, cursor),
        }
    }

    /// Does the edit again on the text it was first done to.
    pub fn redo<B: CoreBuffer>(&self, core_buffer: &mut B, cursor: &mut Cursor) -> (r: Option<
        usize,
    >)
        requires
            self.pre(old(core_buffer).text()),
            self.performed_from(old(core_buffer).text()),
        ensures
            final(core_buffer).text() == self.apply(old(core_buffer).text()),
            cursor_valid(final(core_buffer).text(), *final(cursor)),
            *final(cursor) == self.cursor_after(*old(cursor)),
            r is Some,
    {
        match self {
            Operation::InsertChar(o) => o.perform(core_buffer, cursor),
            Operation::DeleteRange(o) => o.redo(core_buffer, cursor),
            Operation::SetText(o) => o.redo(core_buffer, cursor),
        }
    }

    /// Takes the edit back: the text is `before` again.
    pub fn undo<B: CoreBuffer>(&self, core_buffer: &mut B, cursor: &mut Cursor, before: Ghost<
        Seq<char>,
    >) -> (r: Option<usize>)
        requires
            self.pre(before@),
            self.performed_from(before@),
            old(core_buffer).text() == self.apply(before@),
        ensures
            final(core_buffer).text() == before@,
            cursor_valid(before@, *final(cursor)),
            *final(cursor) == match self.undo_cursor() {
                Some(c) => c,
                None => clamp_cursor(before@, *old(cursor)),
            },
            r is Some,
    {
        match self {
            Operation::InsertChar(o) => o.undo(core_buffer, cursor, before),
            Operation::DeleteRange(o) => o.undo(core_buffer, cursor, before),
            Operation::SetText(o) => o.undo(core_buffer, cursor, before),
        }
    }
}

} // verus!
