//! The editing core: cursors, the text buffer and the edit history.
use vstd::prelude::*;

use self::buffer::{
    char_at_spec, cursor_after_insert, cursor_index, cursor_valid, insert_at, range_text,
    range_valid, remove_range, CoreBuffer,
};
use self::model::{
    lemma_line_len_bounds, lemma_on_line, lemma_valid_before_next_line, lemma_valid_up_to_line_len,
    line_count, line_len, line_start,
};
use crate::char_class::{is_alphanumeric, is_alphanumeric_spec};
use crate::indent::{next_indent_level, next_indent_level_spec};
use crate::parenthesis::{is_paren_left, is_paren_left_spec, is_paren_right, is_paren_right_spec};
use self::operation::{clamp_cursor, DeleteRange, InsertChar, Operation, SetText};

pub mod buffer;
pub mod model;
pub mod motion_laws;
pub mod operation;
pub mod ropey_core_buffer;

verus! {

/// A change counter: it moves on every edit, wrapping around.
#[derive(Debug, Clone, Copy, PartialEq, Eq, Structural, Default)]
pub struct Id(pub usize);

impl Id {
    pub open spec fn next_spec(self) -> Id {
        Id(if self.0 == usize::MAX { 0 } else { (self.0 + 1) as usize })
    }

    pub fn inc(&mut self)
        ensures
            *final(self) == old(self).next_spec(),
    {
        self.0 = self.0.wrapping_add(1);
    }
}

/// A position in the text: a line and a char column in it.
#[derive(Debug, Clone, Copy, PartialEq, Eq, Structural, PartialOrd, Ord, Hash)]
pub struct Cursor {
    pub row: usize,
    pub col: usize,
}

/// Lexicographic order of cursors, by line then by column.
pub open spec fn cursor_lt(a: Cursor, b: Cursor) -> bool {
    a.row < b.row || (a.row == b.row && a.col < b.col)
}

pub open spec fn cursor_le(a: Cursor, b: Cursor) -> bool {
    cursor_lt(a, b) || a == b
}

pub open spec fn cursor_min(a: Cursor, b: Cursor) -> Cursor {
    if cursor_le(a, b) { a } else { b }
}

pub open spec fn cursor_max(a: Cursor, b: Cursor) -> Cursor {
    if cursor_le(a, b) { b } else { a }
}

impl Cursor {
    pub fn to_tuple(&self) -> (r: (usize, usize))
        ensures
            r == (self.row, self.col),
    {
        (self.row, self.col)
    }

    pub fn into_tuple(self) -> (r: (usize, usize))
        ensures
            r == (self.row, self.col),
    {
        (self.row, self.col)
    }

    /// `self < other` in line-then-column order.
    pub fn lt(&self, other: &Cursor) -> (r: bool)
        ensures
            r == cursor_lt(*self, *other),
    {
        self.row < other.row || (self.row == other.row && self.col < other.col)
    }

    /// `self <= other` in line-then-column order.
    pub fn le(&self, other: &Cursor) -> (r: bool)
        ensures
            r == cursor_le(*self, *other),
    {
        self.lt(other) || (self.row == other.row && self.col == other.col)
    }
}

pub fn min_cursor(a: Cursor, b: Cursor) -> (r: Cursor)
    ensures
        r == cursor_min(a, b),
{
    if a.le(&b) {
        a
    } else {
        b
    }
}

pub fn max_cursor(a: Cursor, b: Cursor) -> (r: Cursor)
    ensures
        r == cursor_max(a, b),
{
    if a.le(&b) {
        b
    } else {
        a
    }
}

/// Two ends of a selection, in either order.
#[derive(Debug, Clone, Copy, PartialEq, Eq, Structural)]
pub struct CursorRange(pub Cursor, pub Cursor);

impl CursorRange {
    pub fn new(l: Cursor, r: Cursor) -> (res: Self)
        ensures
            res == CursorRange(l, r),
    {
        CursorRange(l, r)
    }

    /// The earlier end.
    pub fn l(&self) -> (r: Cursor)
        ensures
            r == cursor_min(self.0, self.1),
    {
        min_cursor(self.0, self.1)
    }

    /// The later end.
    pub fn r(&self) -> (r: Cursor)
        ensures
            r == cursor_max(self.0, self.1),
    {
        max_cursor(self.0, self.1)
    }

    /// A mutable reference to the earlier end (the first one when both are equal).
    pub fn l_mut(&mut self) -> (r: &mut Cursor)
        ensures
            cursor_le(old(self).0, old(self).1) ==> *r == old(self).0 && *final(self) == CursorRange(
                *final(r),
                old(self).1,
            ),
            !cursor_le(old(self).0, old(self).1) ==> *r == old(self).1 && *final(self) == CursorRange(
                old(self).0,
                *final(r),
            ),
    {
        if self.0.le(&self.1) {
            &mut self.0
        } else {
            &mut self.1
        }
    }

    /// A mutable reference to the later end (the second one when both are equal).
    pub fn r_mut(&mut self) -> (r: &mut Cursor)
        ensures
            cursor_le(old(self).0, old(self).1) ==> *r == old(self).1 && *final(self) == CursorRange(
                old(self).0,
                *final(r),
            ),
            !cursor_le(old(self).0, old(self).1) ==> *r == old(self).0 && *final(self) == CursorRange(
                *final(r),
                old(self).1,
            ),
    {
        if self.0.le(&self.1) {
            &mut self.1
        } else {
            &mut self.0
        }
    }

    /// The cursor lies between the two ends, both included.
    pub fn contains(&self, cursor: Cursor) -> (r: bool)
        ensures
            r == (cursor_le(cursor_min(self.0, self.1), cursor) && cursor_le(
                cursor,
                cursor_max(self.0, self.1),
            )),
    {
        self.l().le(&cursor) && cursor.le(&self.r())
    }
}

/// One end of a range of text given by cursors.
#[derive(Debug, Clone, Copy, PartialEq, Eq, Structural)]
pub enum CursorBound {
    /// The char at the cursor belongs to the range.
    Included(Cursor),
    /// The char at the cursor is left out of the range.
    Excluded(Cursor),
    /// The range runs to the start (or the end) of the text.
    Unbounded,
}

/// The position one char further on: along the line, then to the start of
/// the next line; `None` at the end of the text.
pub open spec fn inc_spec(s: Seq<char>, c: Cursor) -> Option<Cursor> {
    if c.col < line_len(s, c.row as nat) {
        Some(Cursor { row: c.row, col: (c.col + 1) as usize })
    } else if c.row + 1 < line_count(s) {
        Some(Cursor { row: (c.row + 1) as usize, col: 0 })
    } else {
        None
    }
}

/// The position one char back: along the line, then to the end of the line
/// before; `None` at the start of the text.
pub open spec fn dec_spec(s: Seq<char>, c: Cursor) -> Option<Cursor> {
    if c.row == 0 && c.col == 0 {
        None
    } else if c.col == 0 {
        Some(Cursor { row: (c.row - 1) as usize, col: line_len(s, (c.row - 1) as nat) as usize })
    } else {
        Some(Cursor { row: c.row, col: (c.col - 1) as usize })
    }
}

pub proof fn lemma_inc_spec(s: Seq<char>, c: Cursor)
    requires
        cursor_valid(s, c),
        s.len() <= usize::MAX,
    ensures
        inc_spec(s, c) matches Some(n) ==> cursor_valid(s, n) && cursor_index(s, n) > cursor_index(
            s,
            c,
        ),
{
    lemma_valid_before_next_line(s, c.row as nat, c.col as nat);
    lemma_line_len_bounds(s, c.row as nat);
    crate::edit_core::model::lemma_nl_count_le_len(s);
    if c.col < line_len(s, c.row as nat) {
        lemma_valid_up_to_line_len(s, c.row as nat, (c.col + 1) as nat);
    } else if c.row + 1 < line_count(s) {
        lemma_valid_up_to_line_len(s, (c.row + 1) as nat, 0);
    }
}

pub proof fn lemma_dec_spec(s: Seq<char>, c: Cursor)
    requires
        cursor_valid(s, c),
        s.len() <= usize::MAX,
    ensures
        dec_spec(s, c) matches Some(n) ==> cursor_valid(s, n) && cursor_index(s, n) < cursor_index(
            s,
            c,
        ),
{
    lemma_valid_before_next_line(s, c.row as nat, c.col as nat);
    if c.row == 0 && c.col == 0 {
    } else if c.col == 0 {
        let r = (c.row - 1) as nat;
        lemma_line_len_bounds(s, r);
        lemma_valid_up_to_line_len(s, r, line_len(s, r));
        lemma_valid_before_next_line(s, r, line_len(s, r));
    } else {
        lemma_on_line(s, c.row as nat, cursor_index(s, c) - 1);
    }
}

/// Steps forward while `p` holds of the char under the cursor and a step is
/// possible.
pub open spec fn inc_while(s: Seq<char>, c: Cursor, p: spec_fn(Option<char>) -> bool) -> Cursor
    decreases s.len() - cursor_index(s, c),
    when cursor_valid(s, c) && cursor_index(s, c) <= s.len() && s.len() <= usize::MAX
{
    if p(char_at_spec(s, c)) {
        match inc_spec(s, c) {
            Some(n) => {
                proof {
                    lemma_inc_spec(s, c);
                }
                inc_while(s, n, p)
            },
            None => c,
        }
    } else {
        c
    }
}

/// Steps back while `p` holds of the char under the cursor and a step is
/// possible.
pub open spec fn dec_while(s: Seq<char>, c: Cursor, p: spec_fn(Option<char>) -> bool) -> Cursor
    decreases cursor_index(s, c),
    when cursor_valid(s, c) && cursor_index(s, c) >= 0 && s.len() <= usize::MAX
{
    if p(char_at_spec(s, c)) {
        match dec_spec(s, c) {
            Some(n) => {
                proof {
                    lemma_dec_spec(s, c);
                }
                dec_while(s, n, p)
            },
            None => c,
        }
    } else {
        c
    }
}

/// Like `inc_while`, but stops (and says so) right after a step that lands on
/// a closing bracket.
pub open spec fn inc_scan(s: Seq<char>, c: Cursor, p: spec_fn(Option<char>) -> bool) -> (
    bool,
    Cursor,
)
    decreases s.len() - cursor_index(s, c),
    when cursor_valid(s, c) && cursor_index(s, c) <= s.len() && s.len() <= usize::MAX
{
    if p(char_at_spec(s, c)) {
        match inc_spec(s, c) {
            Some(n) => {
                proof {
                    lemma_inc_spec(s, c);
                }
                if is_closing(char_at_spec(s, n)) {
                    (true, n)
                } else {
                    inc_scan(s, n, p)
                }
            },
            None => (false, c),
        }
    } else {
        (false, c)
    }
}

pub open spec fn is_word_char(o: Option<char>) -> bool {
    o matches Some(c) && is_alphanumeric_spec(c)
}

pub open spec fn is_opening(o: Option<char>) -> bool {
    o matches Some(c) && is_paren_left_spec(c)
}

pub open spec fn is_closing(o: Option<char>) -> bool {
    o matches Some(c) && is_paren_right_spec(c)
}

/// No char, or a word char.
pub open spec fn pred_word_or_none() -> spec_fn(Option<char>) -> bool {
    |o: Option<char>| o is None || is_word_char(o)
}

/// No char, or a char that is neither a word char nor an opening bracket.
pub open spec fn pred_gap_or_none() -> spec_fn(Option<char>) -> bool {
    |o: Option<char>| o is None || (!is_word_char(o) && !is_opening(o))
}

/// Not a word char (no char included).
pub open spec fn pred_not_word() -> spec_fn(Option<char>) -> bool {
    |o: Option<char>| !is_word_char(o)
}

/// A word char.
pub open spec fn pred_word() -> spec_fn(Option<char>) -> bool {
    |o: Option<char>| is_word_char(o)
}

/// `w`: past the word (or past an opening bracket), then past what is neither
/// a word char nor an opening bracket.
pub open spec fn w_spec(s: Seq<char>, c: Cursor) -> Cursor {
    let c1 = if is_opening(char_at_spec(s, c)) {
        match inc_spec(s, c) {
            Some(n) => n,
            None => c,
        }
    } else {
        inc_while(s, c, pred_word_or_none())
    };
    inc_while(s, c1, pred_gap_or_none())
}

/// `b`: one step back, back over what is not a word char, back over the word,
/// and onto its first char.
pub open spec fn b_spec(s: Seq<char>, c: Cursor) -> Cursor {
    let c1 = match dec_spec(s, c) {
        Some(n) => n,
        None => c,
    };
    let c2 = dec_while(s, c1, pred_not_word());
    let c3 = dec_while(s, c2, pred_word());
    if !is_word_char(char_at_spec(s, c3)) {
        match inc_spec(s, c3) {
            Some(n) => n,
            None => c3,
        }
    } else {
        c3
    }
}

/// `e`: one step on, over what is not a word char, over the word and back onto
/// its last char; a closing bracket met on the way stops it there.
pub open spec fn e_spec(s: Seq<char>, c: Cursor) -> Cursor {
    let c1 = match inc_spec(s, c) {
        Some(n) => n,
        None => c,
    };
    if is_closing(char_at_spec(s, c1)) {
        c1
    } else {
        let r2 = inc_scan(s, c1, pred_not_word());
        if r2.0 {
            r2.1
        } else {
            let r3 = inc_scan(s, r2.1, pred_word());
            if r3.0 {
                r3.1
            } else if !is_word_char(char_at_spec(s, r3.1)) {
                match dec_spec(s, r3.1) {
                    Some(n) => n,
                    None => r3.1,
                }
            } else {
                r3.1
            }
        }
    }
}

/// Cursor order and char index order agree on valid cursors.
pub proof fn lemma_cursor_order(s: Seq<char>, a: Cursor, b: Cursor)
    requires
        cursor_valid(s, a),
        cursor_valid(s, b),
    ensures
        cursor_lt(a, b) ==> cursor_index(s, a) < cursor_index(s, b),
        a == b ==> cursor_index(s, a) == cursor_index(s, b),
        cursor_index(s, a) < cursor_index(s, b) ==> cursor_lt(a, b),
{
    lemma_valid_before_next_line(s, a.row as nat, a.col as nat);
    lemma_valid_before_next_line(s, b.row as nat, b.col as nat);
    if a.row < b.row {
        crate::edit_core::model::lemma_line_start_mono(s, (a.row + 1) as nat, b.row as nat);
    }
    if b.row < a.row {
        crate::edit_core::model::lemma_line_start_mono(s, (b.row + 1) as nat, a.row as nat);
    }
}

/// Text of line `row` without its line-end chars.
pub open spec fn line_text(s: Seq<char>, row: nat) -> Seq<char> {
    s.subrange(line_start(s, row) as int, (line_start(s, row) + line_len(s, row)) as int)
}

/// `n` spaces.
pub open spec fn spaces(n: nat) -> Seq<char> {
    Seq::new(n, |i: int| ' ')
}

/// The text after doing `ops` in order, starting from `s`.
pub open spec fn run(ops: Seq<Operation>, s: Seq<char>) -> Seq<char>
    decreases ops.len(),
{
    if ops.len() == 0 {
        s
    } else {
        ops.last().apply(run(ops.drop_last(), s))
    }
}

/// Each of `ops`, done in order from `s`, could be done and holds what it
/// takes to be undone.
pub open spec fn chain_ok(ops: Seq<Operation>, s: Seq<char>) -> bool
    decreases ops.len(),
{
    if ops.len() == 0 {
        true
    } else {
        &&& chain_ok(ops.drop_last(), s)
        &&& ops.last().pre(run(ops.drop_last(), s))
        &&& ops.last().performed_from(run(ops.drop_last(), s))
    }
}

/// Where the cursor ends when `ops`, done in order from `s`, are taken back
/// last first while it stands at `cur`.
pub open spec fn undo_run_cursor(ops: Seq<Operation>, s: Seq<char>, cur: Cursor) -> Cursor
    decreases ops.len(),
{
    if ops.len() == 0 {
        cur
    } else {
        let next = match ops.last().undo_cursor() {
            Some(c) => c,
            None => clamp_cursor(run(ops.drop_last(), s), cur),
        };
        undo_run_cursor(ops.drop_last(), s, next)
    }
}

/// Where the cursor ends when `ops` are done again in order while it stands
/// at `cur`.
pub open spec fn redo_run_cursor(ops: Seq<Operation>, cur: Cursor) -> Cursor
    decreases ops.len(),
{
    if ops.len() == 0 {
        cur
    } else {
        ops.last().cursor_after(redo_run_cursor(ops.drop_last(), cur))
    }
}

proof fn lemma_chain_step(ops: Seq<Operation>, s: Seq<char>, k: int)
    requires
        chain_ok(ops, s),
        0 <= k < ops.len(),
    ensures
        chain_ok(ops.take(k + 1), s),
        ops[k].pre(run(ops.take(k), s)),
        ops[k].performed_from(run(ops.take(k), s)),
        run(ops.take(k + 1), s) == ops[k].apply(run(ops.take(k), s)),
    decreases ops.len(),
{
    if k + 1 == ops.len() {
        assert(ops.take(k + 1) =~= ops);
        assert(ops.drop_last() =~= ops.take(k));
    } else {
        lemma_chain_step(ops.drop_last(), s, k);
        assert(ops.drop_last().take(k + 1) =~= ops.take(k + 1));
        assert(ops.drop_last().take(k) =~= ops.take(k));
    }
    assert(ops.take(k + 1).drop_last() =~= ops.take(k));
}

proof fn lemma_run_full(ops: Seq<Operation>, s: Seq<char>)
    ensures
        ops.take(ops.len() as int) == ops,
{
    assert(ops.take(ops.len() as int) =~= ops);
}

/// The editing core: the text, the cursor, and the history of edits that undo
/// and redo walk through.
pub struct Core<B: CoreBuffer> {
    core_buffer: B,
    cursor: Cursor,
    history: Vec<Vec<Operation>>,
    history_tmp: Vec<Operation>,
    redo: Vec<Vec<Operation>>,
    buffer_changed: Id,
    /// Lines from this one on changed since the last draw.
    pub dirty_from: usize,
    past: Ghost<Seq<Seq<char>>>,
    tmp_base: Ghost<Seq<char>>,
    future: Ghost<Seq<Seq<char>>>,
}

impl<B: CoreBuffer> Core<B> {
    /// The text.
    pub closed spec fn text(&self) -> Seq<char> {
        self.core_buffer.text()
    }

    /// The cursor.
    pub closed spec fn cur(&self) -> Cursor {
        self.cursor
    }

    pub closed spec fn changed_id(&self) -> Id {
        self.buffer_changed
    }

    /// Edits were made since the last commit.
    pub closed spec fn pending(&self) -> bool {
        self.history_tmp@.len() > 0
    }

    /// The texts that successive undos bring back, the next one last.
    pub closed spec fn undo_targets(&self) -> Seq<Seq<char>> {
        if self.history_tmp@.len() > 0 {
            self.past@.push(self.tmp_base@)
        } else {
            self.past@
        }
    }

    /// The texts that successive redos bring back, the next one last.
    pub closed spec fn redo_targets(&self) -> Seq<Seq<char>> {
        self.future@
    }

    /// The group of edits that the next undo takes back.
    closed spec fn undo_group(&self) -> Seq<Operation> {
        if self.history_tmp@.len() > 0 {
            self.history_tmp@
        } else if self.history@.len() > 0 {
            self.history@.last()@
        } else {
            Seq::empty()
        }
    }

    /// The text that the group the next undo takes back was done from.
    closed spec fn undo_group_start(&self) -> Seq<char> {
        if self.history_tmp@.len() > 0 {
            self.tmp_base@
        } else if self.past@.len() > 0 {
            self.past@.last()
        } else {
            self.core_buffer.text()
        }
    }

    /// Where the next undo puts a cursor that stands at `cur`.
    pub closed spec fn undo_cursor_from(&self, cur: Cursor) -> Cursor {
        undo_run_cursor(self.undo_group(), self.undo_group_start(), cur)
    }

    /// Where the next redo puts a cursor that stands at `cur`.
    pub closed spec fn redo_cursor_from(&self, cur: Cursor) -> Cursor {
        if self.redo@.len() > 0 {
            redo_run_cursor(self.redo@.last()@, cur)
        } else {
            cur
        }
    }

    /// Where the next undo puts the cursor, where the first edit of the group
    /// that it takes back fixes that.
    pub closed spec fn undo_cursor(&self) -> Option<Cursor> {
        let g = self.undo_group();
        if g.len() > 0 {
            g[0].undo_cursor()
        } else {
            None
        }
    }

    /// Where doing again the group that the next undo takes back puts the
    /// cursor, where the last edit of that group fixes it.
    pub closed spec fn undo_group_end(&self) -> Option<Cursor> {
        let g = self.undo_group();
        if g.len() > 0 {
            g.last().redo_cursor()
        } else {
            None
        }
    }

    /// Where the next redo puts the cursor, where the last edit of the group
    /// that it does again fixes that.
    pub closed spec fn redo_cursor(&self) -> Option<Cursor> {
        if self.redo@.len() > 0 && self.redo@.last()@.len() > 0 {
            self.redo@.last()@.last().redo_cursor()
        } else {
            None
        }
    }

    closed spec fn hist_end(&self, i: int) -> Seq<char> {
        if i + 1 < self.history@.len() {
            self.past@[i + 1]
        } else {
            self.tmp_base@
        }
    }

    closed spec fn redo_start(&self, j: int) -> Seq<char> {
        if j + 1 < self.redo@.len() {
            self.future@[j + 1]
        } else {
            self.core_buffer.text()
        }
    }

    /// The cursor stands in the text, and every recorded edit can be taken
    /// back (and done again) to reach the texts it was recorded between.
    pub closed spec fn wf(&self) -> bool {
        &&& cursor_valid(self.core_buffer.text(), self.cursor)
        &&& self.core_buffer.text().len() <= usize::MAX
        &&& self.past@.len() == self.history@.len()
        &&& self.future@.len() == self.redo@.len()
        &&& forall|i: int|
            0 <= i < self.history@.len() ==> chain_ok(#[trigger] self.history@[i]@, self.past@[i])
                && run(self.history@[i]@, self.past@[i]) == self.hist_end(i)
        &&& chain_ok(self.history_tmp@, self.tmp_base@)
        &&& run(self.history_tmp@, self.tmp_base@) == self.core_buffer.text()
        &&& self.redo@.len() > 0 ==> self.history_tmp@.len() == 0
        &&& forall|j: int|
            0 <= j < self.redo@.len() ==> chain_ok(#[trigger] self.redo@[j]@, self.redo_start(j))
                && run(self.redo@[j]@, self.redo_start(j)) == self.future@[j]
    }

    fn from_buffer(core_buffer: B) -> (r: Self)
        ensures
            r.wf(),
            r.text() == core_buffer.text(),
            r.cur() == (Cursor { row: 0, col: 0 }),
            r.undo_targets().len() == 0,
            r.redo_targets().len() == 0,
            !r.pending(),
    {
        proof {
            crate::edit_core::model::lemma_valid_up_to_line_len(core_buffer.text(), 0, 0);
        }
        let ghost t = core_buffer.text();
        let _len = core_buffer.len_chars();
        Self {
            core_buffer,
            cursor: Cursor { row: 0, col: 0 },
            history: Vec::new(),
            history_tmp: Vec::new(),
            redo: Vec::new(),
            buffer_changed: Id(1),
            dirty_from: 0,
            past: Ghost(Seq::empty()),
            tmp_base: Ghost(t),
            future: Ghost(Seq::empty()),
        }
    }

    /// An empty text with no history.
    pub fn new() -> (r: Self)
        ensures
            r.wf(),
            r.text() == Seq::<char>::empty(),
            r.cur() == (Cursor { row: 0, col: 0 }),
            r.undo_targets().len() == 0,
            r.redo_targets().len() == 0,
            !r.pending(),
    {
        Self::from_buffer(B::new())
    }

    /// The text that `bytes` encode in UTF-8, with no history; `None` when
    /// they are not UTF-8.
    pub fn from_reader(bytes: &[u8]) -> (r: Option<Self>)
        ensures
            r is Some <==> vstd::utf8::valid_utf8(bytes@),
            r matches Some(c) ==> {
                &&& c.wf()
                &&& c.text() == vstd::utf8::decode_utf8(bytes@)
                &&& c.cur() == Cursor { row: 0, col: 0 }
                &&& c.undo_targets().len() == 0
                &&& c.redo_targets().len() == 0
            },
    {
        match B::from_reader(bytes) {
            Some(b) => Some(Self::from_buffer(b)),
            None => None,
        }
    }

    /// Records that the lines before `row` are drawn with their current
    /// text, so highlighting need only be redone from `row` on.
    pub fn set_dirty_from(&mut self, row: usize)
        requires
            old(self).wf(),
        ensures
            final(self).moved_from(old(self)),
            final(self).cur() == old(self).cur(),
            final(self).dirty_line() == row,
    {
        self.dirty_from = row;
    }

    /// The first line whose highlighting is out of date.
    pub closed spec fn dirty_line(&self) -> usize {
        self.dirty_from
    }

    pub fn buffer_changed(&self) -> (r: Id)
        ensures
            r == self.changed_id(),
    {
        self.buffer_changed
    }

    pub fn core_buffer(&self) -> (r: &B)
        ensures
            r.text() == self.text(),
    {
        &self.core_buffer
    }

    pub fn cursor(&self) -> (r: Cursor)
        ensures
            r == self.cur(),
    {
        self.cursor
    }

    /// Moves the cursor to a column of a line of the text, at most the
    /// line's length.
    pub fn set_cursor(&mut self, cursor: Cursor)
        requires
            old(self).wf(),
            cursor.row < line_count(old(self).text()),
            cursor.col <= line_len(old(self).text(), cursor.row as nat),
        ensures
            final(self).wf(),
            final(self).cur() == cursor,
            final(self).text() == old(self).text(),
            final(self).undo_targets() == old(self).undo_targets(),
            final(self).redo_targets() == old(self).redo_targets(),
            final(self).pending() == old(self).pending(),
            final(self).changed_id() == old(self).changed_id(),
            final(self).moved_from(old(self)),
    {
        proof {
            lemma_valid_up_to_line_len(self.text(), cursor.row as nat, cursor.col as nat);
        }
        self.place_cursor(cursor);
    }

    /// Moves the cursor to any position of a line before its line break.
    pub(crate) fn place_cursor(&mut self, cursor: Cursor)
        requires
            old(self).wf(),
            cursor_valid(old(self).text(), cursor),
        ensures
            final(self).wf(),
            final(self).cur() == cursor,
            final(self).text() == old(self).text(),
            final(self).undo_targets() == old(self).undo_targets(),
            final(self).redo_targets() == old(self).redo_targets(),
            final(self).pending() == old(self).pending(),
            final(self).changed_id() == old(self).changed_id(),
            final(self).moved_from(old(self)),
    {
        self.cursor = cursor;
    }

    pub fn get_string(&self) -> (r: String)
        ensures
            r@ == self.text(),
    {
        self.core_buffer.to_string()
    }

    pub fn get_string_range(&self, range: (CursorBound, CursorBound)) -> (r: String)
        requires
            range_valid(self.text(), range),
        ensures
            r@ == range_text(self.text(), range),
    {
        self.core_buffer.get_range(range)
    }

    /// Records and does an edit.
    fn perform(&mut self, op: Operation)
        requires
            old(self).wf(),
            op.pre(old(self).text()),
        ensures
            final(self).wf(),
            final(self).text() == op.apply(old(self).text()),
            final(self).cur() == op.cursor_after(old(self).cur()),
            final(self).pending(),
            final(self).undo_targets() == (if old(self).pending() {
                old(self).undo_targets()
            } else {
                old(self).undo_targets().push(old(self).text())
            }),
            final(self).redo_targets() == Seq::<Seq<char>>::empty(),
            final(self).changed_id() == old(self).changed_id().next_spec(),
            final(self).undo_cursor() == (if old(self).pending() {
                old(self).undo_cursor()
            } else {
                op.undo_cursor()
            }),
            final(self).undo_group_end() == op.redo_cursor(),
    {
        let mut op = op;
        let ghost s = self.core_buffer.text();
        if self.history_tmp.len() == 0 {
            self.tmp_base = Ghost(s);
        }
        let l = op.perform(&mut self.core_buffer, &mut self.cursor);
        if let Some(l) = l {
            if l < self.dirty_from {
                self.dirty_from = l;
            }
        }
        let ghost tmp_old = self.history_tmp@;
        self.history_tmp.push(op);
        proof {
            assert(self.history_tmp@.drop_last() =~= tmp_old);
            if tmp_old.len() > 0 {
                assert(self.history_tmp@[0] == tmp_old[0]);
            }
        }
        self.redo.clear();
        self.future = Ghost(Seq::empty());
        self.buffer_changed.inc();
        let _len = self.core_buffer.len_chars();
    }

    /// Closes the group of edits made since the last commit: one undo takes
    /// them all back.
    pub fn commit(&mut self)
        requires
            old(self).wf(),
        ensures
            final(self).wf(),
            final(self).text() == old(self).text(),
            final(self).cur() == old(self).cur(),
            !final(self).pending(),
            final(self).undo_targets() == old(self).undo_targets(),
            final(self).redo_targets() == old(self).redo_targets(),
            final(self).changed_id() == old(self).changed_id(),
            final(self).undo_cursor() == old(self).undo_cursor(),
            final(self).undo_group_end() == old(self).undo_group_end(),
            final(self).redo_cursor() == old(self).redo_cursor(),
            forall|c: Cursor| #[trigger]
                final(self).undo_cursor_from(c) == old(self).undo_cursor_from(c),
    {
        if self.history_tmp.len() != 0 {
            let mut h = Vec::new();
            std::mem::swap(&mut self.history_tmp, &mut h);
            let ghost base = self.tmp_base@;
            self.history.push(h);
            self.past = Ghost(self.past@.push(base));
            self.tmp_base = Ghost(self.core_buffer.text());
            proof {
                assert forall|i: int| 0 <= i < self.history@.len() implies chain_ok(
                    #[trigger] self.history@[i]@,
                    self.past@[i],
                ) && run(self.history@[i]@, self.past@[i]) == self.hist_end(i) by {
                    if i + 1 < self.history@.len() {
                    }
                }
                assert(self.undo_targets() =~= old(self).undo_targets());
            }
        }
    }

    /// What undo makes of a core: the text goes back to the next undo target,
    /// and the text it leaves becomes the next redo target.
    pub open spec fn undo_post(before: Self, after: Self) -> bool {
        &&& after.wf()
        &&& !after.pending()
        &&& {
            let u = before.undo_targets();
            if u.len() > 0 {
                &&& after.text() == u.last()
                &&& after.undo_targets() == u.drop_last()
                &&& after.redo_targets() == before.redo_targets().push(before.text())
                &&& after.changed_id() == before.changed_id().next_spec()
                &&& after.cur() == before.undo_cursor_from(before.cur())
                &&& before.undo_cursor() matches Some(c) ==> after.cur() == c
                &&& after.redo_cursor() == before.undo_group_end()
            } else {
                &&& after.text() == before.text()
                &&& after.cur() == before.cur()
                &&& after.undo_targets() == u
                &&& after.redo_targets() == before.redo_targets()
                &&& after.changed_id() == before.changed_id()
            }
        }
    }

    /// What redo makes of a core: the text goes to the next redo target, and
    /// the text it leaves becomes the next undo target.
    pub open spec fn redo_post(before: Self, after: Self) -> bool {
        &&& after.wf()
        &&& {
            let r = before.redo_targets();
            if r.len() > 0 {
                &&& after.text() == r.last()
                &&& after.redo_targets() == r.drop_last()
                &&& after.undo_targets() == before.undo_targets().push(before.text())
                &&& !after.pending()
                &&& after.changed_id() == before.changed_id().next_spec()
                &&& after.cur() == before.redo_cursor_from(before.cur())
                &&& before.redo_cursor() matches Some(c) ==> after.cur() == c
            } else {
                &&& after.text() == before.text()
                &&& after.cur() == before.cur()
                &&& after.redo_targets() == r
                &&& after.undo_targets() == before.undo_targets()
                &&& after.pending() == before.pending()
                &&& after.changed_id() == before.changed_id()
            }
        }
    }

    /// Takes back the last group of edits (closing the open one first).
    pub fn undo(&mut self)
        requires
            old(self).wf(),
        ensures
            Self::undo_post(*old(self), *final(self)),
    {
        self.commit();
        let ghost s = self.core_buffer.text();
        let ghost c0 = *self;
        if let Some(ops) = self.history.pop() {
            let ghost n = self.past@.len() - 1;
            let ghost start = self.past@[n];
            assert(chain_ok(ops@, start) && run(ops@, start) == s) by {
                assert(c0.wf());
                assert(c0.history@[n as int] == ops);
            }
            let ghost c1 = *self;
            let mut k = ops.len();
            proof {
                lemma_run_full(ops@, start);
            }
            while k > 0
                invariant
                    k <= ops@.len(),
                    chain_ok(ops@, start),
                    self.core_buffer.text() == run(ops@.take(k as int), start),
                    cursor_valid(self.core_buffer.text(), self.cursor),
                    k == 0 && ops@.len() > 0 ==> (ops@[0].undo_cursor() matches Some(c)
                        ==> self.cursor == c),
                    undo_run_cursor(ops@.take(k as int), start, self.cursor) == undo_run_cursor(
                        ops@,
                        start,
                        c1.cursor,
                    ),
                    self.history == c1.history,
                    self.history_tmp == c1.history_tmp,
                    self.redo == c1.redo,
                    self.past == c1.past,
                    self.future == c1.future,
                    self.tmp_base == c1.tmp_base,
                    self.buffer_changed == c1.buffer_changed,
                decreases k,
            {
                proof {
                    lemma_chain_step(ops@, start, k - 1);
                    assert(ops@.take(k as int).drop_last() =~= ops@.take(k - 1));
                    assert(ops@.take(k as int).last() == ops@[k - 1]);
                }
                let l = ops[k - 1].undo(
                    &mut self.core_buffer,
                    &mut self.cursor,
                    Ghost(run(ops@.take(k - 1), start)),
                );
                if let Some(l) = l {
                    if l < self.dirty_from {
                        self.dirty_from = l;
                    }
                }
                k = k - 1;
            }
            proof {
                assert(ops@.take(0) =~= Seq::<Operation>::empty());
                assert(self.cursor == undo_run_cursor(ops@, start, c1.cursor));
                assert(c0.undo_group() == ops@);
                assert(c0.undo_group_start() == start);
                assert(c0.undo_cursor_from(c0.cursor) == old(self).undo_cursor_from(
                    old(self).cursor,
                ));
            }
            let _len = self.core_buffer.len_chars();
            self.redo.push(ops);
            self.past = Ghost(self.past@.drop_last());
            self.tmp_base = Ghost(start);
            self.future = Ghost(self.future@.push(s));
            self.buffer_changed.inc();
            proof {
                assert forall|j: int| 0 <= j < self.redo@.len() implies chain_ok(
                    #[trigger] self.redo@[j]@,
                    self.redo_start(j),
                ) && run(self.redo@[j]@, self.redo_start(j)) == self.future@[j] by {
                    if j + 1 < self.redo@.len() {
                        assert(self.redo@[j] == c0.redo@[j]);
                    }
                }
                assert forall|i: int| 0 <= i < self.history@.len() implies chain_ok(
                    #[trigger] self.history@[i]@,
                    self.past@[i],
                ) && run(self.history@[i]@, self.past@[i]) == self.hist_end(i) by {
                    assert(self.history@[i] == c0.history@[i]);
                }
            }
        }
    }

    /// Does again the last group of edits that undo took back.
    pub fn redo(&mut self)
        requires
            old(self).wf(),
        ensures
            Self::redo_post(*old(self), *final(self)),
    {
        let ghost s = self.core_buffer.text();
        if let Some(ops) = self.redo.pop() {
            let ghost n = self.future@.len() - 1;
            let ghost end = self.future@[n];
            assert(chain_ok(ops@, s) && run(ops@, s) == end) by {
                assert(old(self).wf());
                assert(old(self).redo@[n as int] == ops);
            }
            let ghost c1 = *self;
            let mut k: usize = 0;
            proof {
                assert(ops@.take(0) =~= Seq::<Operation>::empty());
            }
            while k < ops.len()
                invariant
                    k <= ops@.len(),
                    chain_ok(ops@, s),
                    self.core_buffer.text() == run(ops@.take(k as int), s),
                    cursor_valid(self.core_buffer.text(), self.cursor),
                    k > 0 ==> (ops@[k - 1].redo_cursor() matches Some(c) ==> self.cursor == c),
                    self.cursor == redo_run_cursor(ops@.take(k as int), c1.cursor),
                    self.history == c1.history,
                    self.history_tmp == c1.history_tmp,
                    self.redo == c1.redo,
                    self.past == c1.past,
                    self.future == c1.future,
                    self.tmp_base == c1.tmp_base,
                    self.buffer_changed == c1.buffer_changed,
                decreases ops@.len() - k,
            {
                proof {
                    lemma_chain_step(ops@, s, k as int);
                    assert(ops@.take(k + 1).drop_last() =~= ops@.take(k as int));
                    assert(ops@.take(k + 1).last() == ops@[k as int]);
                }
                let l = ops[k].redo(&mut self.core_buffer, &mut self.cursor);
                if let Some(l) = l {
                    if l < self.dirty_from {
                        self.dirty_from = l;
                    }
                }
                k = k + 1;
            }
            proof {
                lemma_run_full(ops@, s);
            }
            let _len = self.core_buffer.len_chars();
            self.history.push(ops);
            self.past = Ghost(self.past@.push(s));
            self.tmp_base = Ghost(end);
            self.future = Ghost(self.future@.drop_last());
            self.buffer_changed.inc();
            proof {
                assert forall|j: int| 0 <= j < self.redo@.len() implies chain_ok(
                    #[trigger] self.redo@[j]@,
                    self.redo_start(j),
                ) && run(self.redo@[j]@, self.redo_start(j)) == self.future@[j] by {
                    assert(self.redo@[j] == old(self).redo@[j]);
                }
                assert forall|i: int| 0 <= i < self.history@.len() implies chain_ok(
                    #[trigger] self.history@[i]@,
                    self.past@[i],
                ) && run(self.history@[i]@, self.past@[i]) == self.hist_end(i) by {
                    if i + 1 < self.history@.len() {
                        assert(self.history@[i] == old(self).history@[i]);
                    }
                }
            }
        }
    }

    /// A well-formed core's cursor stands in its text.
    pub proof fn lemma_wf(&self)
        requires
            self.wf(),
        ensures
            cursor_valid(self.text(), self.cur()),
            self.text().len() <= usize::MAX,
    {
    }

    /// Only the cursor moved (or nothing happened).
    pub open spec fn moved_from(&self, before: &Self) -> bool {
        &&& self.wf()
        &&& self.text() == before.text()
        &&& self.undo_targets() == before.undo_targets()
        &&& self.redo_targets() == before.redo_targets()
        &&& self.pending() == before.pending()
        &&& self.changed_id() == before.changed_id()
        &&& self.undo_cursor() == before.undo_cursor()
        &&& self.undo_group_end() == before.undo_group_end()
        &&& self.redo_cursor() == before.redo_cursor()
    }

    /// One or more edits were recorded in the open group.
    pub open spec fn edit_recorded(&self, before: &Self) -> bool {
        &&& self.wf()
        &&& self.pending()
        &&& self.undo_targets() == (if before.pending() {
            before.undo_targets()
        } else {
            before.undo_targets().push(before.text())
        })
        &&& self.redo_targets() == Seq::<Seq<char>>::empty()
        &&& before.pending() ==> self.undo_cursor() == before.undo_cursor()
    }

    pub fn len_lines(&self) -> (n: usize)
        ensures
            n == line_count(self.text()),
    {
        self.core_buffer.len_lines()
    }

    pub fn len_chars(&self) -> (n: usize)
        ensures
            n == self.text().len(),
    {
        self.core_buffer.len_chars()
    }

    pub fn len_bytes(&self) -> (n: usize)
        ensures
            n == vstd::utf8::encode_utf8(self.text()).len(),
    {
        self.core_buffer.len_bytes()
    }

    /// Length of a line without its line-end chars.
    pub fn len_line(&self, row: usize) -> (n: usize)
        requires
            row < line_count(self.text()),
        ensures
            n == line_len(self.text(), row as nat),
    {
        self.core_buffer.len_line(row)
    }

    /// Length of the cursor's line without its line-end chars.
    pub fn len_current_line(&self) -> (n: usize)
        requires
            self.wf(),
        ensures
            n == line_len(self.text(), self.cur().row as nat),
    {
        self.core_buffer.len_line(self.cursor.row)
    }

    pub fn char_at(&self, cursor: Cursor) -> (r: Option<char>)
        ensures
            r == char_at_spec(self.text(), cursor),
    {
        self.core_buffer.char_at(cursor)
    }

    pub fn char_at_cursor(&self) -> (r: Option<char>)
        ensures
            r == char_at_spec(self.text(), self.cur()),
    {
        self.core_buffer.char_at(self.cursor)
    }

    /// The cursor's line without its line-end chars.
    pub fn current_line(&self) -> (r: String)
        requires
            self.wf(),
        ensures
            r@ == line_text(self.text(), self.cur().row as nat),
    {
        let row = self.cursor.row;
        let n = self.core_buffer.len_line(row);
        proof {
            lemma_valid_up_to_line_len(self.text(), row as nat, 0);
            lemma_valid_up_to_line_len(self.text(), row as nat, n as nat);
            lemma_valid_before_next_line(self.text(), row as nat, n as nat);
            lemma_line_len_bounds(self.text(), row as nat);
        }
        self.core_buffer.get_range(
            (
                CursorBound::Included(Cursor { row, col: 0 }),
                CursorBound::Excluded(Cursor { row, col: n }),
            ),
        )
    }

    /// Text of a line without its line-end chars.
    pub fn line(&self, row: usize) -> (r: String)
        requires
            row < line_count(self.text()),
        ensures
            r@ == line_text(self.text(), row as nat),
    {
        let n = self.core_buffer.len_line(row);
        proof {
            lemma_valid_up_to_line_len(self.text(), row as nat, 0);
            lemma_valid_up_to_line_len(self.text(), row as nat, n as nat);
            lemma_line_len_bounds(self.text(), row as nat);
            crate::edit_core::model::lemma_line_start_le_len(self.text(), (row + 1) as nat);
        }
        self.core_buffer.get_range(
            (
                CursorBound::Included(Cursor { row, col: 0 }),
                CursorBound::Excluded(Cursor { row, col: n }),
            ),
        )
    }

    /// `h`: one column left, if not at the start of the line.
    pub fn cursor_left(&mut self)
        requires
            old(self).wf(),
        ensures
            final(self).moved_from(old(self)),
            final(self).cur() == (if old(self).cur().col != 0 {
                Cursor { row: old(self).cur().row, col: (old(self).cur().col - 1) as usize }
            } else {
                old(self).cur()
            }),
    {
        if self.cursor.col != 0 {
            proof {
                let s = self.text();
                lemma_valid_before_next_line(s, self.cursor.row as nat, self.cursor.col as nat);
                lemma_on_line(s, self.cursor.row as nat, cursor_index(s, self.cursor) - 1);
            }
            self.cursor.col = self.cursor.col - 1;
        }
    }

    /// `l`: one column right, but not past the end of the line.
    pub fn cursor_right(&mut self)
        requires
            old(self).wf(),
        ensures
            final(self).moved_from(old(self)),
            final(self).cur().row == old(self).cur().row,
            final(self).cur().col == (if old(self).cur().col + 1 <= line_len(
                old(self).text(),
                old(self).cur().row as nat,
            ) {
                old(self).cur().col + 1
            } else {
                line_len(old(self).text(), old(self).cur().row as nat) as int
            }),
    {
        let n = self.core_buffer.len_line(self.cursor.row);
        let col = if self.cursor.col < n {
            self.cursor.col + 1
        } else {
            n
        };
        proof {
            lemma_valid_up_to_line_len(self.text(), self.cursor.row as nat, col as nat);
        }
        self.cursor.col = col;
    }

    /// `k`: one line up, keeping the column when the line is long enough.
    pub fn cursor_up(&mut self)
        requires
            old(self).wf(),
        ensures
            final(self).moved_from(old(self)),
            old(self).cur().row == 0 ==> final(self).cur() == old(self).cur(),
            old(self).cur().row != 0 ==> final(self).cur() == (Cursor {
                row: (old(self).cur().row - 1) as usize,
                col: if old(self).cur().col <= line_len(
                    old(self).text(),
                    (old(self).cur().row - 1) as nat,
                ) {
                    old(self).cur().col
                } else {
                    line_len(old(self).text(), (old(self).cur().row - 1) as nat) as usize
                },
            }),
    {
        if self.cursor.row != 0 {
            let row = self.cursor.row - 1;
            let n = self.core_buffer.len_line(row);
            let col = if self.cursor.col <= n {
                self.cursor.col
            } else {
                n
            };
            proof {
                lemma_valid_up_to_line_len(self.text(), row as nat, col as nat);
            }
            self.cursor = Cursor { row, col };
        }
    }

    /// `j`: one line down (if there is one), keeping the column when the line
    /// is long enough.
    pub fn cursor_down(&mut self)
        requires
            old(self).wf(),
        ensures
            final(self).moved_from(old(self)),
            ({
                let s = old(self).text();
                let row = if old(self).cur().row + 1 < line_count(s) {
                    old(self).cur().row + 1
                } else {
                    line_count(s) - 1
                };
                final(self).cur() == Cursor {
                    row: row as usize,
                    col: if old(self).cur().col <= line_len(s, row as nat) {
                        old(self).cur().col
                    } else {
                        line_len(s, row as nat) as usize
                    },
                }
            }),
    {
        let lines = self.core_buffer.len_lines();
        let row = if self.cursor.row < lines - 1 {
            self.cursor.row + 1
        } else {
            lines - 1
        };
        let n = self.core_buffer.len_line(row);
        let col = if self.cursor.col <= n {
            self.cursor.col
        } else {
            n
        };
        proof {
            lemma_valid_up_to_line_len(self.text(), row as nat, col as nat);
        }
        self.cursor = Cursor { row, col };
    }

    /// One char forward, across line ends; `false` at the end of the text.
    pub fn cursor_inc(&mut self) -> (r: bool)
        requires
            old(self).wf(),
        ensures
            final(self).moved_from(old(self)),
            r == inc_spec(old(self).text(), old(self).cur()) is Some,
            final(self).cur() == match inc_spec(old(self).text(), old(self).cur()) {
                Some(n) => n,
                None => old(self).cur(),
            },
    {
        proof {
            lemma_inc_spec(self.text(), self.cursor);
        }
        if self.cursor.col < self.core_buffer.len_line(self.cursor.row) {
            self.cursor.col = self.cursor.col + 1;
            true
        } else if self.cursor.row < self.core_buffer.len_lines() - 1 {
            self.cursor = Cursor { row: self.cursor.row + 1, col: 0 };
            true
        } else {
            false
        }
    }

    /// One char back, across line ends; `false` at the start of the text.
    pub fn cursor_dec(&mut self) -> (r: bool)
        requires
            old(self).wf(),
        ensures
            final(self).moved_from(old(self)),
            r == dec_spec(old(self).text(), old(self).cur()) is Some,
            final(self).cur() == match dec_spec(old(self).text(), old(self).cur()) {
                Some(n) => n,
                None => old(self).cur(),
            },
    {
        proof {
            lemma_dec_spec(self.text(), self.cursor);
        }
        if self.cursor.row == 0 && self.cursor.col == 0 {
            return false;
        }
        if self.cursor.col == 0 {
            let row = self.cursor.row - 1;
            self.cursor = Cursor { row, col: self.core_buffer.len_line(row) };
        } else {
            self.cursor.col = self.cursor.col - 1;
        }
        true
    }

    /// The position one char before `cursor`.
    pub fn prev_cursor(&self, cursor: Cursor) -> (r: Option<Cursor>)
        requires
            self.wf(),
            cursor_valid(self.text(), cursor),
        ensures
            r == dec_spec(self.text(), cursor),
            r matches Some(n) ==> cursor_valid(self.text(), n),
    {
        proof {
            lemma_dec_spec(self.text(), cursor);
        }
        if cursor.row == 0 && cursor.col == 0 {
            return None;
        }
        Some(
            if cursor.col > 0 {
                Cursor { row: cursor.row, col: cursor.col - 1 }
            } else {
                Cursor { row: cursor.row - 1, col: self.core_buffer.len_line(cursor.row - 1) }
            },
        )
    }

    /// The position one char after `cursor`.
    pub fn next_cursor(&self, cursor: Cursor) -> (r: Option<Cursor>)
        requires
            self.wf(),
            cursor_valid(self.text(), cursor),
        ensures
            r == inc_spec(self.text(), cursor),
            r matches Some(n) ==> cursor_valid(self.text(), n),
    {
        proof {
            lemma_inc_spec(self.text(), cursor);
        }
        let n = self.core_buffer.len_line(cursor.row);
        if cursor.col < n {
            Some(Cursor { row: cursor.row, col: cursor.col + 1 })
        } else if cursor.row < self.core_buffer.len_lines() - 1 {
            Some(Cursor { row: cursor.row + 1, col: 0 })
        } else {
            None
        }
    }

    fn inc_while_exec(&mut self, p: Ghost<spec_fn(Option<char>) -> bool>, word: bool, none: bool, gap: bool)
        requires
            old(self).wf(),
            forall|o: Option<char>| #[trigger] p@(o) == (match o {
                Some(c) => if gap {
                    !is_alphanumeric_spec(c) && !is_paren_left_spec(c)
                } else {
                    is_alphanumeric_spec(c) == word
                },
                None => none,
            }),
        ensures
            final(self).moved_from(old(self)),
            final(self).cur() == inc_while(old(self).text(), old(self).cur(), p@),
    {
        let ghost s = self.text();
        let ghost target = inc_while(s, self.cursor, p@);
        let ghost before = *self;
        loop
            invariant
                self.moved_from(&before),
                forall|o: Option<char>| #[trigger] p@(o) == (match o {
                    Some(c) => if gap {
                        !is_alphanumeric_spec(c) && !is_paren_left_spec(c)
                    } else {
                        is_alphanumeric_spec(c) == word
                    },
                    None => none,
                }),
                s == before.text(),
                inc_while(s, self.cur(), p@) == target,
            ensures
                self.moved_from(&before),
                self.cur() == target,
            decreases s.len() - cursor_index(s, self.cur()),
        {
            let cond = match self.char_at_cursor() {
                Some(c) => if gap {
                    !is_alphanumeric(c) && !is_paren_left(c)
                } else {
                    is_alphanumeric(c) == word
                },
                None => none,
            };
            if !cond {
                break;
            }
            proof {
                lemma_inc_spec(s, self.cursor);
            }
            if !self.cursor_inc() {
                break;
            }
        }
    }

    fn dec_while_exec(&mut self, p: Ghost<spec_fn(Option<char>) -> bool>, word: bool)
        requires
            old(self).wf(),
            forall|o: Option<char>| #[trigger] p@(o) == (match o {
                Some(c) => is_alphanumeric_spec(c) == word,
                None => !word,
            }),
        ensures
            final(self).moved_from(old(self)),
            final(self).cur() == dec_while(old(self).text(), old(self).cur(), p@),
    {
        let ghost s = self.text();
        let ghost target = dec_while(s, self.cursor, p@);
        let ghost before = *self;
        loop
            invariant
                self.moved_from(&before),
                forall|o: Option<char>| #[trigger] p@(o) == (match o {
                    Some(c) => is_alphanumeric_spec(c) == word,
                    None => !word,
                }),
                s == before.text(),
                dec_while(s, self.cur(), p@) == target,
            ensures
                self.moved_from(&before),
                self.cur() == target,
            decreases cursor_index(s, self.cur()),
        {
            let cond = match self.char_at_cursor() {
                Some(c) => is_alphanumeric(c) == word,
                None => !word,
            };
            if !cond {
                break;
            }
            proof {
                lemma_dec_spec(s, self.cursor);
            }
            if !self.cursor_dec() {
                break;
            }
        }
    }

    /// `w`: to the start of the next word (or just past an opening bracket).
    pub fn w(&mut self)
        requires
            old(self).wf(),
        ensures
            final(self).moved_from(old(self)),
            final(self).cur() == w_spec(old(self).text(), old(self).cur()),
    {
        let opening = match self.char_at_cursor() {
            Some(c) => is_paren_left(c),
            None => false,
        };
        if opening {
            self.cursor_inc();
        } else {
            self.inc_while_exec(Ghost(pred_word_or_none()), true, true, false);
        }
        self.inc_while_exec(Ghost(pred_gap_or_none()), false, true, true);
    }

    /// `b`: to the start of the word before.
    pub fn b(&mut self)
        requires
            old(self).wf(),
        ensures
            final(self).moved_from(old(self)),
            final(self).cur() == b_spec(old(self).text(), old(self).cur()),
    {
        self.cursor_dec();
        self.dec_while_exec(Ghost(pred_not_word()), false);
        self.dec_while_exec(Ghost(pred_word()), true);
        let on_word = match self.char_at_cursor() {
            Some(c) => is_alphanumeric(c),
            None => false,
        };
        if !on_word {
            self.cursor_inc();
        }
    }

    fn inc_scan_exec(&mut self, p: Ghost<spec_fn(Option<char>) -> bool>, word: bool) -> (stopped:
        bool)
        requires
            old(self).wf(),
            forall|o: Option<char>| #[trigger] p@(o) == (match o {
                Some(c) => is_alphanumeric_spec(c) == word,
                None => !word,
            }),
        ensures
            final(self).moved_from(old(self)),
            (stopped, final(self).cur()) == inc_scan(old(self).text(), old(self).cur(), p@),
    {
        let ghost s = self.text();
        let ghost target = inc_scan(s, self.cursor, p@);
        let ghost before = *self;
        loop
            invariant
                self.moved_from(&before),
                before == *old(self),
                target == inc_scan(old(self).text(), old(self).cur(), p@),
                forall|o: Option<char>| #[trigger] p@(o) == (match o {
                    Some(c) => is_alphanumeric_spec(c) == word,
                    None => !word,
                }),
                s == before.text(),
                inc_scan(s, self.cur(), p@) == target,
            ensures
                self.moved_from(&before),
                (false, self.cur()) == target,
            decreases s.len() - cursor_index(s, self.cur()),
        {
            let cond = match self.char_at_cursor() {
                Some(c) => is_alphanumeric(c) == word,
                None => !word,
            };
            if !cond {
                break;
            }
            proof {
                lemma_inc_spec(s, self.cursor);
            }
            let ghost prev = self.cur();
            if !self.cursor_inc() {
                break;
            }
            let closing = match self.char_at_cursor() {
                Some(c) => is_paren_right(c),
                None => false,
            };
            if closing {
                return true;
            }
        }
        false
    }

    /// `e`: to the end of the word, or onto a closing bracket met on the way.
    pub fn e(&mut self)
        requires
            old(self).wf(),
        ensures
            final(self).moved_from(old(self)),
            final(self).cur() == e_spec(old(self).text(), old(self).cur()),
    {
        self.cursor_inc();
        let closing = match self.char_at_cursor() {
            Some(c) => is_paren_right(c),
            None => false,
        };
        if closing {
            return;
        }
        if self.inc_scan_exec(Ghost(pred_not_word()), false) {
            return;
        }
        if self.inc_scan_exec(Ghost(pred_word()), true) {
            return;
        }
        let on_word = match self.char_at_cursor() {
            Some(c) => is_alphanumeric(c),
            None => false,
        };
        if !on_word {
            self.cursor_dec();
        }
    }

    /// Types `c` at the cursor and moves past it.
    pub fn insert(&mut self, c: char)
        requires
            old(self).wf(),
            old(self).text().len() < usize::MAX,
        ensures
            final(self).edit_recorded(old(self)),
            final(self).text() == insert_at(
                old(self).text(),
                cursor_index(old(self).text(), old(self).cur()),
                seq![c],
            ),
            final(self).cur() == cursor_after_insert(old(self).cur(), c),
            final(self).changed_id() == old(self).changed_id().next_spec(),
            !old(self).pending() ==> final(self).undo_cursor() == Some(old(self).cur()),
            final(self).undo_group_end() == Some(final(self).cur()),
    {
        let op = InsertChar { cursor: self.cursor, c };
        self.perform(Operation::InsertChar(op));
    }

    /// `o`: a line break at the end of the cursor's line; the cursor goes to
    /// the new line.
    pub fn insert_newline(&mut self)
        requires
            old(self).wf(),
            old(self).text().len() < usize::MAX,
        ensures
            final(self).edit_recorded(old(self)),
            ({
                let s = old(self).text();
                let row = old(self).cur().row;
                &&& final(self).text() == insert_at(
                    s,
                    (line_start(s, row as nat) + line_len(s, row as nat)) as int,
                    seq!['\n'],
                )
                &&& final(self).cur() == Cursor { row: (row + 1) as usize, col: 0 }
                &&& !old(self).pending() ==> final(self).undo_cursor() == Some(
                    Cursor { row, col: line_len(s, row as nat) as usize },
                )
            }),
            final(self).changed_id() == old(self).changed_id().next_spec(),
            final(self).undo_group_end() == Some(final(self).cur()),
    {
        let row = self.cursor.row;
        let col = self.core_buffer.len_line(row);
        proof {
            lemma_valid_up_to_line_len(self.text(), row as nat, col as nat);
        }
        let op = InsertChar { cursor: Cursor { row, col }, c: '\n' };
        self.perform(Operation::InsertChar(op));
    }

    /// `O`: a line break at the start of the cursor's line; the cursor stays at
    /// the start of the (now empty) line.
    pub fn insert_newline_here(&mut self)
        requires
            old(self).wf(),
            old(self).text().len() < usize::MAX,
        ensures
            final(self).edit_recorded(old(self)),
            ({
                let s = old(self).text();
                let row = old(self).cur().row;
                &&& final(self).text() == insert_at(s, line_start(s, row as nat) as int, seq!['\n'])
                &&& final(self).cur() == Cursor { row, col: 0 }
                &&& !old(self).pending() ==> final(self).undo_cursor() == Some(Cursor { row, col: 0 })
                &&& final(self).undo_group_end() == Some(
                    Cursor { row: (row + 1) as usize, col: 0 },
                )
            }),
            final(self).changed_id() == old(self).changed_id().next_spec(),
    {
        let row = self.cursor.row;
        proof {
            lemma_valid_up_to_line_len(self.text(), row as nat, 0);
            crate::edit_core::model::lemma_nl_count_le_len(self.text());
        }
        let op = InsertChar { cursor: Cursor { row, col: 0 }, c: '\n' };
        self.perform(Operation::InsertChar(op));
        self.cursor_up();
    }

    /// `r`: the char under the cursor (if any) gives way to `c`; the cursor moves
    /// past it.
    pub fn replace(&mut self, c: char)
        requires
            old(self).wf(),
            old(self).text().len() < usize::MAX,
        ensures
            final(self).edit_recorded(old(self)),
            ({
                let s = old(self).text();
                let p = cursor_index(s, old(self).cur());
                let t = if char_at_spec(s, old(self).cur()) is Some {
                    s.take(p) + s.skip(p + 1)
                } else {
                    s
                };
                final(self).text() == insert_at(t, p, seq![c])
            }),
            final(self).cur() == cursor_after_insert(old(self).cur(), c),
            !old(self).pending() ==> final(self).undo_cursor() == Some(old(self).cur()),
            final(self).undo_group_end() == Some(final(self).cur()),
    {
        let cur = self.cursor;
        if self.char_at_cursor().is_some() {
            proof {
                lemma_line_len_bounds(self.text(), cur.row as nat);
            }
            let ghost s = self.text();
            let op = DeleteRange::new((CursorBound::Included(cur), CursorBound::Included(cur)));
            self.perform(Operation::DeleteRange(op));
            proof {
                let p = cursor_index(s, cur);
                assert(self.text().take(p) =~= s.take(p));
                crate::edit_core::buffer::lemma_cursor_prefix(s, self.text(), cur);
            }
        }
        let op = InsertChar { cursor: self.cursor, c };
        self.perform(Operation::InsertChar(op));
    }

    /// `x`: takes out the char at the cursor (which may be a line-end char);
    /// nothing at the end of the text.
    pub fn delete(&mut self)
        requires
            old(self).wf(),
        ensures
            ({
                let s = old(self).text();
                let p = cursor_index(s, old(self).cur());
                if p < s.len() {
                    &&& final(self).edit_recorded(old(self))
                    &&& final(self).text() == s.take(p) + s.skip(p + 1)
                    &&& final(self).changed_id() == old(self).changed_id().next_spec()
                    &&& !old(self).pending() ==> final(self).undo_cursor() == Some(old(self).cur())
                    &&& final(self).undo_group_end() == Some(old(self).cur())
                } else {
                    final(self).moved_from(old(self))
                }
            }),
            final(self).cur() == old(self).cur(),
    {
        let cur = self.cursor;
        let p = self.core_buffer.cursor_to_char(cur);
        if p < self.core_buffer.len_chars() {
            let op = DeleteRange::new((CursorBound::Included(cur), CursorBound::Included(cur)));
            self.perform(Operation::DeleteRange(op));
        }
    }

    /// Takes out a range of text; the cursor goes to its start.
    pub fn delete_range(&mut self, range: (CursorBound, CursorBound))
        requires
            old(self).wf(),
            range_valid(old(self).text(), range),
        ensures
            final(self).edit_recorded(old(self)),
            final(self).text() == remove_range(old(self).text(), range),
            final(self).cur() == crate::edit_core::operation::bound_cursor(range.0),
            final(self).changed_id() == old(self).changed_id().next_spec(),
            !old(self).pending() ==> final(self).undo_cursor() == Some(
                crate::edit_core::operation::bound_cursor(range.0),
            ),
            final(self).undo_group_end() == Some(crate::edit_core::operation::bound_cursor(range.0)),
    {
        let op = DeleteRange::new(range);
        self.perform(Operation::DeleteRange(op));
    }

    /// Replaces the whole text: as an edit that undo can take back, or, with
    /// `clear_history`, forgetting all history. The cursor is pulled back into
    /// the new text.
    pub fn set_string(&mut self, s: String, clear_history: bool)
        requires
            old(self).wf(),
        ensures
            final(self).wf(),
            final(self).text() == s@,
            final(self).cur() == clamp_cursor(s@, old(self).cur()),
            final(self).changed_id() == old(self).changed_id().next_spec(),
            clear_history ==> final(self).undo_targets().len() == 0,
            clear_history ==> final(self).redo_targets().len() == 0,
            clear_history ==> !final(self).pending(),
            clear_history ==> final(self).dirty_line() == 0,
            clear_history ==> final(self).undo_cursor() is None,
            !clear_history ==> final(self).edit_recorded(old(self)),
            !clear_history && !old(self).pending() ==> final(self).undo_cursor() is None,
            !clear_history ==> final(self).undo_group_end() is None,
    {
        if clear_history {
            let ghost t = s@;
            self.core_buffer = B::from_str(s.as_str());
            let _len = self.core_buffer.len_chars();
            self.cursor = crate::edit_core::operation::clamp_cursor_exec(
                &self.core_buffer,
                self.cursor,
            );
            self.buffer_changed.inc();
            self.dirty_from = 0;
            self.redo.clear();
            self.history.clear();
            self.history_tmp.clear();
            self.past = Ghost(Seq::empty());
            self.future = Ghost(Seq::empty());
            self.tmp_base = Ghost(t);
        } else {
            let op = SetText::new(s);
            self.perform(Operation::SetText(op));
        }
    }

    /// The cursor at a char index.
    pub fn char_to_cursor(&self, i: usize) -> (c: Cursor)
        requires
            i <= self.text().len(),
        ensures
            cursor_valid(self.text(), c),
            cursor_index(self.text(), c) == i,
    {
        self.core_buffer.char_to_cursor(i)
    }

    /// The char index of a valid cursor.
    pub fn cursor_to_char(&self, c: Cursor) -> (i: usize)
        requires
            cursor_valid(self.text(), c),
        ensures
            i == cursor_index(self.text(), c),
    {
        self.core_buffer.cursor_to_char(c)
    }

    /// The cursor is on a line of the text, at most at its end.
    pub fn on_text(&self, c: Cursor) -> (r: bool)
        ensures
            r == (c.row < line_count(self.text()) && c.col <= line_len(
                self.text(),
                c.row as nat,
            )),
            r ==> cursor_valid(self.text(), c),
    {
        if c.row < self.core_buffer.len_lines() {
            let n = self.core_buffer.len_line(c.row);
            proof {
                if c.col <= n {
                    lemma_valid_up_to_line_len(self.text(), c.row as nat, c.col as nat);
                }
            }
            c.col <= n
        } else {
            false
        }
    }

    /// The position after the last char.
    pub fn end_cursor(&self) -> (c: Cursor)
        ensures
            c == crate::edit_core::buffer::end_cursor_spec(self.text()),
            cursor_valid(self.text(), c),
    {
        self.core_buffer.end_cursor()
    }

    /// Moves to the start of the line and, below the first line, puts in the
    /// spaces that the line above asks for (as far as the text can grow).
    pub fn indent(&mut self, indent_width: usize)
        requires
            old(self).wf(),
            indent_width > 0,
        ensures
            old(self).cur().row == 0 ==> final(self).moved_from(old(self)) && final(self).cur()
                == (Cursor { row: 0, col: 0 }),
            old(self).cur().row > 0 ==> ({
                let s = old(self).text();
                let row = old(self).cur().row;
                let n = (indent_width * next_indent_level_spec(
                    line_text(s, (row - 1) as nat),
                    indent_width as nat,
                )) as nat;
                let k = if s.len() + n <= usize::MAX {
                    n
                } else {
                    (usize::MAX - s.len()) as nat
                };
                &&& final(self).text() == insert_at(s, line_start(s, row as nat) as int, spaces(k))
                &&& final(self).cur() == Cursor { row, col: k as usize }
                &&& k > 0 ==> final(self).edit_recorded(old(self))
                &&& k == 0 ==> final(self).moved_from(old(self))
            }),
    {
        let row = self.cursor.row;
        proof {
            lemma_valid_up_to_line_len(self.text(), row as nat, 0);
        }
        self.cursor.col = 0;
        if row > 0 {
            let line = self.line(row - 1);
            let level = next_indent_level(line.as_str(), indent_width);
            let total = match level.checked_mul(indent_width) {
                Some(t) => t,
                None => usize::MAX,
            };
            let ghost s = self.text();
            let ghost l = line_start(s, row as nat);
            let ghost before = *self;
            let ghost start = *old(self);
            let mut i: usize = 0;
            proof {
                assert(insert_at(s, l as int, spaces(0)) =~= s);
            }
            while i < total && self.core_buffer.len_chars() < usize::MAX
                invariant
                    self.wf(),
                    i <= total,
                    s.len() + i <= usize::MAX,
                    self.text() == insert_at(s, l as int, spaces(i as nat)),
                    self.cur() == (Cursor { row, col: i }),
                    row < line_count(s),
                    cursor_valid(s, Cursor { row, col: 0 }),
                    l == line_start(s, row as nat),
                    l <= s.len(),
                    s == start.text(),
                    before.moved_from(&start),
                    i > 0 ==> self.edit_recorded(&start),
                    i == 0 ==> self.moved_from(&start),
                decreases total - i,
            {
                proof {
                    let t = self.text();
                    assert(t.take(l as int) =~= s.take(l as int));
                    crate::edit_core::buffer::lemma_cursor_prefix(s, t, Cursor { row, col: 0 });
                    assert(insert_at(t, l + i, seq![' ']) =~= insert_at(
                        s,
                        l as int,
                        spaces((i + 1) as nat),
                    ));
                }
                self.insert(' ');
                i = i + 1;
            }
            proof {
                let n = indent_width * next_indent_level_spec(
                    line_text(s, (row - 1) as nat),
                    indent_width as nat,
                );
                assert(level * indent_width == indent_width * level) by (nonlinear_arith);
            }
        }
    }
}

/// Undo after edits made since the last commit brings back the text of that
/// commit.
pub proof fn law_undo_restores_committed_text<B: CoreBuffer>(
    committed: Core<B>,
    edited: Core<B>,
    undone: Core<B>,
)
    requires
        committed.wf(),
        !committed.pending(),
        edited.edit_recorded(&committed),
        Core::<B>::undo_post(edited, undone),
    ensures
        undone.text() == committed.text(),
        undone.undo_targets() == committed.undo_targets(),
{
}

/// Edits one after the other stay one group: they are all taken back by one
/// undo.
pub proof fn law_edits_compose<B: CoreBuffer>(a: Core<B>, b: Core<B>, c: Core<B>)
    requires
        b.edit_recorded(&a),
        c.edit_recorded(&b),
    ensures
        c.edit_recorded(&a),
{
}

/// Moving the cursor leaves the text and the history as they were.
pub proof fn law_motion_keeps_history<B: CoreBuffer>(a: Core<B>, b: Core<B>, c: Core<B>)
    requires
        b.edit_recorded(&a),
        c.moved_from(&b),
    ensures
        c.edit_recorded(&a),
        c.text() == b.text(),
{
}

/// Redo right after an undo brings back the text that the undo took away,
/// and puts the cursor where the last edit of the undone group put it, where
/// that edit fixes the place (an insert or a deletion).
pub proof fn law_redo_after_undo<B: CoreBuffer>(a: Core<B>, b: Core<B>, c: Core<B>)
    requires
        a.wf(),
        a.undo_targets().len() > 0,
        Core::<B>::undo_post(a, b),
        Core::<B>::redo_post(b, c),
    ensures
        c.text() == a.text(),
        c.redo_targets() == a.redo_targets(),
        a.undo_group_end() matches Some(p) ==> c.cur() == p,
{
}

/// Undo right after a redo brings back the text that the redo took away.
pub proof fn law_undo_after_redo<B: CoreBuffer>(a: Core<B>, b: Core<B>, c: Core<B>)
    requires
        a.wf(),
        a.redo_targets().len() > 0,
        Core::<B>::redo_post(a, b),
        Core::<B>::undo_post(b, c),
    ensures
        c.text() == a.text(),
        c.undo_targets() == a.undo_targets(),
        c.redo_targets() == a.redo_targets(),
{
}

/// An edit drops everything that redo could have brought back.
pub proof fn law_edit_clears_redo<B: CoreBuffer>(a: Core<B>, b: Core<B>)
    requires
        b.edit_recorded(&a),
    ensures
        b.redo_targets().len() == 0,
{
}


proof fn lemma_edit_chain<B: CoreBuffer>(states: Seq<Core<B>>, k: int)
    requires
        1 <= k < states.len(),
        states[1].edit_recorded(&states[0]),
        forall|i: int|
            1 <= i < states.len() - 1 ==> (#[trigger] states[i + 1]).edit_recorded(&states[i])
                || states[i + 1].moved_from(&states[i]),
    ensures
        states[k].edit_recorded(&states[0]),
    decreases k,
{
    if k > 1 {
        lemma_edit_chain(states, k - 1);
        let j = k - 1;
        assert(states[j + 1].edit_recorded(&states[j]) || states[j + 1].moved_from(&states[j]));
        if states[k].edit_recorded(&states[k - 1]) {
            law_edits_compose(states[0], states[k - 1], states[k]);
        } else {
            law_motion_keeps_history(states[0], states[k - 1], states[k]);
        }
    }
}

/// Edits one after the other from a committed state (the cursor possibly
/// moved between them) are all taken back by one undo.
pub proof fn law_undo_after_edits<B: CoreBuffer>(states: Seq<Core<B>>, undone: Core<B>)
    requires
        states.len() >= 2,
        states[0].wf(),
        !states[0].pending(),
        states[1].edit_recorded(&states[0]),
        forall|i: int|
            1 <= i < states.len() - 1 ==> (#[trigger] states[i + 1]).edit_recorded(&states[i])
                || states[i + 1].moved_from(&states[i]),
        Core::<B>::undo_post(states.last(), undone),
    ensures
        undone.text() == states[0].text(),
        undone.undo_targets() == states[0].undo_targets(),
{
    lemma_edit_chain(states, states.len() - 1);
    law_undo_restores_committed_text(states[0], states.last(), undone);
}

/// After an edit, redo has nothing to bring back: it leaves the text as it
/// is.
pub proof fn law_redo_after_edit_does_nothing<B: CoreBuffer>(a: Core<B>, b: Core<B>, c: Core<B>)
    requires
        b.edit_recorded(&a),
        Core::<B>::redo_post(b, c),
    ensures
        c.text() == b.text(),
        c.cur() == b.cur(),
{
}

} // verus!