//! Completion in insert mode: the word before the cursor, the words that
//! the language server, TabNine and the snippets offer for it, and what
//! taking one of them does to the text.
use vstd::prelude::*;

use crate::buffer::Buffer;
use crate::char_class::{is_alphanumeric, is_alphanumeric_spec};
use crate::edit_core::buffer::{char_at_spec, cursor_index, cursor_valid, CoreBuffer};
use crate::edit_core::model::{
    lemma_on_line, lemma_valid_before_next_line, line_start, pos_of, valid_pos,
};
use crate::edit_core::{Core, Cursor, CursorBound, Id};
use crate::mode::{Completion, Insert, TabNineCompletion};
use crate::snippets::{is_prefix, starts_with, SnippetMap};

verus! {

/// A char that belongs to a word for completion: a letter, a digit or `_`.
pub open spec fn is_word_char(c: char) -> bool {
    is_alphanumeric_spec(c) || c == '_'
}

/// The word that ends at column `col` of line `row`: the word chars just
/// before that column on the line.
pub open spec fn word_before(s: Seq<char>, row: usize, col: usize) -> Seq<char>
    decreases col,
{
    if col > 0 && (match char_at_spec(s, Cursor { row, col: (col - 1) as usize }) {
        Some(c) => is_word_char(c),
        None => false,
    }) {
        word_before(s, row, (col - 1) as usize).push(
            char_at_spec(s, Cursor { row, col: (col - 1) as usize })->0,
        )
    } else {
        Seq::empty()
    }
}

/// The column where the word before the cursor starts.
pub open spec fn word_start(s: Seq<char>, cur: Cursor) -> usize {
    (cur.col - word_before(s, cur.row, cur.col).len()) as usize
}

proof fn lemma_word_before_len(s: Seq<char>, row: usize, col: usize)
    ensures
        word_before(s, row, col).len() <= col,
    decreases col,
{
    if col > 0 {
        lemma_word_before_len(s, row, (col - 1) as usize);
    }
}

/// A position to the left of a valid one on its line is valid.
pub proof fn lemma_valid_left(s: Seq<char>, row: nat, col: nat, c: nat)
    requires
        valid_pos(s, row, col),
        c <= col,
    ensures
        valid_pos(s, row, c),
{
    lemma_valid_before_next_line(s, row, col);
    lemma_on_line(s, row, pos_of(s, row, c));
}

/// The word before the cursor and the column where it starts.
pub fn word_before_cursor<B: CoreBuffer>(core: &Core<B>) -> (r: (usize, Vec<char>))
    requires
        core.wf(),
    ensures
        r.1@ == word_before(core.text(), core.cur().row, core.cur().col),
        r.0 == word_start(core.text(), core.cur()),
{
    let ghost s = core.text();
    let cur = core.cursor();
    let row = cur.row;
    let mut i = cur.col;
    let mut v: Vec<char> = Vec::new();
    let mut done = false;
    while i > 0 && !done
        invariant
            i <= cur.col,
            s == core.text(),
            v@.len() == cur.col - i,
            word_before(s, row, cur.col) == word_before(s, row, i) + v@,
            done ==> word_before(s, row, i) == Seq::<char>::empty(),
        decreases i + (if done {
            0int
        } else {
            1int
        }),
    {
        match core.char_at(Cursor { row, col: i - 1 }) {
            Some(c) => {
                if is_alphanumeric(c) || c == '_' {
                    let ghost prev = v@;
                    v.insert(0, c);
                    assert(word_before(s, row, i) == word_before(s, row, (i - 1) as usize).push(c));
                    assert(word_before(s, row, (i - 1) as usize) + v@ =~= word_before(s, row, i) + prev);
                    i -= 1;
                } else {
                    done = true;
                }
            },
            None => {
                done = true;
            },
        }
    }
    assert(word_before(s, row, cur.col) =~= v@);
    (i, v)
}

/// Takes out the word before the cursor; the cursor goes to where it
/// started.
pub fn remove_word<B: CoreBuffer>(buf: &mut Buffer<B>)
    requires
        old(buf).wf(),
    ensures
        final(buf).wf(),
        final(buf).indent_width == old(buf).indent_width,
        final(buf).hard_tab == old(buf).hard_tab,
        final(buf).path == old(buf).path,
        final(buf).snippet == old(buf).snippet,
        final(buf).search == old(buf).search,
        final(buf).yank == old(buf).yank,
        final(buf).row_offset == old(buf).row_offset,
        final(buf).show_cursor_on_draw == old(buf).show_cursor_on_draw,
        ({
            let s = old(buf).core.text();
            let cur = old(buf).core.cur();
            let w = word_start(s, cur);
            &&& final(buf).core.text() == s.take(pos_of(s, cur.row as nat, w as nat)) + s.skip(
                cursor_index(s, cur),
            )
            &&& final(buf).core.cur() == Cursor { row: cur.row, col: w }
            &&& cursor_index(final(buf).core.text(), final(buf).core.cur()) == pos_of(
                s,
                cur.row as nat,
                w as nat,
            )
        }),
{
    proof {
        buf.core.lemma_wf();
    }
    let ghost s = buf.core.text();
    let cur = buf.core.cursor();
    let (start, _word) = word_before_cursor(&buf.core);
    proof {
        lemma_word_before_len(s, cur.row, cur.col);
        lemma_valid_left(s, cur.row as nat, cur.col as nat, start as nat);
    }
    let from = Cursor { row: cur.row, col: start };
    if start < cur.col {
        buf.core.delete_range((CursorBound::Included(from), CursorBound::Excluded(cur)));
        proof {
            let t = buf.core.text();
            let p = pos_of(s, cur.row as nat, start as nat);
            assert(t.take(p) =~= s.take(p));
            crate::edit_core::buffer::lemma_cursor_prefix(s, t, from);
        }
    }
}

/// The number of spaces just before char index `p`.
pub open spec fn spaces_before(s: Seq<char>, p: nat) -> nat
    decreases p,
{
    if p > 0 && p <= s.len() && s[p - 1] == ' ' {
        1 + spaces_before(s, (p - 1) as nat)
    } else {
        0
    }
}

/// Taking a TabNine completion's old prefix out from before char index `p`:
/// the spaces just before it, then `n` chars before those (where the text
/// starts first, the chars at its start instead). The text, and the char
/// index where the cursor ends.
pub open spec fn tabnine_removed(s: Seq<char>, p: nat, n: nat) -> (Seq<char>, nat) {
    let q = (p - spaces_before(s, p)) as nat;
    let s1 = s.take(q as int) + s.skip(p as int);
    let k = if n <= q {
        n
    } else {
        q
    };
    let s2 = s1.take(q - k) + s1.skip(q as int);
    if n <= q {
        (s2, (q - k) as nat)
    } else {
        let e: int = if n - q <= s2.len() {
            n - q
        } else {
            s2.len() as int
        };
        (s2.skip(e as int), 0)
    }
}

/// Takes out the chars from index `a` up to index `b`.
fn delete_chars<B: CoreBuffer>(core: &mut Core<B>, a: usize, b: usize)
    requires
        old(core).wf(),
        a <= b <= old(core).text().len(),
    ensures
        final(core).wf(),
        final(core).text() == old(core).text().take(a as int) + old(core).text().skip(b as int),
{
    if a < b {
        let ca = core.char_to_cursor(a);
        let cb = core.char_to_cursor(b);
        core.delete_range((CursorBound::Included(ca), CursorBound::Excluded(cb)));
    } else {
        assert(old(core).text().take(a as int) + old(core).text().skip(b as int) =~= old(core).text());
    }
}

/// Takes out a TabNine completion's old prefix of `n` chars before the
/// cursor, and the spaces between it and the cursor.
pub fn remove_tabnine_prefix<B: CoreBuffer>(buf: &mut Buffer<B>, n: usize)
    requires
        old(buf).wf(),
    ensures
        final(buf).wf(),
        final(buf).indent_width == old(buf).indent_width,
        final(buf).hard_tab == old(buf).hard_tab,
        final(buf).path == old(buf).path,
        final(buf).snippet == old(buf).snippet,
        final(buf).search == old(buf).search,
        final(buf).yank == old(buf).yank,
        final(buf).row_offset == old(buf).row_offset,
        final(buf).show_cursor_on_draw == old(buf).show_cursor_on_draw,
        ({
            let s = old(buf).core.text();
            let r = tabnine_removed(s, cursor_index(s, old(buf).core.cur()) as nat, n as nat);
            &&& final(buf).core.text() == r.0
            &&& cursor_index(final(buf).core.text(), final(buf).core.cur()) == r.1
        }),
{
    proof {
        buf.core.lemma_wf();
    }
    let ghost s = buf.core.text();
    let text = buf.core.get_string();
    let cur = buf.core.cursor();
    let p = buf.core.cursor_to_char(cur);
    let mut q = p;
    let mut done = false;
    while q > 0 && !done
        invariant
            q <= p,
            p <= s.len(),
            text@ == s,
            p - spaces_before(s, p as nat) == q - spaces_before(s, q as nat),
            done ==> spaces_before(s, q as nat) == 0,
        decreases q + (if done {
            0int
        } else {
            1int
        }),
    {
        if text.as_str().get_char(q - 1) == ' ' {
            q -= 1;
        } else {
            done = true;
        }
    }
    let ghost s1 = s.take(q as int) + s.skip(p as int);
    delete_chars(&mut buf.core, q, p);
    let k = if n <= q {
        n
    } else {
        q
    };
    let ghost s2 = s1.take(q - k) + s1.skip(q as int);
    delete_chars(&mut buf.core, q - k, q);
    let pos = if n <= q {
        q - k
    } else {
        let len = buf.core.len_chars();
        let e = if n - q <= len {
            n - q
        } else {
            len
        };
        delete_chars(&mut buf.core, 0, e);
        assert(s2.take(0) + s2.skip(e as int) =~= s2.skip(e as int));
        0
    };
    let c = buf.core.char_to_cursor(pos);
    buf.core.place_cursor(c);
}

/// The text that taking the picked completion puts in: a language
/// server's or TabNine's word, or the snippet's text.
pub open spec fn completion_body(m: Insert, snippets: SnippetMap) -> Option<Seq<char>> {
    let a = m.completions@.len();
    let b = m.tabnine_completions@.len();
    let c = m.snippet_completions@.len();
    match m.completion_index {
        Some(k) => if k < a {
            Some(m.completions@[k as int].keyword@)
        } else if k < a + b {
            Some(m.tabnine_completions@[k - a].keyword@)
        } else if k < a + b + c {
            snippets.get_spec(m.snippet_completions@[k - a - b]@)
        } else {
            None
        },
        None => None,
    }
}

/// The text, and the char index of the cursor, once the text that the
/// picked completion replaces is out: TabNine's old prefix (and the spaces
/// after it) for a TabNine word, the word before the cursor otherwise.
pub open spec fn prefix_removed(m: Insert, s: Seq<char>, cur: Cursor) -> (Seq<char>, int) {
    let a = m.completions@.len();
    let b = m.tabnine_completions@.len();
    let w = pos_of(s, cur.row as nat, word_start(s, cur) as nat);
    let word_gone = (s.take(w) + s.skip(cursor_index(s, cur)), w);
    match m.completion_index {
        Some(k) => if k < a {
            word_gone
        } else if k < a + b {
            let r = tabnine_removed(
                s,
                cursor_index(s, cur) as nat,
                m.tabnine_completions@[k - a].old_prefix@.len(),
            );
            (r.0, r.1 as int)
        } else {
            word_gone
        },
        None => (s, cursor_index(s, cur)),
    }
}

/// Where the pick stands once the offers changed: none without offers,
/// else kept, but not past the last offer.
pub open spec fn clamped_index(k: Option<usize>, n: nat) -> Option<usize> {
    if n == 0 {
        None
    } else {
        match k {
            Some(i) => Some(
                if i < n - 1 {
                    i
                } else {
                    (n - 1) as usize
                },
            ),
            None => None,
        }
    }
}

/// Where the pick stands once new offers came: none without offers, else
/// taken modulo their number.
pub open spec fn wrapped_index(k: Option<usize>, n: nat) -> Option<usize> {
    if n == 0 {
        None
    } else {
        match k {
            Some(i) => Some(((i as nat) % n) as usize),
            None => None,
        }
    }
}

proof fn lemma_spaces_before_le(s: Seq<char>, p: nat)
    ensures
        spaces_before(s, p) <= p,
    decreases p,
{
    if p > 0 {
        lemma_spaces_before_le(s, (p - 1) as nat);
    }
}

/// Taking the replaced text out never makes the text longer.
proof fn lemma_prefix_removed_len(m: Insert, s: Seq<char>, cur: Cursor)
    requires
        cursor_valid(s, cur),
    ensures
        prefix_removed(m, s, cur).0.len() <= s.len(),
        0 <= prefix_removed(m, s, cur).1 <= prefix_removed(m, s, cur).0.len(),
{
    let p = cursor_index(s, cur);
    lemma_word_before_len(s, cur.row, cur.col);
    lemma_valid_left(s, cur.row as nat, cur.col as nat, word_start(s, cur) as nat);
    lemma_spaces_before_le(s, p as nat);
}

/// The prefixes of the snippets, as strings.
pub open spec fn string_views(v: Seq<String>) -> Seq<Seq<char>> {
    v.map_values(|s: String| s@)
}

/// A `.` or `:` just before the cursor: completion starts there too.
pub open spec fn after_member_char(s: Seq<char>, cur: Cursor) -> bool {
    cur.col > 0 && (char_at_spec(s, Cursor { row: cur.row, col: (cur.col - 1) as usize }) == Some(':')
        || char_at_spec(s, Cursor { row: cur.row, col: (cur.col - 1) as usize }) == Some('.'))
}

/// `s` holds exactly the chars of `v`.
fn same_chars(s: &str, v: &Vec<char>) -> (r: bool)
    ensures
        r == (s@ == v@),
{
    if s.unicode_len() != v.len() {
        return false;
    }
    let r = starts_with(s, v);
    assert(s@ =~= s@.take(v@.len() as int));
    r
}

/// `after` is `before` brought up to date with the buffer: unchanged when
/// the text has not changed since; else the snippet prefixes that start
/// with the word before the cursor, a request to the completers when there
/// is a word or a `.` or `:` before the cursor, and the pick kept within
/// the offers.
pub open spec fn rebuilt<B: CoreBuffer>(before: Insert, after: Insert, buf: &Buffer<B>) -> bool {
    &&& before.buf_update == buf.core.changed_id() ==> after == before
    &&& before.buf_update != buf.core.changed_id() ==> ({
        let s = buf.core.text();
        let cur = buf.core.cur();
        let word = word_before(s, cur.row, cur.col);
        &&& after.buf_update == buf.core.changed_id()
        &&& after.completions == before.completions
        &&& after.tabnine_completions == before.tabnine_completions
        &&& string_views(after.snippet_completions@) == if word.len() > 0 {
            buf.snippet.keys().filter(|k: Seq<char>| is_prefix(word, k))
        } else {
            Seq::empty()
        }
        &&& after.request_completion == (before.request_completion || word.len() > 0 || after_member_char(s, cur))
        &&& after.count() <= usize::MAX ==> after.completion_index == clamped_index(before.completion_index, after.count())
    })
}

/// `after` is `before` with the completers' answers taken (`None` where
/// one has not answered): the language server's words but the word before
/// the cursor itself, TabNine's words; the pick wraps around the new offers.
pub open spec fn polled<B: CoreBuffer>(
    before: Insert,
    after: Insert,
    buf: &Buffer<B>,
    lsp: Option<Vec<Completion>>,
    tabnine: Option<Vec<TabNineCompletion>>,
) -> bool {
    let s = buf.core.text();
    let cur = buf.core.cur();
    let word = word_before(s, cur.row, cur.col);
    &&& after.completions@ == match lsp {
        Some(v) => v@.filter(|c: Completion| c.keyword@ != word),
        None => before.completions@,
    }
    &&& after.tabnine_completions@ == match tabnine {
        Some(v) => v@,
        None => before.tabnine_completions@,
    }
    &&& after.snippet_completions == before.snippet_completions
    &&& after.buf_update == before.buf_update
    &&& after.request_completion == before.request_completion
    &&& after.count() <= usize::MAX ==> after.completion_index == wrapped_index(before.completion_index, after.count())
}

impl Insert {
    /// The number of completions on offer, if it fits in a `usize`.
    pub fn completion_count(&self) -> (r: Option<usize>)
        ensures
            r == (if self.count() <= usize::MAX {
                Some(self.count() as usize)
            } else {
                None
            }),
    {
        let a = self.completions.len();
        let b = self.tabnine_completions.len();
        let c = self.snippet_completions.len();
        if a > usize::MAX - b {
            return None;
        }
        if a + b > usize::MAX - c {
            return None;
        }
        Some(a + b + c)
    }

    /// The number of completions on offer.
    pub fn completion_len(&self) -> (r: usize)
        requires
            self.count() <= usize::MAX,
        ensures
            r == self.count(),
    {
        self.completions.len() + self.tabnine_completions.len() + self.snippet_completions.len()
    }

    /// The text that taking the picked completion puts in.
    pub fn get_completion<B: CoreBuffer>(&self, buf: &Buffer<B>) -> (r: Option<String>)
        requires
            buf.wf(),
        ensures
            match r {
                Some(t) => completion_body(*self, buf.snippet) == Some(t@),
                None => completion_body(*self, buf.snippet) is None,
            },
    {
        let k = match self.completion_index {
            Some(k) => k,
            None => {
                return None;
            },
        };
        let a = self.completions.len();
        if k < a {
            return Some(self.completions[k].keyword.clone());
        }
        let b = self.tabnine_completions.len();
        if k - a < b {
            return Some(self.tabnine_completions[k - a].keyword.clone());
        }
        let c = self.snippet_completions.len();
        if k - a - b < c {
            match buf.snippet.get(self.snippet_completions[k - a - b].as_str()) {
                Some(t) => Some(t.clone()),
                None => None,
            }
        } else {
            None
        }
    }

    /// Takes out the text that the picked completion replaces.
    pub fn remove_old_prefix<B: CoreBuffer>(&self, buf: &mut Buffer<B>)
        requires
            old(buf).wf(),
        ensures
            final(buf).wf(),
            final(buf).indent_width == old(buf).indent_width,
            final(buf).hard_tab == old(buf).hard_tab,
            final(buf).path == old(buf).path,
            final(buf).snippet == old(buf).snippet,
            final(buf).search == old(buf).search,
            final(buf).yank == old(buf).yank,
            final(buf).row_offset == old(buf).row_offset,
            final(buf).show_cursor_on_draw == old(buf).show_cursor_on_draw,
            ({
                let r = prefix_removed(*self, old(buf).core.text(), old(buf).core.cur());
                &&& final(buf).core.text() == r.0
                &&& cursor_index(final(buf).core.text(), final(buf).core.cur()) == r.1
            }),
    {
        proof {
            buf.core.lemma_wf();
        }
        match self.completion_index {
            Some(k) => {
                let a = self.completions.len();
                if k < a {
                    remove_word(buf);
                } else if k - a < self.tabnine_completions.len() {
                    let n = self.tabnine_completions[k - a].old_prefix.as_str().unicode_len();
                    remove_tabnine_prefix(buf, n);
                } else {
                    remove_word(buf);
                }
            },
            None => {},
        }
    }

    /// Brings the offers up to date after the text changed: the snippet
    /// prefixes that start with the word before the cursor (none without a
    /// word), a request to the completers when there is a word or a `.` or
    /// `:` before the cursor, and the pick kept within the offers.
    pub fn build_completion<B: CoreBuffer>(&mut self, buf: &Buffer<B>)
        requires
            buf.wf(),
        ensures
            rebuilt(*old(self), *final(self), buf),
    {
        let changed = buf.core.buffer_changed();
        if self.buf_update == changed {
            return;
        }
        self.buf_update = changed;
        let (_start, word) = word_before_cursor(&buf.core);
        let cur = buf.core.cursor();
        let start_completion = cur.col > 0 && {
            let c = buf.core.char_at(Cursor { row: cur.row, col: cur.col - 1 });
            c == Some(':') || c == Some('.')
        };
        if word.len() > 0 || start_completion {
            self.request_completion = true;
        }
        if word.len() > 0 {
            self.snippet_completions = buf.snippet.keys_with_prefix(&word);
        } else {
            self.snippet_completions = Vec::new();
            assert(string_views(self.snippet_completions@) =~= Seq::<Seq<char>>::empty());
        }
        match self.completion_count() {
            Some(n) => {
                if n == 0 {
                    self.completion_index = None;
                } else if let Some(i) = self.completion_index {
                    self.completion_index = Some(
                        if i < n - 1 {
                            i
                        } else {
                            n - 1
                        },
                    );
                }
            },
            None => {},
        }
    }

    /// Entering insert mode: the offers for where the cursor is.
    pub fn init<B: CoreBuffer>(&mut self, buf: &Buffer<B>)
        requires
            buf.wf(),
        ensures
            rebuilt(*old(self), *final(self), buf),
            final(self).buf_update == buf.core.changed_id(),
    {
        self.build_completion(buf);
    }

    /// Takes what the completers answered (`None` where one has not
    /// answered): the language server's words but the word before the
    /// cursor itself, TabNine's words; the pick wraps around the new offers.
    pub fn poll<B: CoreBuffer>(
        &mut self,
        buf: &Buffer<B>,
        lsp: Option<Vec<Completion>>,
        tabnine: Option<Vec<TabNineCompletion>>,
    )
        requires
            buf.wf(),
        ensures
            polled(*old(self), *final(self), buf, lsp, tabnine),
    {
        match lsp {
            Some(v) => {
                let (_start, word) = word_before_cursor(&buf.core);
                let ghost pred = |c: Completion| c.keyword@ != word@;
                let mut kept: Vec<Completion> = Vec::new();
                let n = v.len();
                let mut i: usize = 0;
                while i < n
                    invariant
                        n == v@.len(),
                        i <= n,
                        pred == (|c: Completion| c.keyword@ != word@),
                        kept@ == v@.take(i as int).filter(pred),
                    decreases n - i,
                {
                    assert(v@.take(i + 1).drop_last() =~= v@.take(i as int));
                    assert(v@.take(i + 1).len() == i + 1);
                    assert(v@.take(i + 1).filter(pred) == if pred(v@[i as int]) {
                        v@.take(i as int).filter(pred).push(v@[i as int])
                    } else {
                        v@.take(i as int).filter(pred)
                    }) by {
                        reveal(Seq::filter);
                    }
                    if !same_chars(v[i].keyword.as_str(), &word) {
                        kept.push(Completion { keyword: v[i].keyword.clone(), doc: v[i].doc.clone() });
                    }
                    i += 1;
                }
                assert(v@.take(n as int) =~= v@);
                proof {
                    let w = word_before(buf.core.text(), buf.core.cur().row, buf.core.cur().col);
                    assert(pred =~= (|c: Completion| c.keyword@ != w));
                }
                self.completions = kept;
            },
            None => {},
        }
        match tabnine {
            Some(v) => {
                self.tabnine_completions = v;
            },
            None => {},
        }
        match self.completion_count() {
            Some(n) => {
                if n == 0 {
                    self.completion_index = None;
                } else if let Some(i) = self.completion_index {
                    self.completion_index = Some(i % n);
                }
            },
            None => {},
        }
    }

    /// Enter with a pick: the text the pick replaces goes out, the pick's
    /// text goes in, and nothing is picked any more. `false` (and nothing
    /// done) when there is nothing to take.
    pub fn take_completion<B: CoreBuffer>(&mut self, buf: &mut Buffer<B>) -> (taken: bool)
        requires
            old(buf).wf(),
        ensures
            final(buf).wf(),
            final(buf).indent_width == old(buf).indent_width,
            final(buf).hard_tab == old(buf).hard_tab,
            final(buf).path == old(buf).path,
            final(buf).snippet == old(buf).snippet,
            final(buf).search == old(buf).search,
            final(buf).yank == old(buf).yank,
            final(self).completions == old(self).completions,
            final(self).tabnine_completions == old(self).tabnine_completions,
            final(self).snippet_completions == old(self).snippet_completions,
            final(self).buf_update == old(self).buf_update,
            final(self).request_completion == old(self).request_completion,
            taken == completion_body(*old(self), old(buf).snippet) is Some,
            !taken ==> *final(self) == *old(self) && *final(buf) == *old(buf),
            taken ==> final(self).completion_index is None,
            completion_body(*old(self), old(buf).snippet) matches Some(body) ==> ({
                let s = old(buf).core.text();
                let r = prefix_removed(*old(self), s, old(buf).core.cur());
                s.len() + body.len() <= usize::MAX ==> final(buf).core.text() == crate::edit_core::buffer::insert_at(
                    r.0,
                    r.1,
                    body,
                )
            }),
    {
        match self.get_completion(buf) {
            Some(body) => {
                let ghost s = buf.core.text();
                let ghost r = prefix_removed(*self, s, buf.core.cur());
                self.remove_old_prefix(buf);
                proof {
                    old(buf).core.lemma_wf();
                    lemma_prefix_removed_len(*self, s, old(buf).core.cur());
                }
                buf.insert_str(body.as_str());
                buf.show_cursor();
                self.completion_index = None;
                true
            },
            None => false,
        }
    }
}

} // verus!
