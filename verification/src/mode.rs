//! The editor's modes: what each key does to the buffer, and which mode
//! comes next.
use vstd::prelude::*;

use crate::buffer::{Buffer, ShowCursor, Yank};
use crate::edit_core::buffer::{
    char_at_spec, cursor_index, cursor_valid, range_text, range_valid, remove_range, CoreBuffer,
};
use crate::edit_core::model::{line_count, line_len};
use crate::edit_core::{Cursor, CursorBound, CursorRange, Id};
use crate::char_class::{is_control, is_control_spec};
use crate::edit_core::model::trim_end_pos;
use crate::edit_core::{line_text, Core};
use crate::edit_core::operation::bound_cursor;
use crate::event::{Event, Key, MouseButton, MouseEvent};
use crate::parenthesis::{paren_pair, paren_pair_spec};
use crate::ropey_util::is_line_end;
use crate::text_object::{Action, Prefix, TextObjectParser, TextObjectPrefix};
use crate::completion::{completion_body, prefix_removed, rebuilt};
use crate::fuzzy::{fuzzy_post, FuzzyOpen};

verus! {

/// Work that only the program around the library can do (files, the
/// clipboard, other processes); the mode has gone back to normal.
#[derive(Debug, PartialEq, Eq)]
pub enum Request {
    /// Format the text.
    Format,
    /// Format the text and save it to the buffer's file.
    Save,
    /// Save the text to this path (after `~` expansion) and keep it as the
    /// buffer's file.
    SaveAs(String),
    /// Put this text on the clipboard.
    CopyToClipboard(String),
    /// Type the clipboard's text at the cursor.
    PasteFromClipboard,
    /// Restart the language server.
    RestartLsp,
    /// Save, compile and run the program on the clipboard's text.
    RunTest { optimize: bool },
    /// Open this file in the buffer.
    Open(String),
}

/// Back to normal mode: the message to show, and whether the keys since
/// the last record started become the macro that `.` repeats.
pub struct TransitionReturn {
    pub message: Option<String>,
    pub is_commit_dot_macro: bool,
}

/// What a key leads to.
pub enum Transition {
    Nothing,
    /// Into another mode.
    Trans(Mode),
    /// Into another mode, recording keys from this one on.
    RecordMacro(Mode),
    /// Repeat the recorded macro.
    DoMacro,
    Return(TransitionReturn),
    Exit,
    CreateNewTab,
    /// To tab `n` (1-based).
    ChangeTab(usize),
    StartRmate,
    Request(Request),
}

/// Normal mode, with a message for the status line.
pub struct Normal {
    pub message: String,
    pub frame: usize,
}

impl Default for Normal {
    fn default() -> (r: Self)
        ensures
            r.message@ == Seq::<char>::empty(),
            r.frame == 0,
    {
        Normal { message: String::new(), frame: 0 }
    }
}

impl Normal {
    pub fn with_message(message: String) -> (r: Self)
        ensures
            r.message == message,
            r.frame == 0,
    {
        Normal { message, frame: 0 }
    }
}

/// A word that completion offers, with its description.
pub struct Completion {
    pub keyword: String,
    pub doc: String,
}

/// A word that TabNine offers: the word, its description, and the text
/// before the cursor that it takes the place of.
pub struct TabNineCompletion {
    pub keyword: String,
    pub doc: String,
    pub old_prefix: String,
}

/// Insert mode, with the completions on offer (from the language server,
/// from TabNine, then the snippets' prefixes, in that order) and the one
/// picked.
pub struct Insert {
    pub completion_index: Option<usize>,
    /// The text's change count when the offers were last brought up to date.
    pub buf_update: Id,
    pub completions: Vec<Completion>,
    pub tabnine_completions: Vec<TabNineCompletion>,
    pub snippet_completions: Vec<String>,
    /// The completers are to be asked about the word before the cursor (the
    /// program around does the asking).
    pub request_completion: bool,
}

impl Insert {
    /// How many completions are on offer.
    pub open spec fn count(&self) -> nat {
        self.completions@.len() + self.tabnine_completions@.len() + self.snippet_completions@.len()
    }
}

impl Default for Insert {
    fn default() -> (r: Self)
        ensures
            r.completion_index is None,
            r.buf_update == Id(0),
            r.completions@.len() == 0,
            r.tabnine_completions@.len() == 0,
            r.snippet_completions@.len() == 0,
            !r.request_completion,
    {
        Insert {
            completion_index: None,
            buf_update: Id(0),
            completions: Vec::new(),
            tabnine_completions: Vec::new(),
            snippet_completions: Vec::new(),
            request_completion: false,
        }
    }
}

/// `f` (to the right) and `F` (to the left): waiting for the char to find.
pub struct Find {
    pub to_right: bool,
}

/// After an operator key (`d`, `y`, `c`): waiting for what it applies to.
pub struct TextObjectOperation {
    pub parser: TextObjectParser,
}

impl TextObjectOperation {
    pub fn new(action: Action) -> (r: Self)
        ensures
            r.parser.action == action,
            r.parser.prefix == Prefix::TextObjectPrefix(TextObjectPrefix::NoPrefix),
    {
        TextObjectOperation { parser: TextObjectParser::new(action) }
    }
}

/// Typing the path to save to.
pub struct Save {
    pub path: String,
}

/// A selection from `cursor` to the buffer's cursor; whole lines in line
/// mode.
pub struct Visual {
    pub cursor: Cursor,
    pub line_mode: bool,
}

/// Typing a line number to go to.
pub struct Goto {
    pub row: Vec<char>,
}

/// The modes.
pub enum Mode {
    Normal(Normal),
    /// After the space key.
    Prefix,
    Insert(Insert),
    /// `r`: waiting for the replacing char.
    R,
    /// `S` in visual mode: waiting for the char to surround the selection with.
    S(CursorRange),
    Find(Find),
    TextObjectOperation(TextObjectOperation),
    /// Typing a search pattern.
    Search,
    Save(Save),
    Visual(Visual),
    Goto(Goto),
    /// Picking a file to open by a fuzzy search.
    FuzzyOpen(FuzzyOpen),
}

/// The buffer stays well formed and its settings stay as they were.
pub open spec fn settings_kept<B: CoreBuffer>(b0: &Buffer<B>, b1: &Buffer<B>) -> bool {
    &&& b1.wf()
    &&& b1.indent_width == b0.indent_width
    &&& b1.hard_tab == b0.hard_tab
    &&& b1.path == b0.path
    &&& b1.snippet == b0.snippet
}

/// Only the cursor (and the screen position) may have changed.
pub open spec fn moved_only<B: CoreBuffer>(b0: &Buffer<B>, b1: &Buffer<B>) -> bool {
    &&& settings_kept(b0, b1)
    &&& b1.core.moved_from(&b0.core)
    &&& b1.search == b0.search
    &&& b1.yank == b0.yank
}

/// Nothing in the buffer changed but how the view follows the cursor.
pub open spec fn unchanged<B: CoreBuffer>(b0: &Buffer<B>, b1: &Buffer<B>) -> bool {
    &&& moved_only(b0, b1)
    &&& b1.core.cur() == b0.core.cur()
}

/// `Return` with no message.
pub open spec fn is_return(t: Transition, commit: bool) -> bool {
    &&& t matches Transition::Return(r)
    &&& r.message is None
    &&& r.is_commit_dot_macro == commit
}

/// The value of a string of decimal digits.
pub open spec fn digits_value(d: Seq<char>) -> nat
    decreases d.len(),
{
    if d.len() == 0 {
        0
    } else {
        digits_value(d.drop_last()) * 10 + ((d.last() as int - 48) as nat)
    }
}

pub open spec fn all_digits(d: Seq<char>) -> bool {
    forall|i: int| 0 <= i < d.len() ==> '0' <= #[trigger] d[i] <= '9'
}

/// What `str::parse::<usize>` gives: an optional `+`, then one or more
/// decimal digits whose value fits.
pub open spec fn parse_usize_spec(s: Seq<char>) -> Option<nat> {
    let d = if s.len() > 0 && s[0] == '+' {
        s.drop_first()
    } else {
        s
    };
    if d.len() > 0 && all_digits(d) && digits_value(d) <= usize::MAX {
        Some(digits_value(d))
    } else {
        None
    }
}

proof fn lemma_digits_value_mono(d: Seq<char>, k: int)
    requires
        0 <= k <= d.len(),
        all_digits(d),
    ensures
        digits_value(d.take(k)) <= digits_value(d),
    decreases d.len() - k,
{
    if k < d.len() {
        lemma_digits_value_mono(d, k + 1);
        assert(d.take(k + 1).drop_last() =~= d.take(k));
        assert(d.take(k + 1).last() == d[k]);
    } else {
        assert(d.take(k) =~= d);
    }
}

/// Parses a line number as `str::parse::<usize>` does.
pub fn parse_usize(s: &Vec<char>) -> (r: Option<usize>)
    ensures
        r matches Some(n) ==> parse_usize_spec(s@) == Some(n as nat),
        r is None ==> parse_usize_spec(s@) is None,
{
    let mut i: usize = 0;
    if s.len() > 0 && s[0] == '+' {
        i = 1;
    }
    let ghost d = if s@.len() > 0 && s@[0] == '+' {
        s@.drop_first()
    } else {
        s@
    };
    assert(d =~= s@.skip(i as int));
    if i >= s.len() {
        return None;
    }
    let mut v: usize = 0;
    let start = i;
    while i < s.len()
        invariant
            start <= i <= s@.len(),
            start == 0 || start == 1,
            d =~= s@.skip(start as int),
            d == (if s@.len() > 0 && s@[0] == '+' {
                s@.drop_first()
            } else {
                s@
            }),
            d.len() > 0,
            all_digits(d.take(i - start)),
            v as nat == digits_value(d.take(i - start)),
        decreases s@.len() - i,
    {
        let c = s[i];
        if !('0' <= c && c <= '9') {
            assert(d[i - start] == c);
            assert(!all_digits(d));
            return None;
        }
        proof {
            assert(d.take(i - start + 1).drop_last() =~= d.take(i - start));
            assert(d.take(i - start + 1).last() == c);
        }
        let dv: usize = (c as u32 - 48) as usize;
        match v.checked_mul(10) {
            Some(m) => match m.checked_add(dv) {
                Some(n) => {
                    v = n;
                },
                None => {
                    proof {
                        if all_digits(d) {
                            lemma_digits_value_mono(d, i - start + 1);
                        }
                    }
                    return None;
                },
            },
            None => {
                proof {
                    if all_digits(d) {
                        lemma_digits_value_mono(d, i - start + 1);
                    }
                }
                return None;
            },
        }
        i += 1;
    }
    assert(d.take(i - start) =~= d);
    Some(v)
}


/// `t` without its trailing line-end chars.
pub open spec fn trim_line_ends(t: Seq<char>) -> Seq<char> {
    t.take(trim_end_pos(t, 0, t.len() as int))
}

/// The text of a range with its trailing line-end chars cut off.
fn trimmed_range<B: CoreBuffer>(core: &Core<B>, range: (CursorBound, CursorBound)) -> (r: String)
    requires
        range_valid(core.text(), range),
    ensures
        r@ == trim_line_ends(range_text(core.text(), range)),
{
    let t = core.get_string_range(range);
    let n = t.as_str().unicode_len();
    let mut k = n;
    proof {
        crate::edit_core::model::lemma_trim_end_pos_bounds(t@, 0, n as int);
    }
    while k > 0 && is_line_end(t.as_str().get_char(k - 1))
        invariant
            n == t@.len(),
            k <= n,
            trim_end_pos(t@, 0, n as int) == trim_end_pos(t@, 0, k as int),
        decreases k,
    {
        k = k - 1;
    }
    let sub = t.as_str().substring_char(0, k);
    assert(t@.subrange(0, k as int) =~= t@.take(k as int));
    String::from_str(sub)
}

/// The first column at or after `i` on a line that holds `c`.
pub open spec fn scan_right_col(line: Seq<char>, i: nat, c: char) -> Option<nat>
    decreases line.len() - i,
{
    if i >= line.len() {
        None
    } else if line[i as int] == c {
        Some(i)
    } else {
        scan_right_col(line, i + 1, c)
    }
}

/// The last column before `i` on a line that holds `c`.
pub open spec fn scan_left_col(line: Seq<char>, i: nat, c: char) -> Option<nat>
    decreases i,
{
    if i == 0 {
        None
    } else if line[i - 1] == c {
        Some((i - 1) as nat)
    } else {
        scan_left_col(line, (i - 1) as nat, c)
    }
}

/// Where `f`/`F` followed by `c` puts the cursor.
pub open spec fn find_target(s: Seq<char>, cur: Cursor, c: char, to_right: bool) -> Cursor {
    let line = line_text(s, cur.row as nat);
    let found = if to_right {
        scan_right_col(line, (cur.col + 1) as nat, c)
    } else {
        scan_left_col(line, if cur.col <= line.len() { cur.col as nat } else { line.len() }, c)
    };
    match found {
        Some(col) => Cursor { row: cur.row, col: col as usize },
        None => cur,
    }
}

/// What a key does in `f`/`F` mode.
pub open spec fn find_post<B: CoreBuffer>(m0: Find, b0: &Buffer<B>, b1: &Buffer<B>, ev: Event, t: Transition) -> bool {
    &&& moved_only(b0, b1)
    &&& match ev {
        Event::Key(Key::Esc) => is_return(t, false) && b1.core.cur() == b0.core.cur(),
        Event::Key(Key::Char(c)) => if !is_control_spec(c) {
            &&& is_return(t, false)
            &&& b1.core.cur() == find_target(b0.core.text(), b0.core.cur(), c, m0.to_right)
        } else {
            t is Nothing && b1.core.cur() == b0.core.cur()
        },
        _ => t is Nothing && b1.core.cur() == b0.core.cur(),
    }
}

impl Find {
    /// `Esc` goes back; a printable char moves the cursor to the next (or
    /// previous) place on the line that holds it, and goes back.
    pub fn event<B: CoreBuffer>(&self, buf: &mut Buffer<B>, ev: Event) -> (t: Transition)
        requires
            old(buf).wf(),
        ensures
            find_post(*self, old(buf), final(buf), ev, t),

    {
        match ev {
            Event::Key(Key::Esc) => {
                return Transition::Return(TransitionReturn { message: None, is_commit_dot_macro: false });
            },
            Event::Key(Key::Char(c)) => {
                if !is_control(c) {
                    let cursor = buf.core.cursor();
                    let line = buf.core.current_line();
                    let n = line.as_str().unicode_len();
                    let ghost ln = line@;
                    proof {
                        buf.core.lemma_wf();
                        crate::edit_core::model::lemma_line_len_bounds(buf.core.text(), cursor.row as nat);
                    }
                    if self.to_right {
                        let mut i = if cursor.col >= n {
                            n
                        } else {
                            cursor.col + 1
                        };
                        proof {
                            if cursor.col >= n {
                                lemma_scan_right_end(ln, (cursor.col + 1) as nat, c);
                            }
                        }
                        while i < n
                            invariant
                                n == ln.len(),
                                i <= n,
                                line@ == ln,
                                scan_right_col(ln, (cursor.col + 1) as nat, c) == scan_right_col(ln, i as nat, c),
                            ensures
                                i <= n,
                                i < n ==> ln[i as int] == c,
                                scan_right_col(ln, (cursor.col + 1) as nat, c) == scan_right_col(ln, i as nat, c),
                            decreases n - i,
                        {
                            if line.as_str().get_char(i) == c {
                                break;
                            }
                            i += 1;
                        }
                        if i < n {
                            proof {
                                crate::edit_core::model::lemma_valid_up_to_line_len(buf.core.text(), cursor.row as nat, i as nat);
                            }
                            buf.core.place_cursor(Cursor { row: cursor.row, col: i });
                        }
                    } else {
                        let mut i = if cursor.col <= n { cursor.col } else { n };
                        while i > 0
                            invariant
                                n == ln.len(),
                                i <= n,
                                line@ == ln,
                                scan_left_col(ln, (if cursor.col <= n { cursor.col } else { n }) as nat, c)
                                    == scan_left_col(ln, i as nat, c),
                            ensures
                                i <= n,
                                i > 0 ==> ln[i - 1] == c,
                                scan_left_col(ln, (if cursor.col <= n { cursor.col } else { n }) as nat, c)
                                    == scan_left_col(ln, i as nat, c),
                            decreases i,
                        {
                            if line.as_str().get_char(i - 1) == c {
                                break;
                            }
                            i -= 1;
                        }
                        if i > 0 {
                            proof {
                                crate::edit_core::model::lemma_valid_up_to_line_len(buf.core.text(), cursor.row as nat, (i - 1) as nat);
                            }
                            buf.core.place_cursor(Cursor { row: cursor.row, col: i - 1 });
                        }
                    }
                    return Transition::Return(TransitionReturn { message: None, is_commit_dot_macro: false });
                }
            },
            _ => {},
        }
        Transition::Nothing
    }
}

proof fn lemma_scan_right_end(line: Seq<char>, i: nat, c: char)
    requires
        i >= line.len(),
    ensures
        scan_right_col(line, i, c) == scan_right_col(line, line.len(), c),
{
}



/// The text after `r` followed by `c`: the char under the cursor, if any,
/// gives way to `c`.
pub open spec fn replace_text(s: Seq<char>, cur: Cursor, c: char) -> Seq<char> {
    let p = cursor_index(s, cur);
    let t = if char_at_spec(s, cur) is Some {
        s.take(p) + s.skip(p + 1)
    } else {
        s
    };
    crate::edit_core::buffer::insert_at(t, p, seq![c])
}

fn return_plain(commit: bool) -> (t: Transition)
    ensures
        is_return(t, commit),
{
    Transition::Return(TransitionReturn { message: None, is_commit_dot_macro: commit })
}

/// `r`: `Esc` goes back; a char replaces the one under the cursor and goes
/// back, keeping the keys as the macro to repeat.
pub fn r_event<B: CoreBuffer>(buf: &mut Buffer<B>, ev: Event) -> (t: Transition)
    requires
        old(buf).wf(),
    ensures
        settings_kept(old(buf), final(buf)),
        final(buf).search == old(buf).search,
        final(buf).yank == old(buf).yank,
        (match ev {
            Event::Key(Key::Esc) => is_return(t, false) && unchanged(old(buf), final(buf)),
            Event::Key(Key::Char(c)) => {
                &&& is_return(t, true)
                &&& old(buf).core.text().len() < usize::MAX ==> {
                    &&& final(buf).core.edit_recorded(&old(buf).core)
                    &&& final(buf).core.text() == replace_text(
                        old(buf).core.text(),
                        old(buf).core.cur(),
                        c,
                    )
                }
            },
            _ => t is Nothing && unchanged(old(buf), final(buf)),
        }),
{
    match ev {
        Event::Key(Key::Esc) => return_plain(false),
        Event::Key(Key::Char(c)) => {
            if buf.core.len_chars() < usize::MAX {
                buf.core.replace(c);
            }
            return_plain(true)
        },
        _ => Transition::Nothing,
    }
}

/// Typing the search pattern: `Esc` or Enter goes back, Backspace takes a
/// char off, any other char is added.
pub fn search_event<B: CoreBuffer>(buf: &mut Buffer<B>, ev: Event) -> (t: Transition)
    requires
        old(buf).wf(),
    ensures
        settings_kept(old(buf), final(buf)),
        final(buf).core == old(buf).core,
        final(buf).yank == old(buf).yank,
        (match ev {
            Event::Key(Key::Esc) => is_return(t, false) && final(buf).search@ == old(buf).search@,
            Event::Key(Key::Backspace) => t is Nothing && final(buf).search@ == (if old(
                buf,
            ).search@.len() > 0 {
                old(buf).search@.drop_last()
            } else {
                old(buf).search@
            }),
            Event::Key(Key::Char(c)) => if c == '\n' {
                is_return(t, false) && final(buf).search@ == old(buf).search@
            } else {
                t is Nothing && final(buf).search@ == old(buf).search@.push(c)
            },
            _ => t is Nothing && final(buf).search@ == old(buf).search@,
        }),
{
    match ev {
        Event::Key(Key::Esc) => return_plain(false),
        Event::Key(Key::Backspace) => {
            buf.search.pop();
            Transition::Nothing
        },
        Event::Key(Key::Char(c)) => {
            if c == '\n' {
                return return_plain(false);
            }
            buf.search.push(c);
            Transition::Nothing
        },
        _ => Transition::Nothing,
    }
}

impl Save {
    /// Typing the path: `Esc` goes back, Backspace takes a char off, Enter
    /// asks for the text to be saved there.
    pub fn event<B: CoreBuffer>(&mut self, buf: &mut Buffer<B>, ev: Event) -> (t: Transition)
        requires
            old(buf).wf(),
        ensures
            *final(buf) == *old(buf),
            (match ev {
                Event::Key(Key::Esc) => is_return(t, false) && final(self).path@ == old(self).path@,
                Event::Key(Key::Backspace) => t is Nothing && final(self).path@ == (if old(
                    self,
                ).path@.len() > 0 {
                    old(self).path@.drop_last()
                } else {
                    old(self).path@
                }),
                Event::Key(Key::Char(c)) => if c == '\n' {
                    t matches Transition::Request(Request::SaveAs(p)) && p@ == old(self).path@
                } else {
                    t is Nothing && final(self).path@ == old(self).path@.push(c)
                },
                _ => t is Nothing && final(self).path@ == old(self).path@,
            }),
    {
        match ev {
            Event::Key(Key::Esc) => return_plain(false),
            Event::Key(Key::Backspace) => {
                self.path = pop_char(&self.path);
                Transition::Nothing
            },
            Event::Key(Key::Char(c)) => {
                if c == '\n' {
                    return Transition::Request(Request::SaveAs(self.path.clone()));
                }
                self.path = push_char(&self.path, c);
                Transition::Nothing
            },
            _ => Transition::Nothing,
        }
    }
}

/// `s` without its last char (unchanged when empty).
fn pop_char(s: &String) -> (r: String)
    ensures
        r@ == (if s@.len() > 0 {
            s@.drop_last()
        } else {
            s@
        }),
{
    let n = s.as_str().unicode_len();
    if n == 0 {
        return s.clone();
    }
    let sub = s.as_str().substring_char(0, n - 1);
    assert(s@.subrange(0, n - 1) =~= s@.drop_last());
    String::from_str(sub)
}

/// `s` with `c` added.
fn push_char(s: &String, c: char) -> (r: String)
    ensures
        r@ == s@.push(c),
{
    let mut r = s.clone();
    crate::strings::string_push(&mut r, c);
    r
}



impl Goto {
    /// Typing a line number: `Esc` goes back, Backspace takes a char off,
    /// Enter goes to the start of that line (the last one if there are
    /// fewer), or reports that the number does not parse.
    pub fn event<B: CoreBuffer>(&mut self, buf: &mut Buffer<B>, ev: Event) -> (t: Transition)
        requires
            old(buf).wf(),
        ensures
            moved_only(old(buf), final(buf)),
            (match ev {
                Event::Key(Key::Esc) => is_return(t, false) && final(buf).core.cur() == old(
                    buf,
                ).core.cur() && final(self).row@ == old(self).row@,
                Event::Key(Key::Backspace) => t is Nothing && final(buf).core.cur() == old(
                    buf,
                ).core.cur() && final(self).row@ == (if old(self).row@.len() > 0 {
                    old(self).row@.drop_last()
                } else {
                    old(self).row@
                }),
                Event::Key(Key::Char(c)) => if c == '\n' {
                    match parse_usize_spec(old(self).row@) {
                        Some(n) => {
                            let row = if n > 0 {
                                n - 1
                            } else {
                                0
                            };
                            let last = line_count(old(buf).core.text()) - 1;
                            &&& is_return(t, false)
                            &&& final(buf).core.cur() == Cursor {
                                row: (if row <= last {
                                    row
                                } else {
                                    last
                                }) as usize,
                                col: 0,
                            }
                        },
                        None => {
                            &&& t matches Transition::Return(r)
                            &&& r.message matches Some(m)
                            &&& m@ == "[Goto] Parse failed"@
                            &&& !r.is_commit_dot_macro
                            &&& final(buf).core.cur() == old(buf).core.cur()
                        },
                    }
                } else {
                    t is Nothing && final(buf).core.cur() == old(buf).core.cur() && final(self).row@
                        == old(self).row@.push(c)
                },
                _ => t is Nothing && final(buf).core.cur() == old(buf).core.cur()
                    && final(self).row@ == old(self).row@,
            }),
    {
        match ev {
            Event::Key(Key::Esc) => return_plain(false),
            Event::Key(Key::Backspace) => {
                self.row.pop();
                Transition::Nothing
            },
            Event::Key(Key::Char(c)) => {
                if c == '\n' {
                    match parse_usize(&self.row) {
                        Some(n) => {
                            let mut row = if n > 0 {
                                n - 1
                            } else {
                                0
                            };
                            let last = buf.core.len_lines() - 1;
                            if row > last {
                                row = last;
                            }
                            proof {
                                crate::edit_core::model::lemma_valid_up_to_line_len(
                                    buf.core.text(),
                                    row as nat,
                                    0,
                                );
                            }
                            buf.core.place_cursor(Cursor { row, col: 0 });
                            buf.show_cursor();
                            return_plain(false)
                        },
                        None => {
                            let m = String::from_str("[Goto] Parse failed");
                            proof {
                                reveal_strlit("[Goto] Parse failed");
                            }
                            Transition::Return(
                                TransitionReturn { message: Some(m), is_commit_dot_macro: false },
                            )
                        },
                    }
                } else {
                    self.row.push(c);
                    Transition::Nothing
                }
            },
            _ => Transition::Nothing,
        }
    }
}

/// A cursor on a line of the text, at most at the line's end.
pub open spec fn on_text_spec(s: Seq<char>, c: Cursor) -> bool {
    c.row < line_count(s) && c.col <= line_len(s, c.row as nat)
}

/// The brackets that `S` puts around a selection for the key `c`.
pub open spec fn surround_pair(c: char) -> (char, char) {
    match paren_pair_spec(c) {
        Some(p) => p,
        None => (c, c),
    }
}

/// The text after surrounding the selection from `l` to `r` (inclusive)
/// with `cl` and `cr`.
pub open spec fn surround_text(s: Seq<char>, l: Cursor, r: Cursor, cl: char, cr: char) -> Seq<char> {
    let after = match crate::edit_core::inc_spec(s, r) {
        Some(n) => cursor_index(s, n),
        None => cursor_index(s, r),
    };
    let t = crate::edit_core::buffer::insert_at(s, after, seq![cr]);
    crate::edit_core::buffer::insert_at(t, cursor_index(s, l), seq![cl])
}

/// `S` in visual mode: `Esc` goes back; a printable char puts the bracket
/// pair it belongs to (or the char itself twice) around the selection.
pub fn s_event<B: CoreBuffer>(range: CursorRange, buf: &mut Buffer<B>, ev: Event) -> (t: Transition)
    requires
        old(buf).wf(),
    ensures
        settings_kept(old(buf), final(buf)),
        final(buf).search == old(buf).search,
        final(buf).yank == old(buf).yank,
        (match ev {
            Event::Key(Key::Esc) => is_return(t, false) && unchanged(old(buf), final(buf)),
            Event::Key(Key::Char(c)) => if !is_control_spec(c) {
                let s = old(buf).core.text();
                let l = crate::edit_core::cursor_min(range.0, range.1);
                let r = crate::edit_core::cursor_max(range.0, range.1);
                &&& is_return(t, false)
                &&& (on_text_spec(s, l) && on_text_spec(s, r) && s.len() + 2 <= usize::MAX)
                    ==> final(buf).core.text() == surround_text(
                    s,
                    l,
                    r,
                    surround_pair(c).0,
                    surround_pair(c).1,
                )
            } else {
                t is Nothing && unchanged(old(buf), final(buf))
            },
            _ => t is Nothing && unchanged(old(buf), final(buf)),
        }),
{
    match ev {
        Event::Key(Key::Esc) => return_plain(false),
        Event::Key(Key::Char(c)) => {
            if is_control(c) {
                return Transition::Nothing;
            }
            let l = range.l();
            let r = range.r();
            let (cl, cr) = match paren_pair(c) {
                Some(p) => p,
                None => (c, c),
            };
            if buf.core.on_text(l) && buf.core.on_text(r) && buf.core.len_chars() < usize::MAX - 1 {
                let ghost s = buf.core.text();
                proof {
                    buf.core.lemma_wf();
                    crate::edit_core::lemma_cursor_order(s, l, r);
                    crate::edit_core::lemma_inc_spec(s, r);
                }
                buf.core.place_cursor(r);
                buf.core.cursor_inc();
                let ghost after = cursor_index(s, buf.core.cur());
                buf.core.insert(cr);
                proof {
                    let t1 = buf.core.text();
                    assert(t1.take(cursor_index(s, l)) =~= s.take(cursor_index(s, l)));
                    crate::edit_core::buffer::lemma_cursor_prefix(s, t1, l);
                    crate::edit_core::model::lemma_valid_before_next_line(t1, l.row as nat, l.col as nat);
                }
                buf.core.place_cursor(l);
                buf.core.insert(cl);
                buf.core.commit();
            }
            return_plain(false)
        },
        _ => Transition::Nothing,
    }
}


/// The text after indenting line `row` as the line above asks (what
/// `Buffer::indent` does), as far as the text can grow.
/// Where the cursor lands once line `row` of `s` is indented: after the
/// spaces put in (at the start of the text on the first line).
pub open spec fn indent_cursor(s: Seq<char>, row: nat, width: usize) -> Cursor {
    if row == 0 {
        Cursor { row: 0, col: 0 }
    } else {
        let n = (width * crate::indent::next_indent_level_spec(
            line_text(s, (row - 1) as nat),
            width as nat,
        )) as nat;
        let k = if s.len() + n <= usize::MAX {
            n
        } else {
            (usize::MAX - s.len()) as nat
        };
        Cursor { row: row as usize, col: k as usize }
    }
}

pub open spec fn indent_result(s: Seq<char>, row: nat, width: usize) -> Seq<char> {
    if row == 0 {
        s
    } else {
        let n = (width * crate::indent::next_indent_level_spec(
            line_text(s, (row - 1) as nat),
            width as nat,
        )) as nat;
        let k = if s.len() + n <= usize::MAX {
            n
        } else {
            (usize::MAX - s.len()) as nat
        };
        crate::edit_core::buffer::insert_at(
            s,
            crate::edit_core::model::line_start(s, row) as int,
            crate::edit_core::spaces(k),
        )
    }
}

/// The range that takes out lines `a..=b` whole with one line break: the
/// break after line `b`, or, when `b` is the last line, the break before
/// line `a`.
pub open spec fn lines_bounds(s: Seq<char>, a: nat, b: nat) -> (CursorBound, CursorBound) {
    if b + 1 < line_count(s) {
        (
            CursorBound::Included(Cursor { row: a as usize, col: 0 }),
            CursorBound::Excluded(Cursor { row: (b + 1) as usize, col: 0 }),
        )
    } else if a > 0 {
        (
            CursorBound::Included(
                Cursor { row: (a - 1) as usize, col: line_len(s, (a - 1) as nat) as usize },
            ),
            CursorBound::Unbounded,
        )
    } else {
        (CursorBound::Included(Cursor { row: 0, col: 0 }), CursorBound::Unbounded)
    }
}

/// The text of lines `a..=b` without the trailing line-end chars.
pub open spec fn lines_content(s: Seq<char>, a: nat, b: nat) -> Seq<char> {
    trim_line_ends(
        range_text(
            s,
            (
                CursorBound::Included(Cursor { row: a as usize, col: 0 }),
                CursorBound::Excluded(Cursor { row: b as usize, col: line_len(s, b) as usize }),
            ),
        ),
    )
}

fn lines_bounds_exec<B: CoreBuffer>(core: &Core<B>, a: usize, b: usize) -> (r: (CursorBound, CursorBound))
    requires
        core.wf(),
        a <= b,
        b < line_count(core.text()),
    ensures
        r == lines_bounds(core.text(), a as nat, b as nat),
        range_valid(core.text(), r),
{
    let ghost s = core.text();
    proof {
        core.lemma_wf();
        crate::edit_core::model::lemma_line_start_le_len(s, (b + 1) as nat);
    }
    if b < core.len_lines() - 1 {
        proof {
            crate::edit_core::model::lemma_valid_up_to_line_len(s, a as nat, 0);
            crate::edit_core::model::lemma_valid_up_to_line_len(s, (b + 1) as nat, 0);
            crate::edit_core::model::lemma_line_start_mono(s, a as nat, (b + 1) as nat);
        }
        (
            CursorBound::Included(Cursor { row: a, col: 0 }),
            CursorBound::Excluded(Cursor { row: b + 1, col: 0 }),
        )
    } else if a > 0 {
        let n = core.len_line(a - 1);
        proof {
            crate::edit_core::model::lemma_valid_up_to_line_len(s, (a - 1) as nat, n as nat);
        }
        (CursorBound::Included(Cursor { row: a - 1, col: n }), CursorBound::Unbounded)
    } else {
        proof {
            crate::edit_core::model::lemma_valid_up_to_line_len(s, 0, 0);
        }
        (CursorBound::Included(Cursor { row: 0, col: 0 }), CursorBound::Unbounded)
    }
}

fn lines_content_exec<B: CoreBuffer>(core: &Core<B>, a: usize, b: usize) -> (r: String)
    requires
        core.wf(),
        a <= b,
        b < line_count(core.text()),
    ensures
        r@ == lines_content(core.text(), a as nat, b as nat),
{
    let ghost s = core.text();
    let n = core.len_line(b);
    proof {
        core.lemma_wf();
        crate::edit_core::model::lemma_valid_up_to_line_len(s, a as nat, 0);
        crate::edit_core::model::lemma_valid_up_to_line_len(s, b as nat, n as nat);
        crate::edit_core::model::lemma_line_start_mono(s, a as nat, b as nat);
    }
    trimmed_range(
        core,
        (CursorBound::Included(Cursor { row: a, col: 0 }), CursorBound::Excluded(Cursor { row: b, col: n })),
    )
}

/// The lines that `j` (with the next line) or `k` (with the line above)
/// cover, when there is such a line.
pub open spec fn jk_lines(s: Seq<char>, row: nat, c: char) -> Option<(nat, nat)> {
    if c == 'j' {
        if row + 1 < line_count(s) {
            Some((row, row + 1))
        } else {
            None
        }
    } else if row > 0 {
        Some(((row - 1) as nat, row))
    } else {
        None
    }
}

/// `c` with `j`/`k`: lines `a..=b` go, an empty line takes their place
/// (unless they were all the lines), indented as the line above asks.
fn change_lines<B: CoreBuffer>(buf: &mut Buffer<B>, a: usize, b: usize)
    requires
        old(buf).wf(),
        a <= b < line_count(old(buf).core.text()),
    ensures
        settings_kept(old(buf), final(buf)),
        final(buf).search == old(buf).search,
        final(buf).yank == old(buf).yank,
        ({
            let s = old(buf).core.text();
            let r = remove_range(s, lines_bounds(s, a as nat, b as nat));
            &&& (b + 1 < line_count(s) && s.len() < usize::MAX) ==> {
                let opened = crate::edit_core::buffer::insert_at(
                    r,
                    crate::edit_core::model::line_start(r, a as nat) as int,
                    seq!['\n'],
                );
                &&& final(buf).core.text() == indent_result(opened, a as nat, old(buf).indent_width)
                &&& final(buf).core.cur() == indent_cursor(opened, a as nat, old(buf).indent_width)
            }
            &&& (b + 1 >= line_count(s) && a > 0 && s.len() < usize::MAX) ==> {
                let opened = crate::edit_core::buffer::insert_at(
                    r,
                    (crate::edit_core::model::line_start(r, (a - 1) as nat) + line_len(r, (a - 1) as nat)) as int,
                    seq!['\n'],
                );
                &&& final(buf).core.text() == indent_result(opened, a as nat, old(buf).indent_width)
                &&& final(buf).core.cur() == indent_cursor(opened, a as nat, old(buf).indent_width)
            }
            &&& (b + 1 >= line_count(s) && a == 0) ==> {
                &&& final(buf).core.text() == r
                &&& final(buf).core.cur() == Cursor { row: 0, col: 0 }
            }
        }),
{
    proof {
        buf.core.lemma_wf();
    }
    let last = buf.core.len_lines() - 1;
    let range = lines_bounds_exec(&buf.core, a, b);
    buf.core.delete_range(range);
    if buf.core.len_chars() < usize::MAX {
        if b != last {
            buf.core.insert_newline_here();
        } else if a > 0 {
            buf.core.insert_newline();
        }
    }
    buf.core.commit();
    buf.indent();
}

impl TextObjectOperation {
    /// After `d`, `y` or `c`: the operator key again works on the line,
    /// `j`/`k` on it and the next/previous line, and other keys on the text
    /// object they name; the text worked on is yanked. `d` deletes and goes
    /// back, `y` only goes back, `c` deletes and goes to insert mode.
    #[verifier::spinoff_prover]
    #[verifier::rlimit(60)]
    pub fn event<B: CoreBuffer>(&mut self, buf: &mut Buffer<B>, ev: Event) -> (t: Transition)
        requires
            old(buf).wf(),
        ensures
            text_object_post(*old(self), *final(self), old(buf), final(buf), ev, t),
    {
        let c = match ev {
            Event::Key(Key::Esc) => {
                return return_plain(false);
            },
            Event::Key(Key::Char(c)) => c,
            _ => {
                return Transition::Nothing;
            },
        };
        proof {
            buf.core.lemma_wf();
        }
        let action = self.parser.action;
        let cur = buf.core.cursor();
        if c == action.to_char() {
            buf.yank = Yank { insert_newline: true, content: buf.core.current_line() };
            match action {
                Action::Delete => {
                    let range = lines_bounds_exec(&buf.core, cur.row, cur.row);
                    buf.core.delete_range(range);
                    buf.core.commit();
                    return return_plain(true);
                },
                Action::Yank => {
                    return return_plain(false);
                },
                Action::Change => {
                    let n = buf.core.len_current_line();
                    proof {
                        crate::edit_core::model::lemma_valid_up_to_line_len(buf.core.text(), cur.row as nat, 0);
                        crate::edit_core::model::lemma_valid_up_to_line_len(buf.core.text(), cur.row as nat, n as nat);
                    }
                    buf.core.place_cursor(Cursor { row: cur.row, col: 0 });
                    if n > 0 {
                        buf.core.delete_range(
                            (
                                CursorBound::Included(Cursor { row: cur.row, col: 0 }),
                                CursorBound::Excluded(Cursor { row: cur.row, col: n }),
                            ),
                        );
                    } else {
                        proof {
                            let s = buf.core.text();
                            assert(remove_range(
                                s,
                                (
                                    CursorBound::Included(Cursor { row: cur.row, col: 0 }),
                                    CursorBound::Excluded(Cursor { row: cur.row, col: 0 }),
                                ),
                            ) =~= s);
                        }
                    }
                    buf.core.commit();
                    buf.indent();
                    return Transition::Trans(Mode::Insert(Insert::default()));
                },
            }
        }
        if c == 'j' || c == 'k' {
            let last = buf.core.len_lines() - 1;
            let (a, b) = if c == 'j' {
                if cur.row >= last {
                    return return_plain(false);
                }
                (cur.row, cur.row + 1)
            } else {
                if cur.row == 0 {
                    return return_plain(false);
                }
                (cur.row - 1, cur.row)
            };
            buf.yank = Yank { insert_newline: true, content: lines_content_exec(&buf.core, a, b) };
            let range = lines_bounds_exec(&buf.core, a, b);
            match action {
                Action::Delete => {
                    buf.core.delete_range(range);
                    buf.core.commit();
                    return return_plain(true);
                },
                Action::Yank => {
                    return return_plain(false);
                },
                Action::Change => {
                    change_lines(buf, a, b);
                    return Transition::Trans(Mode::Insert(Insert::default()));
                },
            }
        }
        match self.parser.parse(c, &buf.core) {
            Some(range) => {
                buf.yank = Yank { insert_newline: false, content: buf.core.get_string_range(range) };
                match action {
                    Action::Delete => {
                        buf.core.delete_range(range);
                        buf.core.commit();
                        return_plain(true)
                    },
                    Action::Change => {
                        buf.core.delete_range(range);
                        buf.core.commit();
                        Transition::Trans(Mode::Insert(Insert::default()))
                    },
                    Action::Yank => return_plain(false),
                }
            },
            None => Transition::Nothing,
        }
    }
}


/// The two ends of a selection, earlier end first; in line mode widened to
/// whole lines (up to the last line's end, not its break).
pub open spec fn selection_ends(s: Seq<char>, anchor: Cursor, to: Cursor, line_mode: bool) -> (Cursor, Cursor) {
    let l = crate::edit_core::cursor_min(anchor, to);
    let r = crate::edit_core::cursor_max(anchor, to);
    if line_mode {
        (Cursor { row: l.row, col: 0 }, Cursor { row: r.row, col: line_len(s, r.row as nat) as usize })
    } else {
        (l, r)
    }
}

/// The range a selection covers: both ends included.
pub open spec fn selection_bounds(s: Seq<char>, anchor: Cursor, to: Cursor, line_mode: bool) -> (CursorBound, CursorBound) {
    let e = selection_ends(s, anchor, to, line_mode);
    (
        CursorBound::Included(e.0),
        match crate::edit_core::inc_spec(s, e.1) {
            Some(n) => CursorBound::Excluded(n),
            None => CursorBound::Unbounded,
        },
    )
}

/// The anchor of a selection, where it still stands in the text; the
/// buffer's cursor otherwise.
pub open spec fn anchor_in(s: Seq<char>, anchor: Cursor, cur: Cursor) -> Cursor {
    if on_text_spec(s, anchor) {
        anchor
    } else {
        cur
    }
}

/// What a selection yanks: its text, without trailing line breaks in line
/// mode.
pub open spec fn selection_text(s: Seq<char>, anchor: Cursor, to: Cursor, line_mode: bool) -> Seq<char> {
    let t = range_text(s, selection_bounds(s, anchor, to, line_mode));
    if line_mode {
        trim_line_ends(t)
    } else {
        t
    }
}

impl Visual {
    /// The ends of the selection and its range.
    fn ends<B: CoreBuffer>(&self, core: &Core<B>) -> (r: (Cursor, Cursor, (CursorBound, CursorBound)))
        requires
            core.wf(),
        ensures
            ({
                let s = core.text();
                let a = anchor_in(s, self.cursor, core.cur());
                &&& (r.0, r.1) == selection_ends(s, a, core.cur(), self.line_mode)
                &&& r.2 == selection_bounds(s, a, core.cur(), self.line_mode)
                &&& range_valid(s, r.2)
                &&& cursor_valid(s, r.0)
                &&& cursor_valid(s, r.1)
            }),
    {
        let ghost s = core.text();
        let to = core.cursor();
        proof {
            core.lemma_wf();
        }
        let anchor = if core.on_text(self.cursor) {
            self.cursor
        } else {
            to
        };
        let mut l = crate::edit_core::min_cursor(anchor, to);
        let mut r = crate::edit_core::max_cursor(anchor, to);
        if self.line_mode {
            l = Cursor { row: l.row, col: 0 };
            let n = core.len_line(r.row);
            r = Cursor { row: r.row, col: n };
            proof {
                crate::edit_core::model::lemma_valid_up_to_line_len(s, l.row as nat, 0);
                crate::edit_core::model::lemma_valid_up_to_line_len(s, r.row as nat, n as nat);
                crate::edit_core::model::lemma_line_start_mono(s, l.row as nat, r.row as nat);
            }
        }
        proof {
            crate::edit_core::lemma_cursor_order(s, l, r);
            crate::edit_core::lemma_inc_spec(s, r);
        }
        let end = match core.next_cursor(r) {
            Some(n) => CursorBound::Excluded(n),
            None => CursorBound::Unbounded,
        };
        proof {
            crate::edit_core::model::lemma_valid_before_next_line(s, r.row as nat, r.col as nat);
        }
        (l, r, (CursorBound::Included(l), end))
    }
}


/// Where a motion key moves the cursor: `h`, `j`, `k`, `l`, `w`, `b`, `e`,
/// `g` (start of the text) and `G` (end of the text).
pub open spec fn motion(s: Seq<char>, cur: Cursor, c: char) -> Option<Cursor> {
    if c == 'h' {
        Some(
            if cur.col != 0 {
                Cursor { row: cur.row, col: (cur.col - 1) as usize }
            } else {
                cur
            },
        )
    } else if c == 'l' {
        let n = line_len(s, cur.row as nat);
        Some(Cursor { row: cur.row, col: (if cur.col + 1 <= n { cur.col + 1 } else { n as int }) as usize })
    } else if c == 'k' {
        Some(
            if cur.row == 0 {
                cur
            } else {
                let n = line_len(s, (cur.row - 1) as nat);
                Cursor {
                    row: (cur.row - 1) as usize,
                    col: if cur.col <= n {
                        cur.col
                    } else {
                        n as usize
                    },
                }
            },
        )
    } else if c == 'j' {
        let row = if cur.row + 1 < line_count(s) {
            cur.row + 1
        } else {
            line_count(s) - 1
        };
        let n = line_len(s, row as nat);
        Some(Cursor { row: row as usize, col: if cur.col <= n { cur.col } else { n as usize } })
    } else if c == 'w' {
        Some(crate::edit_core::w_spec(s, cur))
    } else if c == 'b' {
        Some(crate::edit_core::b_spec(s, cur))
    } else if c == 'e' {
        Some(crate::edit_core::e_spec(s, cur))
    } else if c == 'g' {
        Some(Cursor { row: 0, col: 0 })
    } else if c == 'G' {
        Some(crate::edit_core::buffer::end_cursor_spec(s))
    } else {
        None
    }
}

/// Moves the cursor as the motion key `c` says; `false` for any other key.
fn apply_motion<B: CoreBuffer>(buf: &mut Buffer<B>, c: char) -> (moved: bool)
    requires
        old(buf).wf(),
    ensures
        moved_only(old(buf), final(buf)),
        moved == motion(old(buf).core.text(), old(buf).core.cur(), c) is Some,
        match motion(old(buf).core.text(), old(buf).core.cur(), c) {
            Some(n) => final(buf).core.cur() == n && final(buf).show_cursor_on_draw == ShowCursor::Show,
            None => *final(buf) == *old(buf),
        },
{
    if c == 'h' {
        buf.core.cursor_left();
    } else if c == 'l' {
        buf.core.cursor_right();
    } else if c == 'k' {
        buf.core.cursor_up();
    } else if c == 'j' {
        buf.core.cursor_down();
    } else if c == 'w' {
        buf.core.w();
    } else if c == 'b' {
        buf.core.b();
    } else if c == 'e' {
        buf.core.e();
    } else if c == 'g' {
        proof {
            crate::edit_core::model::lemma_valid_up_to_line_len(buf.core.text(), 0, 0);
        }
        buf.core.place_cursor(Cursor { row: 0, col: 0 });
    } else if c == 'G' {
        let end = buf.core.end_cursor();
        buf.core.place_cursor(end);
    } else {
        return false;
    }
    buf.show_cursor();
    true
}

fn message_return(m: &str, commit: bool) -> (t: Transition)
    ensures
        t matches Transition::Return(r) && r.message matches Some(x) && x@ == m@
            && r.is_commit_dot_macro == commit,
{
    Transition::Return(TransitionReturn { message: Some(String::from_str(m)), is_commit_dot_macro: commit })
}

impl Visual {
    /// Moves the cursor (the selection follows), or works on the selection:
    /// `d`/`x` delete it, `s` deletes it for insert mode, `p` puts the yank
    /// in its place, `y` yanks it, `S` surrounds it; Ctrl-`p` and Ctrl-`y`
    /// go through the clipboard. A click ends the selection.
    pub fn event<B: CoreBuffer>(&self, buf: &mut Buffer<B>, ev: Event) -> (t: Transition)
        requires
            old(buf).wf(),
        ensures
            settings_kept(old(buf), final(buf)),
            final(buf).search == old(buf).search,
            ({
                let s = old(buf).core.text();
                let cur = old(buf).core.cur();
                let a = anchor_in(s, self.cursor, cur);
                let ends = selection_ends(s, a, cur, self.line_mode);
                let bounds = selection_bounds(s, a, cur, self.line_mode);
                let text = selection_text(s, a, cur, self.line_mode);
                match ev {
                    Event::Key(Key::Esc) => is_return(t, false) && unchanged(old(buf), final(buf)),
                    Event::Key(Key::Char(c)) => if motion(s, cur, c) is Some {
                        &&& t is Nothing
                        &&& moved_only(old(buf), final(buf))
                        &&& final(buf).core.cur() == motion(s, cur, c)->0
                    } else if c == 'd' || c == 'x' || c == 's' {
                        &&& final(buf).yank.insert_newline == self.line_mode
                        &&& final(buf).yank.content@ == text
                        &&& !final(buf).core.pending()
                        &&& (c != 's' || ends.0.row == ends.1.row) ==> final(buf).core.text()
                            == remove_range(s, bounds)
                        &&& if c == 's' {
                            t matches Transition::Trans(Mode::Insert(_))
                        } else {
                            t matches Transition::Return(r) && r.message matches Some(m) && m@
                                == "Deleted"@ && r.is_commit_dot_macro
                        }
                    } else if c == 'p' {
                        &&& is_return(t, true)
                        &&& final(buf).yank == old(buf).yank
                        &&& !final(buf).core.pending()
                        &&& s.len() + old(buf).yank.content@.len() <= usize::MAX ==> final(buf).core.text()
                            == crate::edit_core::buffer::insert_at(
                            remove_range(s, bounds),
                            crate::edit_core::buffer::start_index(s, bounds.0),
                            old(buf).yank.content@,
                        )
                    } else if c == 'y' {
                        &&& t matches Transition::Return(r) && r.message matches Some(m) && m@
                            == "Yanked"@ && !r.is_commit_dot_macro
                        &&& final(buf).yank.insert_newline == self.line_mode
                        &&& final(buf).yank.content@ == text
                        &&& final(buf).core.moved_from(&old(buf).core)
                        &&& final(buf).core.cur() == ends.0
                    } else if c == 'S' {
                        &&& t matches Transition::Trans(Mode::S(r)) && r == CursorRange(ends.0, ends.1)
                        &&& unchanged(old(buf), final(buf))
                    } else {
                        t is Nothing && unchanged(old(buf), final(buf))
                    },
                    Event::Key(Key::Ctrl(c)) => if c == 'p' {
                        &&& t matches Transition::Request(Request::PasteFromClipboard)
                        &&& final(buf).core.text() == remove_range(s, bounds)
                        &&& final(buf).yank == old(buf).yank
                    } else if c == 'y' {
                        &&& t matches Transition::Request(Request::CopyToClipboard(x)) && x@ == text
                        &&& moved_only(old(buf), final(buf))
                        &&& final(buf).core.cur() == ends.0
                    } else {
                        t is Nothing && unchanged(old(buf), final(buf))
                    },
                    Event::Mouse(MouseEvent::Press(MouseButton::Left, p)) => {
                        &&& t matches Transition::Trans(Mode::Normal(_))
                        &&& moved_only(old(buf), final(buf))
                        &&& final(buf).core.cur() == (match p {
                            Some(q) => if on_text_spec(s, q) {
                                q
                            } else {
                                cur
                            },
                            None => cur,
                        })
                    },
                    Event::Mouse(MouseEvent::Hold(p)) => {
                        &&& t is Nothing
                        &&& moved_only(old(buf), final(buf))
                        &&& final(buf).core.cur() == (match p {
                            Some(q) => if on_text_spec(s, q) {
                                q
                            } else {
                                cur
                            },
                            None => cur,
                        })
                    },
                    _ => t is Nothing && unchanged(old(buf), final(buf)),
                }
            }),
    {
        proof {
            buf.core.lemma_wf();
        }
        match ev {
            Event::Key(Key::Esc) => return_plain(false),
            Event::Key(Key::Char(c)) => {
                if apply_motion(buf, c) {
                    return Transition::Nothing;
                }
                let (l, r, range) = self.ends(&buf.core);
                if c == 'd' || c == 'x' || c == 's' {
                    let to_insert = c == 's';
                    let content = if self.line_mode {
                        trimmed_range(&buf.core, range)
                    } else {
                        buf.core.get_string_range(range)
                    };
                    let delete_to_end = r.row == buf.core.len_lines() - 1;
                    buf.core.delete_range(range);
                    if to_insert && l.row != r.row {
                        if !delete_to_end && buf.core.len_chars() < usize::MAX {
                            buf.core.insert_newline_here();
                        }
                        buf.indent();
                    }
                    buf.core.commit();
                    buf.yank = Yank { insert_newline: self.line_mode, content };
                    buf.show_cursor();
                    if to_insert {
                        Transition::Trans(Mode::Insert(Insert::default()))
                    } else {
                        proof {
                            reveal_strlit("Deleted");
                        }
                        message_return("Deleted", true)
                    }
                } else if c == 'p' {
                    buf.core.delete_range(range);
                    proof {
                        let t = buf.core.text();
                        let p = cursor_index(old(buf).core.text(), l);
                        assert(t.take(p) =~= old(buf).core.text().take(p));
                        crate::edit_core::buffer::lemma_cursor_prefix(old(buf).core.text(), t, l);
                    }
                    let y = buf.yank.content.clone();
                    buf.insert_str(y.as_str());
                    buf.core.commit();
                    buf.show_cursor();
                    return_plain(true)
                } else if c == 'y' {
                    let content = if self.line_mode {
                        trimmed_range(&buf.core, range)
                    } else {
                        buf.core.get_string_range(range)
                    };
                    buf.core.place_cursor(l);
                    buf.yank = Yank { insert_newline: self.line_mode, content };
                    proof {
                        reveal_strlit("Yanked");
                    }
                    message_return("Yanked", false)
                } else if c == 'S' {
                    Transition::Trans(Mode::S(CursorRange(l, r)))
                } else {
                    Transition::Nothing
                }
            },
            Event::Key(Key::Ctrl(c)) => {
                let (l, _r, range) = self.ends(&buf.core);
                if c == 'p' {
                    buf.core.delete_range(range);
                    Transition::Request(Request::PasteFromClipboard)
                } else if c == 'y' {
                    let content = if self.line_mode {
                        trimmed_range(&buf.core, range)
                    } else {
                        buf.core.get_string_range(range)
                    };
                    buf.core.place_cursor(l);
                    Transition::Request(Request::CopyToClipboard(content))
                } else {
                    Transition::Nothing
                }
            },
            Event::Mouse(MouseEvent::Press(MouseButton::Left, p)) => {
                if let Some(q) = p {
                    if buf.core.on_text(q) {
                        buf.core.place_cursor(q);
                    }
                }
                Transition::Trans(Mode::Normal(Normal::default()))
            },
            Event::Mouse(MouseEvent::Hold(p)) => {
                if let Some(q) = p {
                    if buf.core.on_text(q) {
                        buf.core.place_cursor(q);
                    }
                }
                Transition::Nothing
            },
            _ => Transition::Nothing,
        }
    }
}


/// `n` copies of `c`.
pub open spec fn repeat(c: char, n: nat) -> Seq<char> {
    Seq::new(n, |i: int| c)
}

/// Everything in the buffer but its core stays as it was.
pub open spec fn core_only<B: CoreBuffer>(b0: &Buffer<B>, b1: &Buffer<B>) -> bool {
    &&& b1.wf()
    &&& b1.indent_width == b0.indent_width
    &&& b1.hard_tab == b0.hard_tab
    &&& b1.path == b0.path
    &&& b1.snippet == b0.snippet
    &&& b1.search == b0.search
    &&& b1.yank == b0.yank
    &&& b1.row_offset == b0.row_offset
    &&& b1.show_cursor_on_draw == b0.show_cursor_on_draw
}

/// Types `n` copies of `c` (not a line break) at the cursor, as far as the
/// text can grow.
fn insert_repeat<B: CoreBuffer>(buf: &mut Buffer<B>, c: char, n: usize)
    requires
        old(buf).wf(),
        c != '\n',
    ensures
        core_only(old(buf), final(buf)),
        final(buf).core.pending() || final(buf).core.moved_from(&old(buf).core),
        final(buf).core.cur().row == old(buf).core.cur().row,
        old(buf).core.cur().col <= final(buf).core.cur().col <= old(buf).core.cur().col + n,
        final(buf).core.text() == crate::edit_core::buffer::insert_at(
            old(buf).core.text(),
            cursor_index(old(buf).core.text(), old(buf).core.cur()),
            repeat(c, (final(buf).core.cur().col - old(buf).core.cur().col) as nat),
        ),
        n == 0 ==> *final(buf) == *old(buf),
        old(buf).core.text().len() + n <= usize::MAX ==> {
            &&& final(buf).core.text() == crate::edit_core::buffer::insert_at(
                old(buf).core.text(),
                cursor_index(old(buf).core.text(), old(buf).core.cur()),
                repeat(c, n as nat),
            )
            &&& final(buf).core.cur().col == old(buf).core.cur().col + n
            &&& n > 0 ==> final(buf).core.edit_recorded(&old(buf).core)
        },
{
    let ghost s = buf.core.text();
    let ghost cur = buf.core.cur();
    let ghost p = cursor_index(s, cur);
    proof {
        buf.core.lemma_wf();
        assert(crate::edit_core::buffer::insert_at(s, p, repeat(c, 0)) =~= s);
        crate::edit_core::model::lemma_valid_before_next_line(s, cur.row as nat, cur.col as nat);
    }
    let mut i: usize = 0;
    while i < n && buf.core.len_chars() < usize::MAX
        invariant
            core_only(old(buf), buf),
            s == old(buf).core.text(),
            cur == old(buf).core.cur(),
            p == cursor_index(s, cur),
            0 <= p <= s.len(),
            cur.col <= p,
            c != '\n',
            i <= n,
            i == 0 ==> *buf == *old(buf),
            buf.core.pending() || buf.core.moved_from(&old(buf).core),
            buf.core.cur().row == cur.row,
            s.len() + i <= usize::MAX,
            buf.core.text() == crate::edit_core::buffer::insert_at(s, p, repeat(c, i as nat)),
            buf.core.cur().col == cur.col + i,
            cursor_index(buf.core.text(), buf.core.cur()) == p + i,
            i > 0 ==> buf.core.edit_recorded(&old(buf).core),
        decreases n - i,
    {
        proof {
            let t = buf.core.text();
            buf.core.lemma_wf();
            crate::edit_core::buffer::lemma_insert_char_cursor(t, buf.core.cur(), c);
            assert(crate::edit_core::buffer::insert_at(t, p + i, seq![c]) =~= crate::edit_core::buffer::insert_at(
                s,
                p,
                repeat(c, (i + 1) as nat),
            ));
        }
        buf.core.insert(c);
        i = i + 1;
    }
}

/// The closing bracket for an opening one.
pub open spec fn closer_of(c: char) -> Option<char> {
    if c == '(' {
        Some(')')
    } else if c == '{' {
        Some('}')
    } else if c == '[' {
        Some(']')
    } else {
        None
    }
}

fn closer_of_exec(c: char) -> (r: Option<char>)
    ensures
        r == closer_of(c),
{
    if c == '(' {
        Some(')')
    } else if c == '{' {
        Some('}')
    } else if c == '[' {
        Some(']')
    } else {
        None
    }
}

/// The pairs that typing closes by itself: brackets and double quotes.
pub open spec fn auto_pair(c: char) -> Option<char> {
    if c == '"' {
        Some('"')
    } else {
        closer_of(c)
    }
}

pub open spec fn is_auto_closer(c: char) -> bool {
    c == ')' || c == '}' || c == ']' || c == '"'
}

/// The completion after `k` among `n`, wrapping around.
pub open spec fn cycle_next(k: usize, n: usize) -> usize {
    if k % n + 1 == n {
        0
    } else {
        (k % n + 1) as usize
    }
}

/// The completion before `k` among `n`, wrapping around.
pub open spec fn cycle_prev(k: usize, n: usize) -> usize {
    if k % n == 0 {
        (n - 1) as usize
    } else {
        (k % n - 1) as usize
    }
}

/// `s` without the char at index `i` (if there is one).
pub open spec fn delete_at(s: Seq<char>, i: int) -> Seq<char> {
    if i < s.len() {
        s.take(i) + s.skip(i + 1)
    } else {
        s
    }
}

/// What Backspace leaves: the char before the cursor taken out, and the
/// closing bracket after it too when it was the opening one of a pair.
pub open spec fn backspace_text(s: Seq<char>, cur: Cursor) -> Seq<char> {
    if cur == (Cursor { row: 0, col: 0 }) {
        s
    } else {
        let p = crate::edit_core::dec_spec(s, cur)->0;
        let j = cursor_index(s, p);
        let t1 = delete_at(s, j);
        let close = match char_at_spec(s, p) {
            Some(x) => closer_of(x),
            None => None,
        };
        if close is Some && char_at_spec(t1, p) == close {
            delete_at(t1, j)
        } else {
            t1
        }
    }
}

/// What Tab puts in when no completion is on offer.
pub open spec fn tab_text(hard_tab: bool, width: usize, col: usize) -> Seq<char> {
    if hard_tab {
        seq!['\t']
    } else {
        repeat(' ', (width - col % width) as nat)
    }
}

/// `level` indentation steps: that many tabs, or `level * width` spaces.
pub open spec fn indent_text(hard_tab: bool, width: usize, level: nat) -> Seq<char> {
    if hard_tab {
        repeat('\t', level)
    } else {
        repeat(' ', level * (width as nat))
    }
}

/// A bracket that closes a pair.
pub open spec fn is_closing_bracket(c: char) -> bool {
    c == '}' || c == ']' || c == ')'
}

/// The text and cursor after Enter with no completion picked, at char index
/// `p` on line `row` of `s`: a line break, the indentation that the line
/// above now asks for, and, when the cursor then stands on a closing
/// bracket, a second break with one step less of indentation before it. The
/// cursor ends after the first indentation.
pub open spec fn newline_result(
    s: Seq<char>,
    p: int,
    row: nat,
    hard_tab: bool,
    width: usize,
) -> (Seq<char>, Cursor) {
    let s1 = crate::edit_core::buffer::insert_at(s, p, seq!['\n']);
    let level = crate::indent::next_indent_level_spec(line_text(s1, row), width as nat);
    let ind = indent_text(hard_tab, width, level);
    let pos = Cursor { row: (row + 1) as usize, col: ind.len() as usize };
    let s2 = crate::edit_core::buffer::insert_at(s1, p + 1, ind);
    let outer = indent_text(hard_tab, width, if level == 0 { 0 } else { (level - 1) as nat });
    match char_at_spec(s2, pos) {
        Some(c) => if is_closing_bracket(c) {
            (crate::edit_core::buffer::insert_at(s2, p + 1 + ind.len(), seq!['\n'] + outer), pos)
        } else {
            (s2, pos)
        },
        None => (s2, pos),
    }
}

/// The result of `newline_result` fits in memory: the text with both
/// indentations added, and the count of spaces.
pub open spec fn newline_fits(s: Seq<char>, p: int, row: nat, width: usize) -> bool {
    let s1 = crate::edit_core::buffer::insert_at(s, p, seq!['\n']);
    let level = crate::indent::next_indent_level_spec(line_text(s1, row), width as nat);
    s.len() + 2 + 2 * (level * width + level) <= usize::MAX
}

/// What typing a printable char puts in.
pub open spec fn typed_text(c: char) -> Seq<char> {
    match auto_pair(c) {
        Some(r) => seq![c, r],
        None => seq![c],
    }
}

fn insert_backspace<B: CoreBuffer>(buf: &mut Buffer<B>)
    requires
        old(buf).wf(),
    ensures
        core_only(old(buf), final(buf)),
        final(buf).core.text() == backspace_text(old(buf).core.text(), old(buf).core.cur()),
        old(buf).core.cur() != (Cursor { row: 0, col: 0 }) ==> final(buf).core.cur()
            == crate::edit_core::dec_spec(old(buf).core.text(), old(buf).core.cur())->0,
{
    let ghost s = buf.core.text();
    let cur = buf.core.cursor();
    proof {
        buf.core.lemma_wf();
    }
    if !(cur.row == 0 && cur.col == 0) {
        proof {
            crate::edit_core::lemma_dec_spec(s, cur);
        }
        buf.core.cursor_dec();
        let c = buf.core.char_at_cursor();
        buf.core.delete();
        proof {
            let p = buf.core.cur();
            let j = cursor_index(s, p);
            let t1 = buf.core.text();
            crate::edit_core::model::lemma_valid_before_next_line(s, p.row as nat, p.col as nat);
            assert(t1.take(j) =~= s.take(j));
            crate::edit_core::buffer::lemma_cursor_prefix(s, t1, p);
        }
        let close = match c {
            Some(x) => closer_of_exec(x),
            None => None,
        };
        if close.is_some() && buf.core.char_at_cursor() == close {
            buf.core.delete();
        }
    }
}

fn insert_printable<B: CoreBuffer>(buf: &mut Buffer<B>, c: char)
    requires
        old(buf).wf(),
        c != '\n',
    ensures
        core_only(old(buf), final(buf)),
        ({
            let s = old(buf).core.text();
            let cur = old(buf).core.cur();
            if is_auto_closer(c) && char_at_spec(s, cur) == Some(c) {
                final(buf).core.text() == s && final(buf).core.cur() == Cursor {
                    row: cur.row,
                    col: (cur.col + 1) as usize,
                }
            } else if s.len() + 2 <= usize::MAX {
                final(buf).core.text() == crate::edit_core::buffer::insert_at(s, cursor_index(s, cur), typed_text(c))
                    && final(buf).core.cur() == Cursor { row: cur.row, col: (cur.col + 1) as usize }
            } else {
                final(buf).core.text() == s
            }
        }),
{
    let ghost s = buf.core.text();
    proof {
        buf.core.lemma_wf();
    }
    let at = buf.core.char_at_cursor();
    let closes = (c == ')' || c == '}' || c == ']' || c == '"') && at == Some(c);
    if closes {
        buf.core.cursor_right();
    } else if buf.core.len_chars() < usize::MAX - 1 {
        let cur = buf.core.cursor();
        proof {
            crate::edit_core::buffer::lemma_insert_char_cursor(s, cur, c);
        }
        buf.core.insert(c);
        let pair = if c == '"' {
            Some('"')
        } else {
            closer_of_exec(c)
        };
        if let Some(r) = pair {
            proof {
                buf.core.lemma_wf();
                crate::edit_core::buffer::lemma_insert_char_cursor(buf.core.text(), buf.core.cur(), r);
                assert(crate::edit_core::buffer::insert_at(
                    buf.core.text(),
                    cursor_index(s, cur) + 1,
                    seq![r],
                ) =~= crate::edit_core::buffer::insert_at(s, cursor_index(s, cur), seq![c, r]));
            }
            buf.core.insert(r);
            buf.core.cursor_left();
        } else {
            assert(typed_text(c) =~= seq![c]);
        }
    }
}

impl Insert {
    /// Tab: the next completion, when there are any; otherwise a tab or the
    /// spaces up to the next indent stop.
    fn tab<B: CoreBuffer>(&mut self, buf: &mut Buffer<B>)
        requires
            old(buf).wf(),
        ensures
            core_only(old(buf), final(buf)),
            final(self).completions == old(self).completions,
            final(self).tabnine_completions == old(self).tabnine_completions,
            final(self).snippet_completions == old(self).snippet_completions,
            ({
                let n = old(self).count();
                let s = old(buf).core.text();
                let cur = old(buf).core.cur();
                &&& (n > 0 && n <= usize::MAX) ==> final(self).completion_index == Some(
                    match old(self).completion_index {
                        Some(k) => cycle_next(k, n as usize),
                        None => 0,
                    },
                ) && *final(buf) == *old(buf)
                &&& (n == 0 && s.len() + old(buf).indent_width <= usize::MAX) ==> final(buf).core.text()
                    == crate::edit_core::buffer::insert_at(
                    s,
                    cursor_index(s, cur),
                    tab_text(old(buf).hard_tab, old(buf).indent_width, cur.col),
                ) && final(buf).core.cur() == Cursor {
                    row: cur.row,
                    col: (cur.col + tab_text(old(buf).hard_tab, old(buf).indent_width, cur.col).len()) as usize,
                }
            }),
    {
        match self.completion_count() {
            Some(n) => {
                if n > 0 {
                    self.completion_index = match self.completion_index {
                        Some(k) => Some(
                            if k % n + 1 == n {
                                0
                            } else {
                                k % n + 1
                            },
                        ),
                        None => Some(0),
                    };
                } else if buf.hard_tab {
                    insert_repeat(buf, '\t', 1);
                    proof {
                        assert(repeat('\t', 1) =~= seq!['\t']);
                    }
                } else {
                    let w = buf.indent_width;
                    let cur = buf.core.cursor();
                    insert_repeat(buf, ' ', w - cur.col % w);
                }
            },
            None => {},
        }
    }

    /// Shift-Tab: the previous completion.
    fn back_tab(&mut self)
        ensures
            final(self).completions == old(self).completions,
            final(self).tabnine_completions == old(self).tabnine_completions,
            final(self).snippet_completions == old(self).snippet_completions,
            ({
                let n = old(self).count();
                &&& (n > 0 && n <= usize::MAX) ==> final(self).completion_index == Some(
                    match old(self).completion_index {
                        Some(k) => cycle_prev(k, n as usize),
                        None => (n - 1) as usize,
                    },
                )
                &&& n == 0 ==> final(self).completion_index == old(self).completion_index
            }),
    {
        match self.completion_count() {
            Some(n) => {
                if n > 0 {
                    self.completion_index = match self.completion_index {
                        Some(k) => Some(
                            if k % n == 0 {
                                n - 1
                            } else {
                                k % n - 1
                            },
                        ),
                        None => Some(n - 1),
                    };
                }
            },
            None => {},
        }
    }

    /// Typing: `Esc` commits and goes back (the keys become the macro to
    /// repeat); Backspace takes out the char before the cursor, and the
    /// closing bracket right after it when it was an opening one; Tab picks
    /// the next completion or indents; Enter takes the picked completion or
    /// breaks the line with indentation; a printable char goes in, with its
    /// closing partner for brackets and quotes, or steps over a closing one
    /// already there.
    pub fn event<B: CoreBuffer>(&mut self, buf: &mut Buffer<B>, ev: Event) -> (t: Transition)
        requires
            old(buf).wf(),
        ensures
            insert_post(*old(self), *final(self), old(buf), final(buf), ev, t),
    {
        proof {
            buf.core.lemma_wf();
        }
        match ev {
            Event::Key(Key::Esc) => {
                buf.core.commit();
                return return_plain(true);
            },
            Event::Mouse(MouseEvent::Press(MouseButton::WheelUp, _)) => {
                buf.scroll_up();
            },
            Event::Mouse(MouseEvent::Press(MouseButton::WheelDown, _)) => {
                buf.scroll_down();
            },
            Event::Key(Key::Backspace) => {
                insert_backspace(buf);
            },
            Event::Key(Key::Delete) => {
                buf.core.delete();
            },
            Event::Key(Key::BackTab) => {
                self.back_tab();
                return Transition::Nothing;
            },
            Event::Key(Key::Char(c)) => {
                if c == '\t' {
                    self.tab(buf);
                    return Transition::Nothing;
                }
                if c == '\n' {
                    if !self.take_completion(buf) {
                        self.newline_with_indent(buf);
                    }
                } else if !is_control(c) {
                    insert_printable(buf, c);
                }
            },
            _ => {},
        }
        self.build_completion(buf);
        buf.show_cursor();
        Transition::Nothing
    }

    /// `level` indentation steps typed at the cursor, as far as the text can
    /// grow.
    fn insert_indent<B: CoreBuffer>(buf: &mut Buffer<B>, level: usize)
        requires
            old(buf).wf(),
        ensures
            core_only(old(buf), final(buf)),
            final(buf).core.cur().row == old(buf).core.cur().row,
            ({
                let i = cursor_index(old(buf).core.text(), old(buf).core.cur());
                &&& i <= final(buf).core.text().len()
                &&& final(buf).core.text().take(i) == old(buf).core.text().take(i)
            }),
            old(buf).core.text().len() + level * old(buf).indent_width + level <= usize::MAX ==> {
                let ind = indent_text(old(buf).hard_tab, old(buf).indent_width, level as nat);
                &&& final(buf).core.text() == crate::edit_core::buffer::insert_at(
                    old(buf).core.text(),
                    cursor_index(old(buf).core.text(), old(buf).core.cur()),
                    ind,
                )
                &&& final(buf).core.cur().col == old(buf).core.cur().col + ind.len()
            },
    {
        let ghost s = buf.core.text();
        let ghost i = cursor_index(s, buf.core.cur());
        proof {
            buf.core.lemma_wf();
            crate::edit_core::model::lemma_valid_before_next_line(s, buf.core.cur().row as nat, buf.core.cur().col as nat);
        }
        if buf.hard_tab {
            insert_repeat(buf, '\t', level);
        } else {
            let w = buf.indent_width;
            let n = match level.checked_mul(w) {
                Some(n) => n,
                None => usize::MAX,
            };
            insert_repeat(buf, ' ', n);
        }
        assert(buf.core.text().take(i) =~= s.take(i));
    }

    /// A line break at the cursor, then the indentation that the line just
    /// ended asks for; gives that indentation level.
    #[verifier::spinoff_prover]
    fn break_and_indent<B: CoreBuffer>(buf: &mut Buffer<B>) -> (level: usize)
        requires
            old(buf).wf(),
            old(buf).core.text().len() < usize::MAX,
        ensures
            core_only(old(buf), final(buf)),
            final(buf).core.cur().row == old(buf).core.cur().row + 1,
            ({
                let s = old(buf).core.text();
                let cur = old(buf).core.cur();
                let p = cursor_index(s, cur);
                let s1 = crate::edit_core::buffer::insert_at(s, p, seq!['\n']);
                let ind = indent_text(old(buf).hard_tab, old(buf).indent_width, level as nat);
                &&& level == crate::indent::next_indent_level_spec(line_text(s1, cur.row as nat), old(buf).indent_width as nat)
                &&& newline_fits(s, p, cur.row as nat, old(buf).indent_width) ==> {
                    &&& final(buf).core.text() == crate::edit_core::buffer::insert_at(s1, p + 1, ind)
                    &&& final(buf).core.cur() == Cursor { row: (cur.row + 1) as usize, col: ind.len() as usize }
                    &&& cursor_index(final(buf).core.text(), final(buf).core.cur()) == p + 1 + ind.len()
                }
            }),
    {
        let w = buf.indent_width;
        let ghost s0 = buf.core.text();
        let ghost c0 = buf.core.cur();
        let ghost p = cursor_index(s0, c0);
        proof {
            buf.core.lemma_wf();
            crate::edit_core::model::lemma_nl_count_le_len(s0);
            crate::edit_core::buffer::lemma_insert_char_cursor(s0, c0, '\n');
        }
        buf.core.insert('\n');
        let ghost s1 = buf.core.text();
        proof {
            buf.core.lemma_wf();
        }
        let row = buf.core.cursor().row;
        let above = buf.core.line(row - 1);
        let level = crate::indent::next_indent_level(above.as_str(), w);
        let ghost ind = indent_text(buf.hard_tab, w, level as nat);
        let ghost fits = newline_fits(s0, p, c0.row as nat, w);
        proof {
            if fits {
                assert(s1.len() + level * w + level <= usize::MAX);
                assert(cursor_index(s1, buf.core.cur()) == p + 1);
            }
        }
        Self::insert_indent(buf, level);
        proof {
            let t = buf.core.text();
            let pos = buf.core.cur();
            buf.core.lemma_wf();
            if fits {
                assert(t.take(p + 1) =~= s1.take(p + 1));
                crate::edit_core::buffer::lemma_cursor_prefix(s1, t, Cursor { row, col: 0 });
            }
        }
        level
    }

    /// Before a closing bracket: a second line break and `level - 1` steps
    /// of indentation, leaving the cursor where it was.
    #[verifier::spinoff_prover]
    fn break_before_bracket<B: CoreBuffer>(buf: &mut Buffer<B>, level: usize)
        requires
            old(buf).wf(),
            old(buf).core.text().len() < usize::MAX,
        ensures
            core_only(old(buf), final(buf)),
            final(buf).core.cur() == old(buf).core.cur(),
            ({
                let s = old(buf).core.text();
                let q = cursor_index(s, old(buf).core.cur());
                let i: nat = if level == 0 { 0 } else { (level - 1) as nat };
                s.len() + 1 + i * old(buf).indent_width + i <= usize::MAX ==> final(buf).core.text()
                    == crate::edit_core::buffer::insert_at(
                    s,
                    q,
                    seq!['\n'] + indent_text(old(buf).hard_tab, old(buf).indent_width, i),
                )
            }),
    {
        let pos = buf.core.cursor();
        let ghost t1 = buf.core.text();
        let ghost q = cursor_index(t1, pos);
        proof {
            buf.core.lemma_wf();
            crate::edit_core::model::lemma_valid_before_next_line(t1, pos.row as nat, pos.col as nat);
            crate::edit_core::buffer::lemma_insert_char_cursor(t1, pos, '\n');
        }
        buf.core.insert('\n');
        let ghost t_nl = buf.core.text();
        proof {
            assert(t_nl.take(q) =~= t1.take(q));
        }
        let i = if level == 0 {
            0
        } else {
            level - 1
        };
        Self::insert_indent(buf, i);
        proof {
            let t2 = buf.core.text();
            assert(t2.take(q) =~= t_nl.take(q));
            assert(t2.take(q) =~= t1.take(q));
            crate::edit_core::buffer::lemma_cursor_prefix(t1, t2, pos);
            if t1.len() + 1 + i * buf.indent_width + i <= usize::MAX {
                let outer = indent_text(buf.hard_tab, buf.indent_width, i as nat);
                assert(t2 =~= crate::edit_core::buffer::insert_at(t1, q, seq!['\n'] + outer));
            }
        }
        buf.core.place_cursor(pos);
    }

    /// Enter without a picked completion: a line break, the indentation the
    /// line above asks for (tabs or spaces), and, before a closing bracket, a
    /// second break that puts the bracket one level out.
    fn newline_with_indent<B: CoreBuffer>(&self, buf: &mut Buffer<B>)
        requires
            old(buf).wf(),
        ensures
            core_only(old(buf), final(buf)),
            old(buf).core.text().len() < usize::MAX ==> final(buf).core.cur().row == old(buf).core.cur().row + 1,
            ({
                let s = old(buf).core.text();
                let cur = old(buf).core.cur();
                let p = cursor_index(s, cur);
                newline_fits(s, p, cur.row as nat, old(buf).indent_width) ==> {
                    let r = newline_result(s, p, cur.row as nat, old(buf).hard_tab, old(buf).indent_width);
                    &&& final(buf).core.text() == r.0
                    &&& final(buf).core.cur() == r.1
                }
            }),
    {
        if buf.core.len_chars() >= usize::MAX {
            return;
        }
        let ghost b0 = *buf;
        let level = Self::break_and_indent(buf);
        proof {
            buf.lemma_wf_from(&b0);
            let s = b0.core.text();
            let p = cursor_index(s, b0.core.cur());
            if newline_fits(s, p, b0.core.cur().row as nat, b0.indent_width) && level > 0 {
                let w = b0.indent_width;
                assert(((level - 1) as nat) * w <= level * w) by (nonlinear_arith)
                    requires
                        level > 0,
                ;
            }
        }
        let at = buf.core.char_at_cursor();
        let ghost s = b0.core.text();
        let ghost p = cursor_index(s, b0.core.cur());
        let ghost fits = newline_fits(s, p, b0.core.cur().row as nat, b0.indent_width);
        let ghost ind = indent_text(b0.hard_tab, b0.indent_width, level as nat);
        proof {
            b0.core.lemma_wf();
            if fits {
                assert(ind.len() <= level * b0.indent_width + level);
                assert(buf.core.text().len() == s.len() + 1 + ind.len());
            }
        }
        if (at == Some('}') || at == Some(']') || at == Some(')')) && buf.core.len_chars() < usize::MAX {
            Self::break_before_bracket(buf, level);
        }
    }
}

/// Where `n` moves the cursor (as a char index): the first match of the
/// pattern after the cursor, else the first one from the start of the text.
pub open spec fn search_forward(s: Seq<char>, cur: Cursor, pat: Seq<char>) -> Option<int> {
    let pos = match crate::edit_core::inc_spec(s, cur) {
        Some(n) => n,
        None => Cursor { row: 0, col: 0 },
    };
    let i = cursor_index(s, pos);
    let after = s.skip(i);
    let before = s.take(i);
    match crate::search::first_match(vstd::utf8::encode_utf8(after), vstd::utf8::encode_utf8(pat)) {
        Some(m) => Some(i + crate::search::chars_within(after, m)),
        None => match crate::search::first_match(vstd::utf8::encode_utf8(before), vstd::utf8::encode_utf8(pat)) {
            Some(m) => Some(crate::search::chars_within(before, m) as int),
            None => None,
        },
    }
}

/// One char back, from the start of the text round to its end.
pub open spec fn dec_wrap(s: Seq<char>, c: Cursor) -> Cursor {
    match crate::edit_core::dec_spec(s, c) {
        Some(n) => n,
        None => crate::edit_core::buffer::end_cursor_spec(s),
    }
}

/// The pattern starts at the cursor, on its line.
pub open spec fn matches_at(s: Seq<char>, c: Cursor, pat: Seq<char>) -> bool {
    let lt = line_text(s, c.row as nat);
    &&& c.col + pat.len() <= lt.len()
    &&& lt.subrange(c.col as int, c.col + pat.len()) == pat
}

/// Stepping back from `c` until the pattern starts there or `orig` is
/// reached again, for at most `fuel` steps.
pub open spec fn search_back(s: Seq<char>, pat: Seq<char>, orig: Cursor, c: Cursor, fuel: nat) -> Cursor
    decreases fuel,
{
    if fuel == 0 || matches_at(s, c, pat) || c == orig {
        c
    } else {
        search_back(s, pat, orig, dec_wrap(s, c), (fuel - 1) as nat)
    }
}

/// How many steps back `N` takes at most: once round every position.
pub open spec fn search_fuel(s: Seq<char>) -> nat {
    if s.len() + line_count(s) <= usize::MAX {
        (s.len() + line_count(s)) as nat
    } else {
        usize::MAX as nat
    }
}

/// The search pattern as a string.
fn pattern_string(v: &Vec<char>) -> (r: String)
    ensures
        r@ == v@,
{
    let mut r = String::new();
    let mut i: usize = 0;
    while i < v.len()
        invariant
            i <= v@.len(),
            r@ == v@.take(i as int),
        decreases v@.len() - i,
    {
        crate::strings::string_push(&mut r, v[i]);
        assert(v@.take(i + 1) =~= v@.take(i as int).push(v@[i as int]));
        i += 1;
    }
    assert(v@.take(v@.len() as int) =~= v@);
    r
}

/// `n`: to the next match of the search pattern.
fn search_next<B: CoreBuffer>(buf: &mut Buffer<B>)
    requires
        old(buf).wf(),
        old(buf).search@.len() > 0,
    ensures
        moved_only(old(buf), final(buf)),
        match search_forward(old(buf).core.text(), old(buf).core.cur(), old(buf).search@) {
            Some(k) => cursor_valid(final(buf).core.text(), final(buf).core.cur()) && cursor_index(
                final(buf).core.text(),
                final(buf).core.cur(),
            ) == k,
            None => final(buf).core.cur() == old(buf).core.cur(),
        },
{
    let ghost s = buf.core.text();
    let cur = buf.core.cursor();
    proof {
        buf.core.lemma_wf();
        crate::edit_core::lemma_inc_spec(s, cur);
        crate::edit_core::model::lemma_valid_up_to_line_len(s, 0, 0);
    }
    let pos = match buf.core.next_cursor(cur) {
        Some(n) => n,
        None => Cursor { row: 0, col: 0 },
    };
    let i = buf.core.cursor_to_char(pos);
    proof {
        crate::edit_core::model::lemma_valid_before_next_line(s, pos.row as nat, pos.col as nat);
    }
    let pat = pattern_string(&buf.search);
    let after = buf.core.get_string_range((CursorBound::Included(pos), CursorBound::Unbounded));
    assert(after@ =~= s.skip(i as int));
    let target = match crate::search::find_chars(pat.as_str(), after.as_str()) {
        Some(k) => Some(i + k),
        None => {
            let before = buf.core.get_string_range((CursorBound::Unbounded, CursorBound::Excluded(pos)));
            assert(before@ =~= s.take(i as int));
            crate::search::find_chars(pat.as_str(), before.as_str())
        },
    };
    if let Some(k) = target {
        let c = buf.core.char_to_cursor(k);
        buf.core.place_cursor(c);
        buf.show_cursor();
    }
}

/// Whether the pattern starts at the cursor, on its line.
fn matches_here<B: CoreBuffer>(core: &Core<B>, pat: &Vec<char>) -> (r: bool)
    requires
        core.wf(),
    ensures
        r == matches_at(core.text(), core.cur(), pat@),
{
    let line = core.current_line();
    let n = line.as_str().unicode_len();
    let col = core.cursor().col;
    if col > n || pat.len() > n - col {
        return false;
    }
    let mut j: usize = 0;
    while j < pat.len()
        invariant
            n == line@.len(),
            line@ == line_text(core.text(), core.cur().row as nat),
            col == core.cur().col,
            col + pat@.len() <= n,
            j <= pat@.len(),
            forall|k: int| 0 <= k < j ==> line@[col + k] == pat@[k],
        decreases pat@.len() - j,
    {
        if line.as_str().get_char(col + j) != pat[j] {
            assert(line@.subrange(col as int, col + pat@.len())[j as int] != pat@[j as int]);
            return false;
        }
        j += 1;
    }
    assert(line@.subrange(col as int, col + pat@.len()) =~= pat@);
    true
}

/// `N`: back to the previous match of the search pattern, round from the
/// end of the text, stopping where it started.
fn search_prev<B: CoreBuffer>(buf: &mut Buffer<B>)
    requires
        old(buf).wf(),
    ensures
        moved_only(old(buf), final(buf)),
        ({
            let s = old(buf).core.text();
            let orig = old(buf).core.cur();
            final(buf).core.cur() == search_back(s, old(buf).search@, orig, dec_wrap(s, orig), search_fuel(s))
        }),
{
    let ghost s = buf.core.text();
    let orig = buf.core.cursor();
    proof {
        buf.core.lemma_wf();
        crate::edit_core::lemma_dec_spec(s, orig);
    }
    let last = buf.core.end_cursor();
    if !buf.core.cursor_dec() {
        buf.core.place_cursor(last);
    }
    let total = buf.core.len_chars();
    let lines = buf.core.len_lines();
    let mut fuel: usize = if total <= usize::MAX - lines {
        total + lines
    } else {
        usize::MAX
    };
    while fuel > 0 && !matches_here(&buf.core, &buf.search) && !(buf.core.cursor() == orig)
        invariant
            moved_only(old(buf), buf),
            s == old(buf).core.text(),
            orig == old(buf).core.cur(),
            last == crate::edit_core::buffer::end_cursor_spec(s),
            cursor_valid(s, last),
            search_back(s, buf.search@, orig, dec_wrap(s, orig), search_fuel(s)) == search_back(
                s,
                buf.search@,
                orig,
                buf.core.cur(),
                fuel as nat,
            ),
        decreases fuel,
    {
        proof {
            buf.core.lemma_wf();
            crate::edit_core::lemma_dec_spec(s, buf.core.cur());
        }
        if !buf.core.cursor_dec() {
            buf.core.place_cursor(last);
        }
        fuel = fuel - 1;
    }
    buf.show_cursor();
}


/// The number of spaces a line starts with.
pub open spec fn leading_spaces(t: Seq<char>) -> nat
    decreases t.len(),
{
    if t.len() > 0 && t[0] == ' ' {
        1 + leading_spaces(t.drop_first())
    } else {
        0
    }
}

/// What `x` leaves: the char under the cursor taken out, a whole line break
/// at a line's end.
pub open spec fn x_text(s: Seq<char>, cur: Cursor) -> Seq<char> {
    match crate::edit_core::inc_spec(s, cur) {
        Some(n) => remove_range(s, (CursorBound::Included(cur), CursorBound::Excluded(n))),
        None => s,
    }
}

/// Where `p` puts the yanked text: on a new line after the cursor's line
/// (whole lines) or after the cursor.
pub open spec fn paste_after_at(s: Seq<char>, cur: Cursor, lines: bool) -> (Seq<char>, Cursor) {
    if lines {
        (
            crate::edit_core::buffer::insert_at(
                s,
                (crate::edit_core::model::line_start(s, cur.row as nat) + line_len(s, cur.row as nat)) as int,
                seq!['\n'],
            ),
            Cursor { row: (cur.row + 1) as usize, col: 0 },
        )
    } else {
        (s, motion(s, cur, 'l')->0)
    }
}

/// Where `P` puts the yanked text: on a new line before the cursor's line
/// (whole lines) or at the cursor.
pub open spec fn paste_before_at(s: Seq<char>, cur: Cursor, lines: bool) -> (Seq<char>, Cursor) {
    if lines {
        (
            crate::edit_core::buffer::insert_at(
                s,
                crate::edit_core::model::line_start(s, cur.row as nat) as int,
                seq!['\n'],
            ),
            Cursor { row: cur.row, col: 0 },
        )
    } else {
        (s, cur)
    }
}

/// `p` and `P`: the yanked text goes in at the place given above.
fn paste<B: CoreBuffer>(buf: &mut Buffer<B>, after: bool)
    requires
        old(buf).wf(),
    ensures
        settings_kept(old(buf), final(buf)),
        final(buf).search == old(buf).search,
        final(buf).yank == old(buf).yank,
        !final(buf).core.pending(),
        ({
            let s = old(buf).core.text();
            let y = old(buf).yank.content@;
            let at = if after {
                paste_after_at(s, old(buf).core.cur(), old(buf).yank.insert_newline)
            } else {
                paste_before_at(s, old(buf).core.cur(), old(buf).yank.insert_newline)
            };
            s.len() + 1 + y.len() <= usize::MAX ==> final(buf).core.text()
                == crate::edit_core::buffer::insert_at(at.0, cursor_index(at.0, at.1), y)
        }),
{
    proof {
        buf.core.lemma_wf();
        crate::edit_core::model::lemma_nl_count_le_len(buf.core.text());
    }
    let ghost s = buf.core.text();
    let ghost cur = buf.core.cur();
    let ghost lines = buf.yank.insert_newline;
    let ghost at = if after {
        paste_after_at(s, cur, lines)
    } else {
        paste_before_at(s, cur, lines)
    };
    if buf.yank.insert_newline && buf.core.len_chars() < usize::MAX {
        if after {
            buf.core.insert_newline();
        } else {
            buf.core.insert_newline_here();
        }
    } else if after {
        buf.core.cursor_right();
    }
    assert(s.len() < usize::MAX ==> buf.core.text() == at.0 && buf.core.cur() == at.1);
    proof {
        crate::edit_core::model::lemma_line_len_bounds(s, cur.row as nat);
        assert(at.0.len() <= s.len() + 1);
    }
    let y = buf.yank.content.clone();
    let ys = y.as_str();
    assert(ys@ == old(buf).yank.content@);
    buf.insert_str(ys);
    buf.core.commit();
    buf.show_cursor();
}

/// The keys of normal mode that go to insert mode, and what they do first:
/// `i` nothing, `I` to the first non-space of the line, `S` empties the line
/// and indents it, `C` deletes to the end of the line, `a` one right, `A`
/// to the end of the line, `s` deletes the char under the cursor, `o`/`O`
/// open an indented line below/above.
pub open spec fn insert_entry_post<B: CoreBuffer>(b0: &Buffer<B>, b1: &Buffer<B>, c: char) -> bool {
    let s = b0.core.text();
    let cur = b0.core.cur();
    let row = cur.row as nat;
    let n = line_len(s, row);
    let ls = crate::edit_core::model::line_start(s, row);
    if c == 'i' {
        b1.core.text() == s && b1.core.cur() == cur
    } else if c == 'I' {
        b1.core.text() == s && b1.core.cur() == Cursor {
            row: cur.row,
            col: leading_spaces(line_text(s, row)) as usize,
        }
    } else if c == 'S' {
        let cleared = remove_range(
            s,
            (
                CursorBound::Included(Cursor { row: cur.row, col: 0 }),
                CursorBound::Excluded(Cursor { row: cur.row, col: n as usize }),
            ),
        );
        b1.core.text() == indent_result(cleared, row, b0.indent_width) && b1.core.cur() == indent_cursor(
            cleared,
            row,
            b0.indent_width,
        )
    } else if c == 'C' {
        b1.core.text() == (if cur.col < n {
            remove_range(
                s,
                (CursorBound::Included(cur), CursorBound::Excluded(Cursor { row: cur.row, col: n as usize })),
            )
        } else {
            s
        }) && b1.core.cur() == cur
    } else if c == 'a' {
        b1.core.text() == s && b1.core.cur() == motion(s, cur, 'l')->0
    } else if c == 'A' {
        b1.core.text() == s && b1.core.cur() == Cursor { row: cur.row, col: n as usize }
    } else if c == 's' {
        b1.core.text() == delete_at(s, cursor_index(s, cur)) && b1.core.cur() == cur
    } else if c == 'o' {
        let opened = crate::edit_core::buffer::insert_at(s, (ls + n) as int, seq!['\n']);
        s.len() < usize::MAX ==> b1.core.text() == indent_result(opened, row + 1, b0.indent_width)
            && b1.core.cur() == indent_cursor(opened, row + 1, b0.indent_width)
    } else if c == 'O' {
        let opened = crate::edit_core::buffer::insert_at(s, ls as int, seq!['\n']);
        s.len() < usize::MAX ==> b1.core.text() == indent_result(opened, row, b0.indent_width)
            && b1.core.cur() == indent_cursor(opened, row, b0.indent_width)
    } else {
        false
    }
}

pub open spec fn is_insert_entry(c: char) -> bool {
    c == 'i' || c == 'I' || c == 'S' || c == 'C' || c == 'a' || c == 'A' || c == 's' || c == 'o' || c == 'O'
}

#[verifier::spinoff_prover]
#[verifier::rlimit(60)]
fn insert_entry<B: CoreBuffer>(buf: &mut Buffer<B>, c: char)
    requires
        old(buf).wf(),
        is_insert_entry(c),
    ensures
        settings_kept(old(buf), final(buf)),
        final(buf).search == old(buf).search,
        final(buf).yank == old(buf).yank,
        insert_entry_post(old(buf), final(buf), c),
{
    let ghost s = buf.core.text();
    proof {
        buf.core.lemma_wf();
        crate::edit_core::model::lemma_nl_count_le_len(s);
    }
    let cur = buf.core.cursor();
    if c == 'i' {
    } else if c == 'I' {
        let line = buf.core.current_line();
        let n = line.as_str().unicode_len();
        let mut i: usize = 0;
        proof {
            crate::edit_core::model::lemma_line_len_bounds(s, cur.row as nat);
            assert(line@.skip(0) =~= line@);
        }
        while i < n && line.as_str().get_char(i) == ' '
            invariant
                n == line@.len(),
                i <= n,
                leading_spaces(line@) == i + leading_spaces(line@.skip(i as int)),
            decreases n - i,
        {
            assert(line@.skip(i as int).drop_first() =~= line@.skip(i + 1));
            i += 1;
        }
        proof {
            if i < n {
                assert(line@.skip(i as int)[0] != ' ');
            }
            crate::edit_core::model::lemma_valid_up_to_line_len(s, cur.row as nat, i as nat);
        }
        buf.core.place_cursor(Cursor { row: cur.row, col: i });
    } else if c == 'S' || c == 'C' {
        let n = buf.core.len_current_line();
        let from = if c == 'S' {
            0
        } else {
            cur.col
        };
        proof {
            crate::edit_core::model::lemma_valid_up_to_line_len(s, cur.row as nat, 0);
            crate::edit_core::model::lemma_valid_up_to_line_len(s, cur.row as nat, n as nat);
        }
        if c == 'S' {
            buf.core.place_cursor(Cursor { row: cur.row, col: 0 });
        }
        if from < n {
            buf.core.delete_range(
                (
                    CursorBound::Included(Cursor { row: cur.row, col: from }),
                    CursorBound::Excluded(Cursor { row: cur.row, col: n }),
                ),
            );
        } else {
            proof {
                assert(remove_range(
                    s,
                    (
                        CursorBound::Included(Cursor { row: cur.row, col: 0 }),
                        CursorBound::Excluded(Cursor { row: cur.row, col: 0 }),
                    ),
                ) =~= s);
            }
        }
        if c == 'S' {
            buf.indent();
        }
    } else if c == 'a' {
        buf.core.cursor_right();
    } else if c == 'A' {
        let n = buf.core.len_current_line();
        proof {
            crate::edit_core::model::lemma_valid_up_to_line_len(s, cur.row as nat, n as nat);
        }
        buf.core.place_cursor(Cursor { row: cur.row, col: n });
    } else if c == 's' {
        buf.core.delete();
    } else {
        if buf.core.len_chars() < usize::MAX {
            if c == 'o' {
                buf.core.insert_newline();
            } else {
                buf.core.insert_newline_here();
            }
            buf.indent();
        }
    }
    buf.show_cursor();
}


/// What a key does in `r`, to the buffer and as a transition.
pub open spec fn r_post<B: CoreBuffer>(b0: &Buffer<B>, b1: &Buffer<B>, ev: Event, t: Transition) -> bool {
    &&& settings_kept(b0, b1)
    &&& b1.search == b0.search
    &&& b1.yank == b0.yank
    &&& (match ev {
        Event::Key(Key::Esc) => is_return(t, false) && unchanged(b0, b1),
        Event::Key(Key::Char(c)) => {
            &&& is_return(t, true)
            &&& b0.core.text().len() < usize::MAX ==> {
                &&& b1.core.edit_recorded(&b0.core)
                &&& b1.core.text() == replace_text(
                    b0.core.text(),
                    b0.core.cur(),
                    c,
                )
            }
        },
        _ => t is Nothing && unchanged(b0, b1),
    })
}

/// What a key does in typing the search pattern, to the buffer and as a transition.
pub open spec fn search_post<B: CoreBuffer>(b0: &Buffer<B>, b1: &Buffer<B>, ev: Event, t: Transition) -> bool {
    &&& settings_kept(b0, b1)
    &&& b1.core == b0.core
    &&& b1.yank == b0.yank
    &&& (match ev {
        Event::Key(Key::Esc) => is_return(t, false) && b1.search@ == b0.search@,
        Event::Key(Key::Backspace) => t is Nothing && b1.search@ == (if b0.search@.len() > 0 {
            b0.search@.drop_last()
        } else {
            b0.search@
        }),
        Event::Key(Key::Char(c)) => if c == '\n' {
            is_return(t, false) && b1.search@ == b0.search@
        } else {
            t is Nothing && b1.search@ == b0.search@.push(c)
        },
        _ => t is Nothing && b1.search@ == b0.search@,
    })
}

/// What a key does in `S`, to the buffer and as a transition.
pub open spec fn s_post<B: CoreBuffer>(range: CursorRange, b0: &Buffer<B>, b1: &Buffer<B>, ev: Event, t: Transition) -> bool {
    &&& settings_kept(b0, b1)
    &&& b1.search == b0.search
    &&& b1.yank == b0.yank
    &&& (match ev {
        Event::Key(Key::Esc) => is_return(t, false) && unchanged(b0, b1),
        Event::Key(Key::Char(c)) => if !is_control_spec(c) {
            let s = b0.core.text();
            let l = crate::edit_core::cursor_min(range.0, range.1);
            let r = crate::edit_core::cursor_max(range.0, range.1);
            &&& is_return(t, false)
            &&& (on_text_spec(s, l) && on_text_spec(s, r) && s.len() + 2 <= usize::MAX)
                ==> b1.core.text() == surround_text(
                s,
                l,
                r,
                surround_pair(c).0,
                surround_pair(c).1,
            )
        } else {
            t is Nothing && unchanged(b0, b1)
        },
        _ => t is Nothing && unchanged(b0, b1),
    })
}

/// What a key does in typing the path to save to, to the buffer and as a transition.
pub open spec fn save_post<B: CoreBuffer>(m0: Save, m1: Save, b0: &Buffer<B>, b1: &Buffer<B>, ev: Event, t: Transition) -> bool {
    &&& *b1 == *b0
    &&& (match ev {
        Event::Key(Key::Esc) => is_return(t, false) && m1.path@ == m0.path@,
        Event::Key(Key::Backspace) => t is Nothing && m1.path@ == (if m0.path@.len() > 0 {
            m0.path@.drop_last()
        } else {
            m0.path@
        }),
        Event::Key(Key::Char(c)) => if c == '\n' {
            t matches Transition::Request(Request::SaveAs(p)) && p@ == m0.path@
        } else {
            t is Nothing && m1.path@ == m0.path@.push(c)
        },
        _ => t is Nothing && m1.path@ == m0.path@,
    })
}

/// What a key does in typing a line number, to the buffer and as a transition.
pub open spec fn goto_post<B: CoreBuffer>(m0: Goto, m1: Goto, b0: &Buffer<B>, b1: &Buffer<B>, ev: Event, t: Transition) -> bool {
    &&& moved_only(b0, b1)
    &&& (match ev {
        Event::Key(Key::Esc) => is_return(t, false) && b1.core.cur() == b0.core.cur() && m1.row@ == m0.row@,
        Event::Key(Key::Backspace) => t is Nothing && b1.core.cur() == b0.core.cur() && m1.row@ == (if m0.row@.len() > 0 {
            m0.row@.drop_last()
        } else {
            m0.row@
        }),
        Event::Key(Key::Char(c)) => if c == '\n' {
            match parse_usize_spec(m0.row@) {
                Some(n) => {
                    let row = if n > 0 {
                        n - 1
                    } else {
                        0
                    };
                    let last = line_count(b0.core.text()) - 1;
                    &&& is_return(t, false)
                    &&& b1.core.cur() == Cursor {
                        row: (if row <= last {
                            row
                        } else {
                            last
                        }) as usize,
                        col: 0,
                    }
                },
                None => {
                    &&& t matches Transition::Return(r)
                    &&& r.message matches Some(m)
                    &&& m@ == "[Goto] Parse failed"@
                    &&& !r.is_commit_dot_macro
                    &&& b1.core.cur() == b0.core.cur()
                },
            }
        } else {
            t is Nothing && b1.core.cur() == b0.core.cur() && m1.row@
                == m0.row@.push(c)
        },
        _ => t is Nothing && b1.core.cur() == b0.core.cur()
            && m1.row@ == m0.row@,
    })
}

/// What a key does in an operator, to the buffer and as a transition.
pub open spec fn text_object_post<B: CoreBuffer>(m0: TextObjectOperation, m1: TextObjectOperation, b0: &Buffer<B>, b1: &Buffer<B>, ev: Event, t: Transition) -> bool {
    &&& settings_kept(b0, b1)
    &&& b1.search == b0.search
    &&& m1.parser.action == m0.parser.action
    &&& ({
        let s = b0.core.text();
        let cur = b0.core.cur();
        let action = m0.parser.action;
        match ev {
            Event::Key(Key::Esc) => is_return(t, false) && unchanged(b0, b1),
            Event::Key(Key::Char(c)) => if c == crate::text_object::action_to_char_spec(action) {
                &&& b1.yank.insert_newline
                &&& b1.yank.content@ == line_text(s, cur.row as nat)
                &&& match action {
                    Action::Delete => {
                        &&& is_return(t, true)
                        &&& b1.core.text() == remove_range(s, lines_bounds(s, cur.row as nat, cur.row as nat))
                        &&& b1.core.cur() == bound_cursor(lines_bounds(s, cur.row as nat, cur.row as nat).0)
                        &&& !b1.core.pending()
                    },
                    Action::Yank => is_return(t, false) && b1.core.moved_from(&b0.core)
                        && b1.core.cur() == cur,
                    Action::Change => {
                        let cleared = remove_range(
                            s,
                            (
                                CursorBound::Included(Cursor { row: cur.row, col: 0 }),
                                CursorBound::Excluded(Cursor { row: cur.row, col: line_len(s, cur.row as nat) as usize }),
                            ),
                        );
                        &&& t matches Transition::Trans(Mode::Insert(_))
                        &&& b1.core.text() == indent_result(cleared, cur.row as nat, b0.indent_width)
                        &&& b1.core.cur() == indent_cursor(cleared, cur.row as nat, b0.indent_width)
                    },
                }
            } else if c == 'j' || c == 'k' {
                match jk_lines(s, cur.row as nat, c) {
                    None => is_return(t, false) && unchanged(b0, b1),
                    Some(ab) => {
                        &&& b1.yank.insert_newline
                        &&& b1.yank.content@ == lines_content(s, ab.0, ab.1)
                        &&& match action {
                            Action::Delete => {
                                &&& is_return(t, true)
                                &&& b1.core.text() == remove_range(s, lines_bounds(s, ab.0, ab.1))
                                &&& b1.core.cur() == bound_cursor(lines_bounds(s, ab.0, ab.1).0)
                                &&& !b1.core.pending()
                            },
                            Action::Yank => is_return(t, false) && b1.core.moved_from(&b0.core)
                                && b1.core.cur() == cur,
                            Action::Change => {
                                let r = remove_range(s, lines_bounds(s, ab.0, ab.1));
                                &&& t matches Transition::Trans(Mode::Insert(_))
                                &&& (ab.1 + 1 < line_count(s) && s.len() < usize::MAX) ==> {
                                    let opened = crate::edit_core::buffer::insert_at(
                                        r,
                                        crate::edit_core::model::line_start(r, ab.0) as int,
                                        seq!['\n'],
                                    );
                                    &&& b1.core.text() == indent_result(opened, ab.0, b0.indent_width)
                                    &&& b1.core.cur() == indent_cursor(opened, ab.0, b0.indent_width)
                                }
                                &&& (ab.1 + 1 >= line_count(s) && ab.0 > 0 && s.len() < usize::MAX) ==> {
                                    let opened = crate::edit_core::buffer::insert_at(
                                        r,
                                        (crate::edit_core::model::line_start(r, (ab.0 - 1) as nat) + line_len(
                                            r,
                                            (ab.0 - 1) as nat,
                                        )) as int,
                                        seq!['\n'],
                                    );
                                    &&& b1.core.text() == indent_result(opened, ab.0, b0.indent_width)
                                    &&& b1.core.cur() == indent_cursor(opened, ab.0, b0.indent_width)
                                }
                                &&& (ab.1 + 1 >= line_count(s) && ab.0 == 0) ==> {
                                    &&& b1.core.text() == r
                                    &&& b1.core.cur() == Cursor { row: 0, col: 0 }
                                }
                            },
                        }
                    },
                }
            } else {
                let parsed = crate::text_object::parse_spec(m0.parser.prefix, action, c, s, cur);
                &&& m1.parser.prefix == parsed.0
                &&& match parsed.1 {
                    None => t is Nothing && unchanged(b0, b1),
                    Some(range) => {
                        &&& !b1.yank.insert_newline
                        &&& b1.yank.content@ == range_text(s, range)
                        &&& match action {
                            Action::Delete => {
                                &&& is_return(t, true)
                                &&& b1.core.text() == remove_range(s, range)
                                &&& b1.core.cur() == bound_cursor(range.0)
                                &&& !b1.core.pending()
                            },
                            Action::Yank => is_return(t, false) && b1.core.moved_from(&b0.core)
                                && b1.core.cur() == cur,
                            Action::Change => {
                                &&& t matches Transition::Trans(Mode::Insert(_))
                                &&& b1.core.text() == remove_range(s, range)
                                &&& b1.core.cur() == bound_cursor(range.0)
                            },
                        }
                    },
                }
            },
            _ => t is Nothing && unchanged(b0, b1),
        }
    })
}

/// What a key does in visual mode, to the buffer and as a transition.
pub open spec fn visual_post<B: CoreBuffer>(m0: Visual, b0: &Buffer<B>, b1: &Buffer<B>, ev: Event, t: Transition) -> bool {
    &&& settings_kept(b0, b1)
    &&& b1.search == b0.search
    &&& ({
        let s = b0.core.text();
        let cur = b0.core.cur();
        let a = anchor_in(s, m0.cursor, cur);
        let ends = selection_ends(s, a, cur, m0.line_mode);
        let bounds = selection_bounds(s, a, cur, m0.line_mode);
        let text = selection_text(s, a, cur, m0.line_mode);
        match ev {
            Event::Key(Key::Esc) => is_return(t, false) && unchanged(b0, b1),
            Event::Key(Key::Char(c)) => if motion(s, cur, c) is Some {
                &&& t is Nothing
                &&& moved_only(b0, b1)
                &&& b1.core.cur() == motion(s, cur, c)->0
            } else if c == 'd' || c == 'x' || c == 's' {
                &&& b1.yank.insert_newline == m0.line_mode
                &&& b1.yank.content@ == text
                &&& !b1.core.pending()
                &&& (c != 's' || ends.0.row == ends.1.row) ==> b1.core.text()
                    == remove_range(s, bounds)
                &&& if c == 's' {
                    t matches Transition::Trans(Mode::Insert(_))
                } else {
                    t matches Transition::Return(r) && r.message matches Some(m) && m@
                        == "Deleted"@ && r.is_commit_dot_macro
                }
            } else if c == 'p' {
                &&& is_return(t, true)
                &&& b1.yank == b0.yank
                &&& !b1.core.pending()
                &&& s.len() + b0.yank.content@.len() <= usize::MAX ==> b1.core.text()
                    == crate::edit_core::buffer::insert_at(
                    remove_range(s, bounds),
                    crate::edit_core::buffer::start_index(s, bounds.0),
                    b0.yank.content@,
                )
            } else if c == 'y' {
                &&& t matches Transition::Return(r) && r.message matches Some(m) && m@
                    == "Yanked"@ && !r.is_commit_dot_macro
                &&& b1.yank.insert_newline == m0.line_mode
                &&& b1.yank.content@ == text
                &&& b1.core.moved_from(&b0.core)
                &&& b1.core.cur() == ends.0
            } else if c == 'S' {
                &&& t matches Transition::Trans(Mode::S(r)) && r == CursorRange(ends.0, ends.1)
                &&& unchanged(b0, b1)
            } else {
                t is Nothing && unchanged(b0, b1)
            },
            Event::Key(Key::Ctrl(c)) => if c == 'p' {
                &&& t matches Transition::Request(Request::PasteFromClipboard)
                &&& b1.core.text() == remove_range(s, bounds)
                &&& b1.yank == b0.yank
            } else if c == 'y' {
                &&& t matches Transition::Request(Request::CopyToClipboard(x)) && x@ == text
                &&& moved_only(b0, b1)
                &&& b1.core.cur() == ends.0
            } else {
                t is Nothing && unchanged(b0, b1)
            },
            Event::Mouse(MouseEvent::Press(MouseButton::Left, p)) => {
                &&& t matches Transition::Trans(Mode::Normal(_))
                &&& moved_only(b0, b1)
                &&& b1.core.cur() == (match p {
                    Some(q) => if on_text_spec(s, q) {
                        q
                    } else {
                        cur
                    },
                    None => cur,
                })
            },
            Event::Mouse(MouseEvent::Hold(p)) => {
                &&& t is Nothing
                &&& moved_only(b0, b1)
                &&& b1.core.cur() == (match p {
                    Some(q) => if on_text_spec(s, q) {
                        q
                    } else {
                        cur
                    },
                    None => cur,
                })
            },
            _ => t is Nothing && unchanged(b0, b1),
        }
    })
}

/// What a key does in insert mode, to the buffer and as a transition.
pub open spec fn insert_post<B: CoreBuffer>(m0: Insert, m1: Insert, b0: &Buffer<B>, b1: &Buffer<B>, ev: Event, t: Transition) -> bool {
    &&& settings_kept(b0, b1)
    &&& b1.search == b0.search
    &&& b1.yank == b0.yank
    &&& m1.completions == m0.completions
    &&& m1.tabnine_completions == m0.tabnine_completions
    &&& ({
        let s = b0.core.text();
        let cur = b0.core.cur();
        let n = m0.count();
        match ev {
            Event::Key(Key::Esc) => {
                &&& is_return(t, true)
                &&& b1.core.text() == s
                &&& !b1.core.pending()
            },
            Event::Key(Key::Backspace) => t is Nothing && b1.core.text() == backspace_text(s, cur),
            Event::Key(Key::Delete) => t is Nothing && b1.core.text() == delete_at(s, cursor_index(s, cur)),
            Event::Key(Key::Char(c)) => if c == '\t' {
                &&& t is Nothing
                &&& (n > 0 && n <= usize::MAX) ==> m1.completion_index == Some(
                    match m0.completion_index {
                        Some(k) => cycle_next(k, n as usize),
                        None => 0,
                    },
                ) && b1.core.text() == s
                &&& (n == 0 && s.len() + b0.indent_width <= usize::MAX) ==> b1.core.text()
                    == crate::edit_core::buffer::insert_at(
                    s,
                    cursor_index(s, cur),
                    tab_text(b0.hard_tab, b0.indent_width, cur.col),
                ) && b1.core.cur() == Cursor {
                    row: cur.row,
                    col: (cur.col + tab_text(b0.hard_tab, b0.indent_width, cur.col).len()) as usize,
                }
            } else if c == '\n' {
                &&& t is Nothing
                &&& match completion_body(m0, b0.snippet) {
                    Some(body) => s.len() + body.len() <= usize::MAX ==> b1.core.text()
                        == crate::edit_core::buffer::insert_at(
                        prefix_removed(m0, s, cur).0,
                        prefix_removed(m0, s, cur).1,
                        body,
                    ),
                    None => {
                        &&& s.len() < usize::MAX ==> b1.core.cur().row == cur.row + 1
                        &&& newline_fits(s, cursor_index(s, cur), cur.row as nat, b0.indent_width) ==> {
                            let r = newline_result(
                                s,
                                cursor_index(s, cur),
                                cur.row as nat,
                                b0.hard_tab,
                                b0.indent_width,
                            );
                            b1.core.text() == r.0 && b1.core.cur() == r.1
                        }
                    },
                }
            } else if !is_control_spec(c) {
                &&& t is Nothing
                &&& if is_auto_closer(c) && char_at_spec(s, cur) == Some(c) {
                    b1.core.text() == s && b1.core.cur() == Cursor {
                        row: cur.row,
                        col: (cur.col + 1) as usize,
                    }
                } else if s.len() + 2 <= usize::MAX {
                    b1.core.text() == crate::edit_core::buffer::insert_at(s, cursor_index(s, cur), typed_text(c))
                        && b1.core.cur() == Cursor { row: cur.row, col: (cur.col + 1) as usize }
                } else {
                    b1.core.text() == s
                }
            } else {
                t is Nothing && b1.core.text() == s
            },
            Event::Key(Key::BackTab) => {
                &&& t is Nothing
                &&& b1.core.text() == s
                &&& (n > 0 && n <= usize::MAX) ==> m1.completion_index == Some(
                    match m0.completion_index {
                        Some(k) => cycle_prev(k, n as usize),
                        None => (n - 1) as usize,
                    },
                )
            },
            _ => t is Nothing && b1.core.text() == s,
        }
    })
    &&& !(ev == Event::Key(Key::Esc) || ev == Event::Key(Key::BackTab) || ev == Event::Key(Key::Char('\t'))) ==> {
        let mid = if ev == Event::Key(Key::Char('\n')) && completion_body(m0, b0.snippet) is Some {
            Insert { completion_index: None, ..m0 }
        } else {
            m0
        };
        rebuilt(mid, m1, b1)
    }
}

/// What a key does in normal mode, to the buffer and as a transition.
pub open spec fn normal_post<B: CoreBuffer>(b0: &Buffer<B>, b1: &Buffer<B>, ev: Event, t: Transition) -> bool {
    let s = b0.core.text();
    let cur = b0.core.cur();
    let n = line_len(s, cur.row as nat);
    match ev {
        Event::Key(Key::Char(c)) => if c == '.' {
            t is DoMacro && unchanged(b0, b1)
        } else if c == 'u' {
            t is Nothing && Core::undo_post(b0.core, b1.core)
        } else if c == 'U' {
            t is Nothing && Core::redo_post(b0.core, b1.core)
        } else if is_insert_entry(c) {
            t matches Transition::RecordMacro(Mode::Insert(_)) && insert_entry_post(b0, b1, c)
        } else if c == 'r' {
            t matches Transition::RecordMacro(Mode::R) && unchanged(b0, b1)
        } else if motion(s, cur, c) is Some {
            t is Nothing && moved_only(b0, b1) && b1.core.cur() == motion(s, cur, c)->0
        } else if c == 'f' || c == 'F' {
            t matches Transition::Trans(Mode::Find(f)) && f.to_right == (c == 'f') && unchanged(b0, b1)
        } else if c == '0' {
            t is Nothing && moved_only(b0, b1) && b1.core.cur() == Cursor { row: cur.row, col: 0 }
        } else if c == '$' {
            t is Nothing && moved_only(b0, b1) && b1.core.cur() == Cursor { row: cur.row, col: n as usize }
        } else if c == 'n' {
            &&& t is Nothing
            &&& moved_only(b0, b1)
            &&& b0.search@.len() == 0 ==> b1.core.cur() == cur
            &&& b0.search@.len() > 0 ==> match search_forward(s, cur, b0.search@) {
                Some(k) => cursor_valid(s, b1.core.cur()) && cursor_index(s, b1.core.cur()) == k,
                None => b1.core.cur() == cur,
            }
        } else if c == 'N' {
            &&& t is Nothing
            &&& moved_only(b0, b1)
            &&& b0.search@.len() == 0 ==> b1.core.cur() == cur
            &&& b0.search@.len() > 0 ==> b1.core.cur() == search_back(s, b0.search@, cur, dec_wrap(s, cur), search_fuel(s))
        } else if c == 'x' {
            &&& t is Nothing
            &&& settings_kept(b0, b1)
            &&& b1.core.text() == x_text(s, cur)
            &&& b1.core.cur() == cur
            &&& !b1.core.pending()
        } else if c == '/' {
            t matches Transition::Trans(Mode::Search) && unchanged(b0, b1)
        } else if c == 'v' || c == 'V' {
            &&& t matches Transition::Trans(Mode::Visual(v)) && v.cursor == cur && v.line_mode == (c == 'V')
            &&& unchanged(b0, b1)
        } else if c == 'p' || c == 'P' {
            let at = if c == 'p' {
                paste_after_at(s, cur, b0.yank.insert_newline)
            } else {
                paste_before_at(s, cur, b0.yank.insert_newline)
            };
            &&& t is Nothing
            &&& settings_kept(b0, b1)
            &&& !b1.core.pending()
            &&& s.len() + 1 + b0.yank.content@.len() <= usize::MAX ==> b1.core.text()
                == crate::edit_core::buffer::insert_at(at.0, cursor_index(at.0, at.1), b0.yank.content@)
        } else if c == ' ' {
            t matches Transition::Trans(Mode::Prefix) && unchanged(b0, b1)
        } else if c == 'z' {
            t is Nothing && unchanged(b0, b1) && b1.show_cursor_on_draw == ShowCursor::ShowMiddle
        } else if '1' <= c <= '9' {
            t == Transition::ChangeTab((c as u32 - 48) as usize) && unchanged(b0, b1)
        } else if crate::text_object::action_from_char_spec(c) is Some {
            &&& t matches Transition::RecordMacro(Mode::TextObjectOperation(op))
            &&& op.parser.action == crate::text_object::action_from_char_spec(c)->0
            &&& op.parser.prefix == Prefix::TextObjectPrefix(TextObjectPrefix::NoPrefix)
            &&& unchanged(b0, b1)
        } else {
            t is Nothing && unchanged(b0, b1)
        },
        Event::Key(Key::Ctrl(c)) => if c == 'p' {
            t matches Transition::Request(Request::PasteFromClipboard) && unchanged(b0, b1)
        } else {
            t is Nothing && unchanged(b0, b1)
        },
        Event::Mouse(MouseEvent::Press(MouseButton::Left, p)) => match p {
            Some(q) => if on_text_spec(s, q) {
                if q == cur {
                    &&& t matches Transition::Trans(Mode::Visual(v)) && !v.line_mode && v.cursor
                        == crate::edit_core::b_spec(s, cur)
                    &&& moved_only(b0, b1)
                    &&& b1.core.cur() == crate::edit_core::e_spec(s, crate::edit_core::b_spec(s, cur))
                } else {
                    t is Nothing && moved_only(b0, b1) && b1.core.cur() == q
                }
            } else {
                t is Nothing && unchanged(b0, b1)
            },
            None => t is Nothing && unchanged(b0, b1),
        },
        Event::Mouse(MouseEvent::Hold(_)) => {
            &&& t matches Transition::Trans(Mode::Visual(v)) && v.cursor == cur && !v.line_mode
            &&& unchanged(b0, b1)
        },
        Event::Mouse(MouseEvent::Press(MouseButton::WheelUp, _)) => t is Nothing && b1.core == b0.core
            && settings_kept(b0, b1),
        Event::Mouse(MouseEvent::Press(MouseButton::WheelDown, _)) => t is Nothing && b1.core == b0.core
            && settings_kept(b0, b1),
        _ => t is Nothing && unchanged(b0, b1),
    }
}

/// `x`: takes out the char under the cursor (a whole line break at the end
/// of a line) and commits.
fn delete_char<B: CoreBuffer>(buf: &mut Buffer<B>)
    requires
        old(buf).wf(),
    ensures
        settings_kept(old(buf), final(buf)),
        final(buf).search == old(buf).search,
        final(buf).yank == old(buf).yank,
        final(buf).core.text() == x_text(old(buf).core.text(), old(buf).core.cur()),
        final(buf).core.cur() == old(buf).core.cur(),
        !final(buf).core.pending(),
{
    let cur = buf.core.cursor();
    proof {
        buf.core.lemma_wf();
        crate::edit_core::lemma_inc_spec(buf.core.text(), cur);
        crate::edit_core::model::lemma_valid_before_next_line(buf.core.text(), cur.row as nat, cur.col as nat);
    }
    if let Some(n) = buf.core.next_cursor(cur) {
        proof {
            crate::edit_core::model::lemma_valid_before_next_line(buf.core.text(), n.row as nat, n.col as nat);
        }
        buf.core.delete_range((CursorBound::Included(cur), CursorBound::Excluded(n)));
    }
    buf.core.commit();
    buf.show_cursor();
}

impl Normal {
    /// A key in normal mode: the vi-like commands of the editor.
    #[verifier::spinoff_prover]
    #[verifier::rlimit(80)]
    pub fn event<B: CoreBuffer>(&self, buf: &mut Buffer<B>, ev: Event) -> (t: Transition)
        requires
            old(buf).wf(),
        ensures
            settings_kept(old(buf), final(buf)),
            normal_post(old(buf), final(buf), ev, t),
    {
        proof {
            buf.core.lemma_wf();
        }
        let ghost s = buf.core.text();
        let cur = buf.core.cursor();
        match ev {
            Event::Key(Key::Char(c)) => {
                if c == '.' {
                    return Transition::DoMacro;
                } else if c == 'u' {
                    buf.core.undo();
                    buf.show_cursor();
                } else if c == 'U' {
                    buf.core.redo();
                    buf.show_cursor();
                } else if c == 'i' || c == 'I' || c == 'S' || c == 'C' || c == 'a' || c == 'A' || c == 's'
                    || c == 'o' || c == 'O' {
                    insert_entry(buf, c);
                    return Transition::RecordMacro(Mode::Insert(Insert::default()));
                } else if c == 'r' {
                    buf.show_cursor();
                    return Transition::RecordMacro(Mode::R);
                } else if apply_motion(buf, c) {
                } else if c == 'f' || c == 'F' {
                    return Transition::Trans(Mode::Find(Find { to_right: c == 'f' }));
                } else if c == '0' {
                    proof {
                        crate::edit_core::model::lemma_valid_up_to_line_len(s, cur.row as nat, 0);
                    }
                    buf.core.place_cursor(Cursor { row: cur.row, col: 0 });
                } else if c == '$' {
                    let n = buf.core.len_current_line();
                    proof {
                        crate::edit_core::model::lemma_valid_up_to_line_len(s, cur.row as nat, n as nat);
                    }
                    buf.core.place_cursor(Cursor { row: cur.row, col: n });
                } else if c == 'n' {
                    if buf.search.len() > 0 {
                        search_next(buf);
                    }
                } else if c == 'N' {
                    if buf.search.len() > 0 {
                        search_prev(buf);
                    }
                } else if c == 'x' {
                    delete_char(buf);
                } else if c == '/' {
                    return Transition::Trans(Mode::Search);
                } else if c == 'v' || c == 'V' {
                    return Transition::Trans(Mode::Visual(Visual { cursor: cur, line_mode: c == 'V' }));
                } else if c == 'p' || c == 'P' {
                    paste(buf, c == 'p');
                } else if c == ' ' {
                    return Transition::Trans(Mode::Prefix);
                } else if c == 'z' {
                    buf.show_cursor_middle();
                } else if '1' <= c && c <= '9' {
                    return Transition::ChangeTab((c as u32 - 48) as usize);
                } else {
                    match Action::from_char(c) {
                        Some(action) => {
                            return Transition::RecordMacro(
                                Mode::TextObjectOperation(TextObjectOperation::new(action)),
                            );
                        },
                        None => {},
                    }
                }
            },
            Event::Key(Key::Ctrl(c)) => {
                if c == 'p' {
                    return Transition::Request(Request::PasteFromClipboard);
                }
            },
            Event::Mouse(MouseEvent::Press(MouseButton::Left, p)) => {
                if let Some(q) = p {
                    if buf.core.on_text(q) {
                        if q == cur {
                            buf.core.b();
                            let start = buf.core.cursor();
                            buf.core.e();
                            return Transition::Trans(Mode::Visual(Visual { cursor: start, line_mode: false }));
                        } else {
                            buf.core.place_cursor(q);
                        }
                    }
                }
            },
            Event::Mouse(MouseEvent::Hold(_)) => {
                return Transition::Trans(Mode::Visual(Visual { cursor: cur, line_mode: false }));
            },
            Event::Mouse(MouseEvent::Press(MouseButton::WheelUp, _)) => {
                buf.scroll_up();
            },
            Event::Mouse(MouseEvent::Press(MouseButton::WheelDown, _)) => {
                buf.scroll_down();
            },
            _ => {},
        }
        Transition::Nothing
    }
}


/// What a key after the space prefix leads to.
pub open spec fn prefix_post<B: CoreBuffer>(b: &Buffer<B>, ev: Event, t: Transition) -> bool {
    match ev {
        Event::Key(Key::Esc) => is_return(t, false),
        Event::Key(Key::Char(c)) => if c == ' ' {
            t matches Transition::Request(Request::Format)
        } else if c == 'q' {
            t is Exit
        } else if c == 'g' {
            t matches Transition::Trans(Mode::Goto(g)) && g.row@.len() == 0
        } else if c == 's' {
            match b.path {
                Some(_) => t matches Transition::Request(Request::Save),
                None => t matches Transition::Trans(Mode::Save(sv)) && sv.path@.len() == 0,
            }
        } else if c == 'a' {
            t matches Transition::Trans(Mode::Save(sv)) && sv.path@ == (match b.path {
                Some(p) => p@,
                None => Seq::<char>::empty(),
            })
        } else if c == 'y' {
            t matches Transition::Request(Request::CopyToClipboard(x)) && x@ == b.core.text()
        } else if c == 'l' {
            t matches Transition::Request(Request::RestartLsp)
        } else if c == 't' || c == 'T' {
            t matches Transition::Request(Request::RunTest { optimize }) && optimize == (c == 'T')
        } else if c == 'c' {
            t is CreateNewTab
        } else if '0' <= c <= '9' {
            t == Transition::ChangeTab((c as u32 - 48) as usize)
        } else if c == 'r' {
            t is StartRmate
        } else if c == 'f' {
            t matches Transition::Trans(Mode::FuzzyOpen(f)) && f.finds@.len() == 0 && f.line_buf@.len() == 0
                && f.index == 0 && f.result@.len() == 0 && f.wants_files
        } else {
            t is Nothing
        },
        _ => t is Nothing,
    }
}

/// After the space key: commands that act on the whole buffer or the
/// editor (format, quit, save, save as, copy all, restart the language
/// server, test, tabs, remote editing, open a file).
pub fn prefix_event<B: CoreBuffer>(buf: &Buffer<B>, ev: Event) -> (t: Transition)
    requires
        buf.wf(),
    ensures
        prefix_post(buf, ev, t),
{
    match ev {
        Event::Key(Key::Esc) => return_plain(false),
        Event::Key(Key::Char(c)) => {
            if c == ' ' {
                Transition::Request(Request::Format)
            } else if c == 'q' {
                Transition::Exit
            } else if c == 'g' {
                Transition::Trans(Mode::Goto(Goto { row: Vec::new() }))
            } else if c == 's' {
                match &buf.path {
                    Some(_) => Transition::Request(Request::Save),
                    None => Transition::Trans(Mode::Save(Save { path: String::new() })),
                }
            } else if c == 'a' {
                let path = match &buf.path {
                    Some(p) => p.clone(),
                    None => String::new(),
                };
                Transition::Trans(Mode::Save(Save { path }))
            } else if c == 'y' {
                Transition::Request(Request::CopyToClipboard(buf.core.get_string()))
            } else if c == 'l' {
                Transition::Request(Request::RestartLsp)
            } else if c == 't' || c == 'T' {
                Transition::Request(Request::RunTest { optimize: c == 'T' })
            } else if c == 'c' {
                Transition::CreateNewTab
            } else if '0' <= c && c <= '9' {
                Transition::ChangeTab((c as u32 - 48) as usize)
            } else if c == 'r' {
                Transition::StartRmate
            } else if c == 'f' {
                Transition::Trans(Mode::FuzzyOpen(FuzzyOpen::new()))
            } else {
                Transition::Nothing
            }
        },
        _ => Transition::Nothing,
    }
}

/// What a key does in mode `m0`: the mode after it, `m1`, the buffer
/// before and after, and the transition `t`.
pub open spec fn mode_step<B: CoreBuffer>(m0: Mode, m1: Mode, b0: &Buffer<B>, b1: &Buffer<B>, ev: Event, t: Transition) -> bool {
    &&& settings_kept(b0, b1)
    &&& match m0 {
        Mode::Normal(n) => normal_post(b0, b1, ev, t),
        Mode::Prefix => prefix_post(b0, ev, t) && *b1 == *b0,
        Mode::Insert(i0) => (m1 matches Mode::Insert(i1) && insert_post(
            i0,
            i1,
            b0,
            b1,
            ev,
            t,
        )),
        Mode::R => r_post(b0, b1, ev, t),
        Mode::S(range) => s_post(range, b0, b1, ev, t),
        Mode::Find(f) => find_post(f, b0, b1, ev, t),
        Mode::TextObjectOperation(o0) => (m1 matches Mode::TextObjectOperation(o1)
            && text_object_post(o0, o1, b0, b1, ev, t)),
        Mode::Search => search_post(b0, b1, ev, t),
        Mode::Save(s0) => (m1 matches Mode::Save(s1) && save_post(
            s0,
            s1,
            b0,
            b1,
            ev,
            t,
        )),
        Mode::Visual(v) => visual_post(v, b0, b1, ev, t),
        Mode::Goto(g0) => (m1 matches Mode::Goto(g1) && goto_post(
            g0,
            g1,
            b0,
            b1,
            ev,
            t,
        )),
        Mode::FuzzyOpen(f0) => (m1 matches Mode::FuzzyOpen(f1) && fuzzy_post(f0, f1, ev, t)) && unchanged(b0, b1),
    }
}

impl Mode {
    /// Hands a key to the current mode.
    pub fn event<B: CoreBuffer>(&mut self, buf: &mut Buffer<B>, ev: Event) -> (t: Transition)
        requires
            old(buf).wf(),
        ensures
            mode_step(*old(self), *final(self), old(buf), final(buf), ev, t),
    {
        match self {
            Mode::Normal(n) => n.event(buf, ev),
            Mode::Prefix => prefix_event(buf, ev),
            Mode::Insert(i) => i.event(buf, ev),
            Mode::R => r_event(buf, ev),
            Mode::S(range) => s_event(*range, buf, ev),
            Mode::Find(f) => f.event(buf, ev),
            Mode::TextObjectOperation(op) => op.event(buf, ev),
            Mode::Search => search_event(buf, ev),
            Mode::Save(sv) => sv.event(buf, ev),
            Mode::Visual(v) => v.event(buf, ev),
            Mode::Goto(g) => g.event(buf, ev),
            Mode::FuzzyOpen(f) => f.event(ev),
        }
    }
}


proof fn lemma_decimal_digits(n: nat)
    ensures
        all_digits(crate::numfmt::decimal(n)),
        digits_value(crate::numfmt::decimal(n)) == n,
        crate::numfmt::decimal(n).len() > 0,
        crate::numfmt::decimal(n)[0] != '+',
    decreases n,
{
    let d = crate::numfmt::decimal(n);
    if n < 10 {
        assert(d.drop_last() =~= Seq::<char>::empty());
        assert(crate::numfmt::digit_char(n) as int - 48 == n);
        assert(digits_value(Seq::<char>::empty()) == 0);
        assert(digits_value(d) == digits_value(d.drop_last()) * 10 + ((d.last() as int - 48) as nat));
    } else {
        lemma_decimal_digits(n / 10);
        let p = crate::numfmt::decimal(n / 10);
        assert(d.drop_last() =~= p);
        assert(crate::numfmt::digit_char(n % 10) as int - 48 == n % 10);
        assert((n / 10) * 10 + n % 10 == n) by (nonlinear_arith);
        assert(digits_value(d) == digits_value(d.drop_last()) * 10 + ((d.last() as int - 48) as nat));
        assert(d.last() == crate::numfmt::digit_char(n % 10));
        assert(d[0] == p[0]);
        assert forall|i: int| 0 <= i < d.len() implies '0' <= #[trigger] d[i] <= '9' by {
            if i < p.len() {
                assert(d[i] == p[i]);
            }
        }
    }
}

/// A line number as the number column shows it is read back as the same
/// number by the line prompt of `Goto`.
pub proof fn law_line_number_parses_back(n: usize)
    ensures
        parse_usize_spec(crate::numfmt::decimal(n as nat)) == Some(n as nat),
{
    lemma_decimal_digits(n as nat);
}

/// Shift-Tab after Tab is back at the same completion (taken modulo their
/// number).
pub proof fn law_back_tab_undoes_tab(k: usize, n: usize)
    requires
        n > 0,
    ensures
        cycle_prev(cycle_next(k, n), n) == k % n,
{
    let r = k % n;
    assert(r < n);
    if r + 1 == n {
        assert(0usize % n == 0) by (nonlinear_arith)
            requires
                n > 0,
        ;
    } else {
        assert(((r + 1) as usize) % n == r + 1) by (nonlinear_arith)
            requires
                r + 1 < n,
        ;
    }
}

} // verus!
