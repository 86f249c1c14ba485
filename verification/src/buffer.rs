//! An open buffer: the text core with what the editing keys keep beside it.
use vstd::prelude::*;

use crate::edit_core::buffer::CoreBuffer;
use crate::edit_core::model::line_count;
use crate::edit_core::Core;
use crate::char_width::{draw_width, width_or_zero};
use crate::snippets::SnippetMap;
use crate::compiler::{CompileId, CompileResult, CompilerOutput};
use crate::edit_core::Id;

verus! {

/// The text that `p` and `P` put in.
pub struct Yank {
    /// It was taken as whole lines.
    pub insert_newline: bool,
    pub content: String,
}

impl Default for Yank {
    fn default() -> (r: Self)
        ensures
            !r.insert_newline,
            r.content@ == Seq::<char>::empty(),
    {
        Yank { insert_newline: false, content: String::new() }
    }
}

/// How the view follows the cursor at the next draw.
#[derive(Debug, Clone, Copy, PartialEq, Eq, Structural)]
pub enum ShowCursor {
    Keep,
    Show,
    ShowMiddle,
}

/// An open buffer.
pub struct Buffer<B: CoreBuffer> {
    pub core: Core<B>,
    /// The last search pattern.
    pub search: Vec<char>,
    pub yank: Yank,
    /// Columns per indent level.
    pub indent_width: usize,
    /// Tabs, not spaces, indent lines.
    pub hard_tab: bool,
    /// The file the buffer is saved to, if any.
    pub path: Option<String>,
    /// The snippets for the buffer's kind of file.
    pub snippet: SnippetMap,
    /// The last compile asked for: at which edit, optimized or not.
    pub last_compiler_submit: CompileId,
    /// The compile whose result came last.
    pub last_compiler_compiled: CompileId,
    pub last_compiler_result: Option<CompileResult>,
    /// First line on screen.
    pub row_offset: usize,
    pub show_cursor_on_draw: ShowCursor,
}

impl<B: CoreBuffer> Buffer<B> {
    pub open spec fn wf(&self) -> bool {
        &&& self.core.wf()
        &&& self.indent_width > 0
        &&& self.snippet.wf()
    }

    pub proof fn lemma_wf(&self)
        requires
            self.wf(),
        ensures
            self.core.wf(),
            self.indent_width_spec() > 0,
    {
    }

    /// A buffer whose core stays well formed and whose settings stay as they
    /// were is well formed.
    pub proof fn lemma_wf_from(&self, before: &Self)
        requires
            before.wf(),
            self.core.wf(),
            self.indent_width_spec() == before.indent_width_spec(),
            self.snippet == before.snippet,
        ensures
            self.wf(),
    {
    }

    pub open spec fn indent_width_spec(&self) -> usize {
        self.indent_width
    }

    pub open spec fn hard_tab_spec(&self) -> bool {
        self.hard_tab
    }

    pub open spec fn path_spec(&self) -> Option<String> {
        self.path
    }

    /// An empty buffer with no file; `indent_width` and `hard_tab` are the
    /// settings for it.
    pub fn new(indent_width: usize, hard_tab: bool) -> (r: Self)
        requires
            indent_width > 0,
        ensures
            r.wf(),
            r.core.text() == Seq::<char>::empty(),
            r.indent_width_spec() == indent_width,
            r.hard_tab_spec() == hard_tab,
            r.path_spec() is None,
            r.search@ == Seq::<char>::empty(),
            r.core.undo_targets().len() == 0,
    {
        Buffer {
            core: Core::new(),
            search: Vec::new(),
            yank: Yank::default(),
            indent_width,
            hard_tab,
            path: None,
            snippet: SnippetMap::new(),
            last_compiler_submit: CompileId { id: Id(0), is_optimize: false },
            last_compiler_compiled: CompileId { id: Id(0), is_optimize: false },
            last_compiler_result: None,
            row_offset: 0,
            show_cursor_on_draw: ShowCursor::Keep,
        }
    }

    pub fn indent_width(&self) -> (r: usize)
        ensures
            r == self.indent_width_spec(),
    {
        self.indent_width
    }

    /// Tabs, not spaces, indent lines.
    pub fn hard_tab(&self) -> (r: bool)
        ensures
            r == self.hard_tab_spec(),
    {
        self.hard_tab
    }

    /// The file the buffer is saved to, if any.
    pub fn path(&self) -> (r: Option<&String>)
        ensures
            r == match self.path_spec() {
                Some(p) => Some(&p),
                None => None::<&String>,
            },
    {
        match &self.path {
            Some(p) => Some(p),
            None => None,
        }
    }

    pub fn set_path(&mut self, path: Option<String>)
        ensures
            final(self).path_spec() == path,
            final(self).core == old(self).core,
            final(self).indent_width_spec() == old(self).indent_width_spec(),
            final(self).hard_tab_spec() == old(self).hard_tab_spec(),
            final(self).search == old(self).search,
            final(self).snippet == old(self).snippet,
    {
        self.path = path;
    }

    /// Indents the cursor's line as the line above asks.
    pub fn indent(&mut self)
        requires
            old(self).wf(),
        ensures
            final(self).wf(),
            final(self).indent_width_spec() == old(self).indent_width_spec(),
            final(self).hard_tab_spec() == old(self).hard_tab_spec(),
            final(self).path_spec() == old(self).path_spec(),
            final(self).snippet == old(self).snippet,
            final(self).search == old(self).search,
            final(self).yank == old(self).yank,
            final(self).row_offset == old(self).row_offset,
            final(self).show_cursor_on_draw == old(self).show_cursor_on_draw,
            old(self).core.cur().row == 0 ==> final(self).core.moved_from(&old(self).core)
                && final(self).core.cur() == (crate::edit_core::Cursor { row: 0, col: 0 }),
            old(self).core.cur().row > 0 ==> ({
                let s = old(self).core.text();
                let row = old(self).core.cur().row;
                let n = (old(self).indent_width * crate::indent::next_indent_level_spec(
                    crate::edit_core::line_text(s, (row - 1) as nat),
                    old(self).indent_width as nat,
                )) as nat;
                let k = if s.len() + n <= usize::MAX {
                    n
                } else {
                    (usize::MAX - s.len()) as nat
                };
                &&& final(self).core.text() == crate::edit_core::buffer::insert_at(
                    s,
                    crate::edit_core::model::line_start(s, row as nat) as int,
                    crate::edit_core::spaces(k),
                )
                &&& final(self).core.cur() == crate::edit_core::Cursor { row, col: k as usize }
                &&& k > 0 ==> final(self).core.edit_recorded(&old(self).core)
                &&& k == 0 ==> final(self).core.moved_from(&old(self).core)
            }),
    {
        let w = self.indent_width;
        self.core.indent(w);
    }

    /// The view follows the cursor at the next draw.
    pub fn show_cursor(&mut self)
        ensures
            *final(self) == (Buffer { show_cursor_on_draw: ShowCursor::Show, ..*old(self) }),
    {
        self.show_cursor_on_draw = ShowCursor::Show;
    }

    /// The view centers the cursor at the next draw.
    pub fn show_cursor_middle(&mut self)
        ensures
            *final(self) == (Buffer { show_cursor_on_draw: ShowCursor::ShowMiddle, ..*old(self) }),
    {
        self.show_cursor_on_draw = ShowCursor::ShowMiddle;
    }

    /// Three lines up, not past the first.
    pub fn scroll_up(&mut self)
        ensures
            *final(self) == (Buffer {
                row_offset: if old(self).row_offset < 3 {
                    0
                } else {
                    (old(self).row_offset - 3) as usize
                },
                ..*old(self)
            }),
    {
        if self.row_offset < 3 {
            self.row_offset = 0;
        } else {
            self.row_offset = self.row_offset - 3;
        }
    }

    /// Three lines down, not past the last.
    pub fn scroll_down(&mut self)
        requires
            old(self).wf(),
        ensures
            *final(self) == (Buffer {
                row_offset: (if old(self).row_offset + 3 < line_count(old(self).core.text()) - 1 {
                    old(self).row_offset + 3
                } else {
                    line_count(old(self).core.text()) - 1
                }) as usize,
                ..*old(self)
            }),
    {
        let last = self.core.len_lines() - 1;
        if self.row_offset < last && last - self.row_offset > 3 {
            self.row_offset = self.row_offset + 3;
        } else {
            self.row_offset = last;
        }
    }

    /// Types the chars of `s` at the cursor, one by one, as far as the text
    /// can grow.
    pub fn insert_str(&mut self, s: &str)
        requires
            old(self).wf(),
        ensures
            final(self).wf(),
            final(self).indent_width_spec() == old(self).indent_width_spec(),
            final(self).hard_tab_spec() == old(self).hard_tab_spec(),
            final(self).path_spec() == old(self).path_spec(),
            final(self).snippet == old(self).snippet,
            final(self).search == old(self).search,
            final(self).yank == old(self).yank,
            final(self).row_offset == old(self).row_offset,
            final(self).show_cursor_on_draw == old(self).show_cursor_on_draw,
            final(self).core.pending() || final(self).core.moved_from(&old(self).core),
            s@.len() > 0 && old(self).core.text().len() + s@.len() <= usize::MAX ==> final(self).core.edit_recorded(&old(self).core),
            old(self).core.text().len() + s@.len() <= usize::MAX ==> final(self).core.text()
                == crate::edit_core::buffer::insert_at(
                old(self).core.text(),
                crate::edit_core::buffer::cursor_index(old(self).core.text(), old(self).core.cur()),
                s@,
            ),
    {
        let n = s.unicode_len();
        let mut i: usize = 0;
        let ghost t0 = self.core.text();
        let ghost p0 = crate::edit_core::buffer::cursor_index(t0, self.core.cur());
        proof {
            self.core.lemma_wf();
            assert(crate::edit_core::buffer::insert_at(t0, p0, s@.take(0)) =~= t0);
        }
        while i < n
            invariant
                self.wf(),
                n == s@.len(),
                i <= n,
                self.indent_width_spec() == old(self).indent_width_spec(),
                self.hard_tab_spec() == old(self).hard_tab_spec(),
                self.path_spec() == old(self).path_spec(),
                self.snippet == old(self).snippet,
                self.search == old(self).search,
                self.yank == old(self).yank,
                self.row_offset == old(self).row_offset,
                self.show_cursor_on_draw == old(self).show_cursor_on_draw,
                self.core.pending() || self.core.moved_from(&old(self).core),
                i > 0 && t0.len() + n <= usize::MAX ==> self.core.edit_recorded(&old(self).core),
                i == 0 ==> self.core == old(self).core,
                t0 == old(self).core.text(),
                p0 == crate::edit_core::buffer::cursor_index(t0, old(self).core.cur()),
                0 <= p0 <= t0.len(),
                t0.len() + n <= usize::MAX ==> self.core.text()
                    == crate::edit_core::buffer::insert_at(t0, p0, s@.take(i as int))
                    && crate::edit_core::buffer::cursor_index(self.core.text(), self.core.cur())
                    == p0 + i,
            decreases n - i,
        {
            let c = s.get_char(i);
            if self.core.len_chars() < usize::MAX {
                proof {
                    self.core.lemma_wf();
                    crate::edit_core::buffer::lemma_insert_char_cursor(
                        self.core.text(),
                        self.core.cur(),
                        c,
                    );
                    assert(s@.take(i + 1) =~= s@.take(i as int).push(c));
                    assert(crate::edit_core::buffer::insert_at(
                        crate::edit_core::buffer::insert_at(t0, p0, s@.take(i as int)),
                        p0 + i,
                        seq![c],
                    ) =~= crate::edit_core::buffer::insert_at(t0, p0, s@.take(i + 1)));
                }
                self.core.insert(c);
            }
            i = i + 1;
        }
        proof {
            assert(s@.take(n as int) =~= s@);
        }
    }
}


/// The screen rows that chars take from column `x` of row `y` on, in a view
/// `width` columns wide: a char that does not fit before the right edge
/// starts a new row.
pub open spec fn rows_from(s: Seq<char>, width: nat, x: nat, y: nat) -> nat
    decreases s.len(),
{
    if s.len() == 0 {
        y
    } else {
        let w = draw_width(s[0]);
        if x + w < width {
            rows_from(s.drop_first(), width, x + w, y)
        } else {
            rows_from(s.drop_first(), width, w, y + 1)
        }
    }
}

proof fn lemma_rows_from_bound(s: Seq<char>, width: nat, x: nat, y: nat)
    ensures
        rows_from(s, width, x, y) <= y + s.len(),
        rows_from(s, width, x, y) >= y,
    decreases s.len(),
{
    if s.len() > 0 {
        let w = draw_width(s[0]);
        if x + w < width {
            lemma_rows_from_bound(s.drop_first(), width, x + w, y);
        } else {
            lemma_rows_from_bound(s.drop_first(), width, w, y + 1);
        }
    }
}

/// The screen rows a line takes in a view `width` columns wide.
pub fn get_rows(s: &str, width: usize) -> (r: usize)
    requires
        s@.len() < usize::MAX,
    ensures
        r == rows_from(s@, width as nat, 0, 1),
        1 <= r <= s@.len() + 1,
{
    let n = s.unicode_len();
    let mut x: usize = 0;
    let mut y: usize = 1;
    let mut i: usize = 0;
    proof {
        assert(s@.skip(0) =~= s@);
        lemma_rows_from_bound(s@, width as nat, 0, 1);
    }
    while i < n
        invariant
            n == s@.len(),
            n < usize::MAX,
            i <= n,
            1 <= y <= i + 1,
            x <= width || x <= 3,
            rows_from(s@, width as nat, 0, 1) == rows_from(s@.skip(i as int), width as nat, x as nat, y as nat),
        decreases n - i,
    {
        let c = s.get_char(i);
        let w = width_or_zero(c);
        assert(s@.skip(i as int).drop_first() =~= s@.skip(i + 1));
        assert(s@.skip(i as int)[0] == c);
        if w < width && x < width - w {
            x = x + w;
        } else {
            y = y + 1;
            x = w;
        }
        i = i + 1;
    }
    proof {
        assert(s@.skip(n as int).len() == 0);
    }
    y
}

impl<B: CoreBuffer> Buffer<B> {
    /// Centers the cursor's line in a view of `rows` rows.
    pub fn show_cursor_middle_(&mut self, rows: usize)
        ensures
            *final(self) == (Buffer {
                row_offset: if rows / 2 > old(self).core.cur().row {
                    0
                } else {
                    (old(self).core.cur().row - rows / 2) as usize
                },
                ..*old(self)
            }),
    {
        let row = self.core.cursor().row;
        if rows / 2 > row {
            self.row_offset = 0;
        } else {
            self.row_offset = row - rows / 2;
        }
    }
}


/// The first line shown when lines up to `i` (exclusive) are taken from the
/// bottom while the rows they need, `sum` so far, fit in `rows`.
pub open spec fn fit_start(s: Seq<char>, rows: nat, cols: nat, i: nat, sum: nat) -> nat
    decreases i,
{
    if i == 0 {
        0
    } else {
        let g = rows_from(crate::edit_core::line_text(s, (i - 1) as nat), cols, 0, 1);
        if sum + g <= rows {
            fit_start(s, rows, cols, (i - 1) as nat, sum + g)
        } else {
            i
        }
    }
}

/// The first line on screen once the cursor's line is made visible: the
/// cursor's line when it is above the view, otherwise the first line from
/// which the lines down to the cursor's fit in the rows (never scrolling
/// back up).
pub open spec fn shown_offset(s: Seq<char>, row: nat, offset: nat, rows: nat, cols: nat) -> nat {
    if offset >= row {
        row
    } else {
        let pw = crate::numfmt::decimal((line_count(s) + 1) as nat).len() + 2;
        if cols < pw {
            offset
        } else {
            let i = fit_start(s, rows, (cols - pw) as nat, row + 1, 0);
            if i >= offset {
                i
            } else {
                offset
            }
        }
    }
}

impl<B: CoreBuffer> Buffer<B> {
    /// Scrolls so that the cursor's line is on screen in a view of `rows`
    /// rows and `cols` columns (line numbers included).
    pub fn show_cursor_(&mut self, rows: usize, cols: usize)
        requires
            old(self).wf(),
            old(self).core.text().len() < usize::MAX,
            line_count(old(self).core.text()) < usize::MAX,
        ensures
            *final(self) == (Buffer {
                row_offset: shown_offset(
                    old(self).core.text(),
                    old(self).core.cur().row as nat,
                    old(self).row_offset as nat,
                    rows as nat,
                    cols as nat,
                ) as usize,
                ..*old(self)
            }),
    {
        let ghost s = self.core.text();
        let row = self.core.cursor().row;
        proof {
            self.core.lemma_wf();
            crate::edit_core::model::lemma_nl_count_le_len(s);
        }
        if self.row_offset >= row {
            self.row_offset = row;
            return;
        }
        let pw = crate::draw::LinenumView::prefix_width(self.core.len_lines());
        if cols < pw {
            return;
        }
        let cols = cols - pw;
        let mut i = row + 1;
        let mut sum: usize = 0;
        while i > 0
            invariant
                self.wf(),
                s == self.core.text(),
                s.len() < usize::MAX,
                i <= row + 1,
                row < line_count(s),
                sum <= rows,
                fit_start(s, rows as nat, cols as nat, (row + 1) as nat, 0) == fit_start(
                    s,
                    rows as nat,
                    cols as nat,
                    i as nat,
                    sum as nat,
                ),
            ensures
                fit_start(s, rows as nat, cols as nat, (row + 1) as nat, 0) == i,
            decreases i,
        {
            let line = self.core.line(i - 1);
            proof {
                crate::edit_core::model::lemma_line_len_bounds(s, (i - 1) as nat);
            }
            let g = get_rows(line.as_str(), cols);
            if g > rows - sum {
                break;
            }
            sum = sum + g;
            i = i - 1;
        }
        if i > self.row_offset {
            self.row_offset = i;
        }
    }
}

impl<B: CoreBuffer> Buffer<B> {
    /// Asks for a compile of the text as it is now: the run to start (for
    /// the program around to start), none when that run was already asked
    /// for or the buffer has no file.
    pub fn compile(&mut self, is_optimize: bool) -> (r: Option<CompileId>)
        ensures
            final(self).core == old(self).core,
            final(self).path == old(self).path,
            final(self).snippet == old(self).snippet,
            final(self).indent_width == old(self).indent_width,
            final(self).hard_tab == old(self).hard_tab,
            final(self).search == old(self).search,
            final(self).yank == old(self).yank,
            final(self).last_compiler_compiled == old(self).last_compiler_compiled,
            final(self).last_compiler_result == old(self).last_compiler_result,
            final(self).last_compiler_submit == (CompileId { id: old(self).core.changed_id(), is_optimize }),
            r == (if old(self).last_compiler_submit == (CompileId { id: old(self).core.changed_id(), is_optimize })
                || old(self).path is None {
                None
            } else {
                Some(CompileId { id: old(self).core.changed_id(), is_optimize })
            }),
    {
        let id = CompileId { id: self.core.buffer_changed(), is_optimize };
        if self.last_compiler_submit == id {
            return None;
        }
        self.last_compiler_submit = id;
        if self.path.is_some() {
            Some(id)
        } else {
            None
        }
    }

    /// A compile finished: its result is the one shown.
    pub fn set_compile_result(&mut self, id: CompileId, res: CompileResult)
        ensures
            *final(self) == (Buffer {
                last_compiler_compiled: id,
                last_compiler_result: Some(res),
                ..*old(self)
            }),
    {
        self.last_compiler_compiled = id;
        self.last_compiler_result = Some(res);
    }

    /// Whether the last compile result is a success, if there is one.
    pub fn last_compile_success(&self) -> (r: Option<bool>)
        ensures
            r == match self.last_compiler_result {
                Some(res) => Some(res.success),
                None => None,
            },
    {
        match &self.last_compiler_result {
            Some(res) => Some(res.success),
            None => None,
        }
    }

    /// The diagnostics of the last compile (none before one).
    pub open spec fn outputs_spec(&self) -> Seq<CompilerOutput> {
        match self.last_compiler_result {
            Some(res) => res.messages@,
            None => Seq::<CompilerOutput>::empty(),
        }
    }

    /// The diagnostics of the last compile (none before one).
    pub fn compiler_outputs(&self) -> (r: &[CompilerOutput])
        ensures
            r@ == self.outputs_spec(),
    {
        match &self.last_compiler_result {
            Some(res) => res.messages.as_slice(),
            None => &[],
        }
    }

    /// The message of the first diagnostic on the cursor's line.
    pub fn compiler_message_on_cursor(&self) -> (r: Option<&String>)
        ensures
            r matches Some(m) ==> exists|i: int|
                0 <= i < self.outputs_spec().len() && self.outputs_spec()[i].line == self.core.cur().row && *m
                    == self.outputs_spec()[i].message && forall|j: int|
                    0 <= j < i ==> self.outputs_spec()[j].line != self.core.cur().row,
            r is None ==> forall|i: int|
                0 <= i < self.outputs_spec().len() ==> self.outputs_spec()[i].line != self.core.cur().row,
    {
        let outs = self.compiler_outputs();
        let r = crate::buffer_draw::compiler_message_on_line(outs, self.core.cursor().row);
        r
    }
}

} // verus!
