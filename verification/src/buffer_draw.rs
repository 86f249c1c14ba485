//! Drawing a buffer into a view: line numbers, the text with its styles,
//! search matches, the selection and the compiler's marks, and where the
//! cursor lands on the screen.
use vstd::prelude::*;

use crate::buffer::{Buffer, ShowCursor};
use crate::compiler::CompilerOutput;
use crate::draw::char_style::{CharModification, CharStyle, Color};
use crate::draw::styles::{default_style, highlight_style, selected_style};
use crate::draw::{linenum_model, linenum_put_model, newline_model, LinenumView, Term, TermView, Tile};
use crate::edit_core::buffer::CoreBuffer;
use crate::edit_core::model::line_count;
use crate::edit_core::{cursor_le, cursor_max, cursor_min, line_text, Cursor, CursorRange};

verus! {

/// Some diagnostic's span covers the position.
pub open spec fn annotated(outputs: Seq<CompilerOutput>, t: Cursor) -> bool {
    exists|i: int|
        0 <= i < outputs.len() && cursor_le(cursor_min(outputs[i].span.0, outputs[i].span.1), t)
            && cursor_le(t, cursor_max(outputs[i].span.0, outputs[i].span.1))
}

/// Whether some diagnostic's span covers the position.
pub fn is_annotate(outputs: &[CompilerOutput], t: Cursor) -> (r: bool)
    ensures
        r == annotated(outputs@, t),
{
    let mut i: usize = 0;
    while i < outputs.len()
        invariant
            i <= outputs@.len(),
            forall|k: int|
                0 <= k < i ==> !(cursor_le(cursor_min(outputs@[k].span.0, outputs@[k].span.1), t)
                    && cursor_le(t, cursor_max(outputs@[k].span.0, outputs@[k].span.1))),
        decreases outputs@.len() - i,
    {
        if outputs[i].span.contains(t) {
            return true;
        }
        i += 1;
    }
    false
}

/// The message of the first diagnostic on line `row`.
pub fn compiler_message_on_line(outputs: &[CompilerOutput], row: usize) -> (r: Option<&String>)
    ensures
        r matches Some(m) ==> exists|i: int|
            0 <= i < outputs@.len() && outputs@[i].line == row && *m == outputs@[i].message && forall|
                j: int,
            |
                0 <= j < i ==> outputs@[j].line != row,
        r is None ==> forall|i: int| 0 <= i < outputs@.len() ==> outputs@[i].line != row,
{
    let mut i: usize = 0;
    while i < outputs.len()
        invariant
            i <= outputs@.len(),
            forall|k: int| 0 <= k < i ==> outputs@[k].line != row,
        decreases outputs@.len() - i,
    {
        if outputs[i].line == row {
            return Some(&outputs[i].message);
        }
        i += 1;
    }
    None
}

/// The pattern occurs in `line` at `m`.
pub open spec fn match_at(line: Seq<char>, pat: Seq<char>, m: int) -> bool {
    0 <= m && m + pat.len() <= line.len() && line.subrange(m, m + pat.len()) == pat
}

/// Char `j` of a line lies in an occurrence of the search pattern.
pub open spec fn in_match(line: Seq<char>, pat: Seq<char>, j: int) -> bool {
    pat.len() > 0 && exists|m: int| m <= j < m + pat.len() && #[trigger] match_at(line, pat, m)
}

fn match_here(line: &Vec<char>, pat: &Vec<char>, m: usize) -> (r: bool)
    requires
        m + pat@.len() <= line@.len(),
    ensures
        r == match_at(line@, pat@, m as int),
{
    let len = line.len();
    let mut k: usize = 0;
    while k < pat.len()
        invariant
            len == line@.len(),
            m + pat@.len() <= line@.len(),
            k <= pat@.len(),
            forall|q: int| 0 <= q < k ==> line@[m + q] == pat@[q],
        decreases pat@.len() - k,
    {
        if line[m + k] != pat[k] {
            assert(line@.subrange(m as int, m + pat@.len())[k as int] != pat@[k as int]);
            return false;
        }
        k += 1;
    }
    assert(line@.subrange(m as int, m + pat@.len()) =~= pat@);
    true
}

/// For each char of the line, whether it lies in an occurrence of the
/// pattern.
fn search_marks(line: &Vec<char>, pat: &Vec<char>) -> (marks: Vec<bool>)
    ensures
        marks@.len() == line@.len(),
        forall|j: int| 0 <= j < line@.len() ==> marks@[j] == in_match(line@, pat@, j),
{
    let n = line.len();
    let k = pat.len();
    let mut marks: Vec<bool> = Vec::new();
    let mut j: usize = 0;
    while j < n
        invariant
            n == line@.len(),
            k == pat@.len(),
            j <= n,
            marks@.len() == j,
            forall|q: int| 0 <= q < j ==> marks@[q] == in_match(line@, pat@, q),
        decreases n - j,
    {
        let mut found = false;
        if k > 0 {
            let lo = if j + 1 >= k {
                j + 1 - k
            } else {
                0
            };
            let mut m = lo;
            while m <= j && !found
                invariant
                    n == line@.len(),
                    k == pat@.len(),
                    k > 0,
                    j < n,
                    lo <= m <= j + 1,
                    lo == (if j + 1 >= k { j + 1 - k } else { 0 }),
                    found ==> in_match(line@, pat@, j as int),
                    !found ==> forall|q: int| lo <= q < m ==> !match_at(line@, pat@, q),
                decreases j + 1 - m, if found { 0int } else { 1int },
            {
                if k <= n && m <= n - k && match_here(line, pat, m) {
                    found = true;
                } else {
                    m += 1;
                }
            }
            proof {
                if !found {
                    assert forall|q: int| q <= j < q + k implies !#[trigger] match_at(line@, pat@, q) by {
                        if q < lo {
                        }
                    }
                }
            }
        }
        marks.push(found);
        j += 1;
    }
    marks
}

/// The style a char is drawn in: its own, with search matches highlighted,
/// marked chars underlined, and the selection shown.
pub open spec fn char_style_at(base: CharStyle, matched: bool, annotate: bool, selected: bool) -> CharStyle {
    if selected {
        selected_style()
    } else {
        let s = if matched {
            highlight_style()
        } else {
            base
        };
        if annotate {
            CharStyle { modification: CharModification::UnderLine, ..s }
        } else {
            s
        }
    }
}

/// What a drawing of the buffer depends on: the text and the cursor, the
/// first line shown, the width of the number column, the styles given for
/// the lines, the search pattern, the diagnostics, the selection, the style
/// of the background and the screen's width.
pub struct BufferDrawing {
    pub text: Seq<char>,
    pub cur: Cursor,
    pub first: nat,
    pub num_width: usize,
    pub line_styles: Seq<Vec<CharStyle>>,
    pub search: Seq<char>,
    pub outputs: Seq<CompilerOutput>,
    pub selected: Option<CursorRange>,
    pub bg_style: CharStyle,
    pub screen_width: nat,
}

/// Where a drawing stands: the numbered view, the cells, where the cursor
/// was drawn, and whether the view ran out of room.
pub struct DrawProgress {
    pub view: TermView,
    pub grid: Seq<Seq<Tile>>,
    pub cursor: Option<Cursor>,
    pub stopped: bool,
}

/// The style the char at `t` is drawn in.
pub open spec fn drawn_style(d: BufferDrawing, t: Cursor) -> CharStyle {
    let base = if t.row < d.line_styles.len() && t.col < d.line_styles[t.row as int]@.len() {
        d.line_styles[t.row as int]@[t.col as int]
    } else {
        default_style()
    };
    let selected = match d.selected {
        Some(r) => cursor_le(cursor_min(r.0, r.1), t) && cursor_le(t, cursor_max(r.0, r.1)),
        None => false,
    };
    char_style_at(
        base,
        in_match(line_text(d.text, t.row as nat), d.search, t.col as int),
        annotated(d.outputs, t),
        selected,
    )
}

/// Drawing the chars of line `row` from the `j`-th on; the drawing stops
/// where the view is full before the cursor's position.
pub open spec fn line_chars_model(d: BufferDrawing, st: DrawProgress, row: usize, j: nat) -> DrawProgress
    decreases line_text(d.text, row as nat).len() - j,
{
    let line = line_text(d.text, row as nat);
    if j >= line.len() {
        st
    } else {
        let t = Cursor { row, col: j as usize };
        let r = linenum_put_model(st.view, st.grid, d.num_width, line[j as int], drawn_style(d, t), Some(t));
        if d.cur == t {
            line_chars_model(d, DrawProgress { view: r.0, grid: r.1, cursor: r.2, stopped: false }, row, j + 1)
        } else if r.2 is None {
            DrawProgress { view: r.0, grid: r.1, cursor: st.cursor, stopped: true }
        } else {
            line_chars_model(d, DrawProgress { view: r.0, grid: r.1, cursor: st.cursor, stopped: false }, row, j + 1)
        }
    }
}

/// Spaces in the background style up to the end of the screen line, at
/// most `guard` of them.
pub open spec fn pad_model(d: BufferDrawing, v: TermView, g: Seq<Seq<Tile>>, t: Cursor, guard: nat) -> (
    TermView,
    Seq<Seq<Tile>>,
)
    decreases guard,
{
    if guard == 0 || v.cause_newline_spec(crate::char_width::draw_width(' ')) {
        (v, g)
    } else {
        let r = linenum_put_model(v, g, d.num_width, ' ', d.bg_style, Some(t));
        pad_model(d, r.0, r.1, t, (guard - 1) as nat)
    }
}

/// After the chars of line `row`: the cursor at the line's end, a blank
/// cell for an empty line, and, unless it is the last line, the rest of
/// the screen line in the background and the next line's number.
pub open spec fn line_end_model(d: BufferDrawing, st: DrawProgress, row: usize) -> DrawProgress {
    let n = line_text(d.text, row as nat).len();
    let t = Cursor { row, col: n as usize };
    let cursor = if d.cur == t {
        if st.view.is_out_spec() {
            None
        } else {
            Some(st.view.cursor)
        }
    } else {
        st.cursor
    };
    let a = if n == 0 {
        let r = linenum_put_model(st.view, st.grid, d.num_width, ' ', d.bg_style, Some(t));
        (r.0, r.1)
    } else {
        (st.view, st.grid)
    };
    if row + 1 < line_count(d.text) {
        let b = pad_model(d, a.0, a.1, t, d.screen_width);
        let nl = newline_model(b.0, b.1);
        let l = linenum_model(nl.0, nl.1, (row + 1) as usize, d.num_width, d.outputs);
        DrawProgress { view: l.0, grid: l.1, cursor, stopped: false }
    } else {
        DrawProgress { view: a.0, grid: a.1, cursor, stopped: false }
    }
}

/// Drawing the lines from the `i`-th on, until the view is full.
pub open spec fn lines_model(d: BufferDrawing, st: DrawProgress, i: nat) -> DrawProgress
    decreases line_count(d.text) - i,
{
    if i >= line_count(d.text) || st.stopped {
        st
    } else {
        let a = line_chars_model(d, st, i as usize, 0);
        if a.stopped {
            a
        } else {
            lines_model(d, line_end_model(d, a, i as usize), i + 1)
        }
    }
}

/// The whole drawing: the first line's number, then the lines.
pub open spec fn draw_model(d: BufferDrawing, v: TermView, g: Seq<Seq<Tile>>) -> DrawProgress {
    let l = linenum_model(v, g, d.first as usize, d.num_width, d.outputs);
    lines_model(d, DrawProgress { view: l.0, grid: l.1, cursor: None, stopped: false }, d.first)
}

/// The input of a drawing of `text` from line `first` on.
pub open spec fn draw_input(
    text: Seq<char>,
    cur: Cursor,
    first: nat,
    line_styles: Seq<Vec<CharStyle>>,
    search: Seq<char>,
    outputs: Seq<CompilerOutput>,
    selected: Option<CursorRange>,
    background: Option<Color>,
    screen_width: nat,
) -> BufferDrawing {
    BufferDrawing {
        text,
        cur,
        first,
        num_width: (crate::numfmt::decimal(line_count(text) + 1).len() + 2) as usize,
        line_styles,
        search,
        outputs,
        selected,
        bg_style: match background {
            Some(c) => CharStyle { fg: Color::Reset, bg: c, modification: CharModification::Default },
            None => default_style(),
        },
        screen_width,
    }
}

impl<B: CoreBuffer> Buffer<B> {
    /// Draws the buffer into `view` of `term`, from its first line on screen
    /// (after scrolling as the last command asked): line numbers, each line
    /// in the styles given for it (`line_styles[i]`, plain where none is
    /// given) with search matches highlighted, the selection shown and the
    /// diagnostics' spans underlined, the rest of each row in the
    /// background. Returns where the cursor is drawn, if it is on screen.
    #[verifier::spinoff_prover]
    #[verifier::rlimit(50)]
    pub fn draw_with_selected(
        &mut self,
        view: TermView,
        term: &mut Term,
        selected: Option<CursorRange>,
        line_styles: &Vec<Vec<CharStyle>>,
        background: Option<Color>,
        outputs: &[CompilerOutput],
    ) -> (r: Option<Cursor>)
        requires
            old(self).wf(),
            old(term).wf(),
            view.fits(old(term).height as nat, old(term).width as nat),
            old(self).core.text().len() < usize::MAX,
            line_count(old(self).core.text()) < usize::MAX,
            forall|i: int| 0 <= i < outputs@.len() ==> (#[trigger] outputs@[i]).level@.len() > 0,
        ensures
            final(self).wf(),
            final(self).core.moved_from(&old(self).core),
            final(self).core.cur() == old(self).core.cur(),
            final(self).search == old(self).search,
            final(self).yank == old(self).yank,
            final(self).indent_width == old(self).indent_width,
            final(self).hard_tab == old(self).hard_tab,
            final(self).path == old(self).path,
            final(self).snippet == old(self).snippet,
            final(self).show_cursor_on_draw == ShowCursor::Keep,
            final(self).row_offset == (match old(self).show_cursor_on_draw {
                ShowCursor::ShowMiddle => if view.height / 2 > old(self).core.cur().row {
                    0
                } else {
                    (old(self).core.cur().row - view.height / 2) as usize
                },
                ShowCursor::Show => crate::buffer::shown_offset(
                    old(self).core.text(),
                    old(self).core.cur().row as nat,
                    old(self).row_offset as nat,
                    view.height as nat,
                    view.width as nat,
                ) as usize,
                ShowCursor::Keep => old(self).row_offset,
            }),
            final(term).wf(),
            final(term).height == old(term).height,
            final(term).width == old(term).width,
            final(term).cursor == old(term).cursor,
            ({
                let text = old(self).core.text();
                let first = if final(self).row_offset < line_count(text) {
                    final(self).row_offset as nat
                } else {
                    line_count(text)
                };
                let d = draw_input(
                    text,
                    old(self).core.cur(),
                    first,
                    line_styles@,
                    old(self).search@,
                    outputs@,
                    selected,
                    background,
                    old(term).width as nat,
                );
                let m = draw_model(d, TermView { bg: background, ..view }, old(term).grid());
                final(term).grid() == m.grid && r == m.cursor
            }),
    {
        let ghost b0 = *self;
        match self.show_cursor_on_draw {
            ShowCursor::ShowMiddle => {
                self.show_cursor_middle_(view.height);
            },
            ShowCursor::Show => {
                self.show_cursor_(view.height, view.width);
            },
            ShowCursor::Keep => {},
        }
        self.show_cursor_on_draw = ShowCursor::Keep;
        let ghost ro = self.row_offset;
        let mut view = view;
        view.bg = background;
        let lines = self.core.len_lines();
        let first = if self.row_offset < lines {
            self.row_offset
        } else {
            lines
        };
        let ghost d = draw_input(
            b0.core.text(),
            b0.core.cur(),
            first as nat,
            line_styles@,
            b0.search@,
            outputs@,
            selected,
            background,
            term.width as nat,
        );
        let ghost g0 = term.grid();
        let mut lv = LinenumView::new(first, lines, outputs, view, term);
        let ghost m = draw_model(d, view, g0);
        let mut cursor: Option<Cursor> = None;
        let cur = self.core.cursor();
        let bg_style = match background {
            Some(c) => CharStyle::bg(c),
            None => crate::draw::styles::default(),
        };
        let mut i = first;
        let mut done = false;
        while i < lines && !done
            invariant
                self.wf(),
                self.core.moved_from(&b0.core),
                self.core.cur() == cur,
                self.search == b0.search,
                self.yank == b0.yank,
                self.indent_width == b0.indent_width,
                self.hard_tab == b0.hard_tab,
                self.path == b0.path,
                self.snippet == b0.snippet,
                self.show_cursor_on_draw == ShowCursor::Keep,
                lines == line_count(self.core.text()),
                lines < usize::MAX,
                first <= i <= lines,
                lv.wf(term),
                i < lines ==> lv.current_linenum == i,
                lv.rustc_outputs == outputs,
                lv.width == d.num_width,
                term.height == old(term).height,
                term.width == old(term).width,
                term.cursor == old(term).cursor,
                self.row_offset == ro,
                d.text == self.core.text(),
                d.cur == cur,
                d.line_styles == line_styles@,
                d.search == self.search@,
                d.outputs == outputs@,
                d.selected == selected,
                d.bg_style == bg_style,
                d.screen_width == term.width,
                !done ==> lines_model(
                    d,
                    DrawProgress { view: lv.view, grid: term.grid(), cursor, stopped: false },
                    i as nat,
                ) == m,
                done ==> (DrawProgress { view: lv.view, grid: term.grid(), cursor, stopped: true }) == m,
            ensures
                done || i >= lines,
            decreases lines - i, if done { 0int } else { 1int },
        {
            let text = self.core.line(i);
            let chars = chars_of(text.as_str());
            let marks = search_marks(&chars, &self.search);
            let n = chars.len();
            let ghost st0 = DrawProgress { view: lv.view, grid: term.grid(), cursor, stopped: false };
            let ghost a = line_chars_model(d, st0, i, 0);
            let mut j: usize = 0;
            while j < n
                invariant_except_break
                    !done,
                    a == line_chars_model(
                        d,
                        DrawProgress { view: lv.view, grid: term.grid(), cursor, stopped: false },
                        i,
                        j as nat,
                    ),
                invariant
                    n == chars@.len(),
                    chars@ == line_text(d.text, i as nat),
                    marks@.len() == n,
                    forall|q: int| 0 <= q < n ==> marks@[q] == in_match(chars@, d.search, q),
                    j <= n,
                    i < lines,
                    lines < usize::MAX,
                    lv.wf(term),
                    lv.current_linenum == i,
                    lv.rustc_outputs == outputs,
                    lv.width == d.num_width,
                    term.height == old(term).height,
                    term.width == old(term).width,
                    term.cursor == old(term).cursor,
                    d.cur == cur,
                    d.line_styles == line_styles@,
                    d.outputs == outputs@,
                    d.selected == selected,
                ensures
                    a == (DrawProgress { view: lv.view, grid: term.grid(), cursor, stopped: done }),
                decreases n - j,
            {
                let c = chars[j];
                let t = Cursor { row: i, col: j };
                let base = if i < line_styles.len() && j < line_styles[i].len() {
                    line_styles[i][j]
                } else {
                    crate::draw::styles::default()
                };
                let mut style = if marks[j] {
                    crate::draw::styles::highlight()
                } else {
                    base
                };
                if is_annotate(outputs, t) {
                    style = CharStyle { modification: CharModification::UnderLine, ..style };
                }
                let in_selection = match selected {
                    Some(range) => range.contains(t),
                    None => false,
                };
                if in_selection {
                    style = crate::draw::styles::selected();
                }
                assert(style == drawn_style(d, t));
                let put = lv.put(term, c, style, Some(t));
                if cur.row == t.row && cur.col == t.col {
                    cursor = put;
                } else if put.is_none() {
                    done = true;
                    break;
                }
                j += 1;
            }
            if done {
                break;
            }
            let t = Cursor { row: i, col: n };
            if cur.row == t.row && cur.col == t.col {
                cursor = lv.cursor();
            }
            if n == 0 {
                lv.put(term, ' ', bg_style, Some(t));
            }
            if i + 1 < lines {
                let ghost pv = lv.view;
                let ghost pg = term.grid();
                let mut guard: usize = term.width;
                while guard > 0 && !lv.cause_newline(' ')
                    invariant
                        lv.wf(term),
                        lv.current_linenum == i,
                        lv.rustc_outputs == outputs,
                        lv.width == d.num_width,
                        term.height == old(term).height,
                        term.width == old(term).width,
                        term.cursor == old(term).cursor,
                        d.bg_style == bg_style,
                        pad_model(d, pv, pg, t, d.screen_width) == pad_model(d, lv.view, term.grid(), t, guard as nat),
                    decreases guard,
                {
                    lv.put(term, ' ', bg_style, Some(t));
                    guard = guard - 1;
                }
                lv.newline(term);
            }
            self.core.set_dirty_from(i);
            i += 1;
        }
        cursor
    }
}

/// The chars of a string.
pub fn chars_of(s: &str) -> (v: Vec<char>)
    ensures
        v@ == s@,
{
    let n = s.unicode_len();
    let mut v: Vec<char> = Vec::new();
    let mut i: usize = 0;
    while i < n
        invariant
            n == s@.len(),
            i <= n,
            v@ == s@.take(i as int),
        decreases n - i,
    {
        v.push(s.get_char(i));
        assert(s@.take(i + 1) =~= s@.take(i as int).push(s@[i as int]));
        i += 1;
    }
    assert(s@.take(n as int) =~= s@);
    v
}

} // verus!
