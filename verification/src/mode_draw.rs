//! How each mode draws itself: the buffer (with the selection in visual
//! modes), the cursor's shape, and the status line or prompt at the bottom.
use vstd::prelude::*;

use crate::buffer::Buffer;
use crate::compiler::CompilerOutput;
use crate::draw::char_style::{CharStyle, Color};
use crate::draw::cursor::{CursorShape, CursorState};
use crate::buffer_draw::{draw_input, draw_model, DrawProgress};
use crate::draw::{styles, Term, TermView, Tile};
use crate::edit_core::Cursor;
use crate::edit_core::buffer::CoreBuffer;
use crate::edit_core::model::line_count;
use crate::edit_core::CursorRange;
use crate::mode::{Insert, Mode, Normal, Visual};
use crate::draw::{inline_model, inlines_model, newline_model, puts_model};
use crate::draw::styles::{default_style, footer_highlight_style, footer_style, highlight_style, selected_style, ui_style};
use crate::draw::first_output_on;
use crate::edit_core::model::line_len;
use crate::edit_core::{cursor_max, cursor_min};
use crate::numfmt::decimal;
use crate::fuzzy::FuzzyOpen;
use crate::text_object::Action;

verus! {

/// What the status line reports besides the buffer: a compile running, the
/// last compile's outcome, the helpers that are connected, and the working
/// directory (shown when saving).
pub struct DrawStatus {
    pub compiling: bool,
    pub last_compile_success: Option<bool>,
    pub lsp: bool,
    pub tabnine: bool,
    pub current_dir: String,
}

/// What drawing needs from the program around: the styles of the text's
/// lines, the theme's background and the compiler's diagnostics.
pub struct DrawInput<'a> {
    pub line_styles: &'a Vec<Vec<CharStyle>>,
    pub background: Option<Color>,
    pub outputs: &'a [CompilerOutput],
}

impl<'a> DrawInput<'a> {
    pub open spec fn wf(&self) -> bool {
        forall|i: int| 0 <= i < self.outputs@.len() ==> (#[trigger] self.outputs@[i]).level@.len() > 0
    }
}

/// The buffer can be drawn: it is well formed and its size leaves room for
/// line numbers.
pub open spec fn drawable<B: CoreBuffer>(buf: &Buffer<B>) -> bool {
    &&& buf.wf()
    &&& buf.core.text().len() < usize::MAX
    &&& line_count(buf.core.text()) < usize::MAX
}

/// Drawing leaves the text, the cursor and the settings as they were.
pub open spec fn draw_kept<B: CoreBuffer>(b0: &Buffer<B>, b1: &Buffer<B>) -> bool {
    &&& b1.wf()
    &&& b1.core.moved_from(&b0.core)
    &&& b1.core.cur() == b0.core.cur()
    &&& b1.search == b0.search
    &&& b1.yank == b0.yank
    &&& b1.indent_width == b0.indent_width
    &&& b1.hard_tab == b0.hard_tab
    &&& b1.path == b0.path
    &&& b1.snippet == b0.snippet
}

/// The screen keeps its size and stays well formed.
pub open spec fn term_kept(t0: &Term, t1: &Term) -> bool {
    &&& t1.wf()
    &&& t1.height == t0.height
    &&& t1.width == t0.width
    &&& t1.cursor == t0.cursor
}

fn push_str(v: &mut Vec<char>, s: &str)
    ensures
        final(v)@ == old(v)@ + s@,
{
    let n = s.unicode_len();
    let mut i: usize = 0;
    let ghost v0 = v@;
    while i < n
        invariant
            n == s@.len(),
            i <= n,
            v@ == v0 + s@.take(i as int),
        decreases n - i,
    {
        v.push(s.get_char(i));
        assert(s@.take(i + 1) =~= s@.take(i as int).push(s@[i as int]));
        i += 1;
    }
    assert(s@.take(n as int) =~= s@);
}

fn push_number(v: &mut Vec<char>, n: usize)
    ensures
        final(v)@ == old(v)@ + crate::numfmt::decimal(n as nat),
{
    let mut d = crate::numfmt::decimal_chars(n);
    v.append(&mut d);
}

fn shown(c: Option<crate::edit_core::Cursor>, shape: CursorShape) -> (r: CursorState)
    ensures
        r == shown_at(c, shape),
{
    match c {
        Some(p) => CursorState::Show(p, shape),
        None => CursorState::Hide,
    }
}

/// The top `height` rows of `view`, its cursor at their top left.
pub open spec fn top_rows(view: TermView, height: usize) -> TermView {
    TermView { height, cursor: Cursor { row: view.orig.0, col: view.orig.1 }, ..view }
}

/// How the buffer `b0` is drawn into `area` over the cells `g` of a screen
/// `screen_width` wide, from the first line that `b1`, the buffer after
/// drawing, shows, in the theme's background.
pub open spec fn buffer_drawn<B: CoreBuffer>(
    b0: &Buffer<B>,
    b1: &Buffer<B>,
    area: TermView,
    selected: Option<CursorRange>,
    input: &DrawInput,
    g: Seq<Seq<Tile>>,
    screen_width: nat,
) -> DrawProgress {
    let text = b0.core.text();
    let first = if b1.row_offset < line_count(text) {
        b1.row_offset as nat
    } else {
        line_count(text)
    };
    let d = draw_input(
        text,
        b0.core.cur(),
        first,
        input.line_styles@,
        b0.search@,
        input.outputs@,
        selected,
        input.background,
        screen_width,
    );
    draw_model(d, TermView { bg: input.background, ..area }, g)
}

/// The bottom `rows` rows of `view`, its cursor at their top left.
pub open spec fn bottom_rows(view: TermView, rows: usize) -> TermView {
    let top = (view.orig.0 + view.height - rows) as usize;
    TermView { orig: (top, view.orig.1), height: rows, cursor: Cursor { row: top, col: view.orig.1 }, ..view }
}

/// The terminal cursor in `shape` where the buffer's cursor was drawn,
/// hidden where it was not.
pub open spec fn shown_at(c: Option<Cursor>, shape: CursorShape) -> CursorState {
    match c {
        Some(p) => CursorState::Show(p, shape),
        None => CursorState::Hide,
    }
}

/// The selection shown in visual mode: from the anchor (the buffer's cursor
/// where the anchor has left the text) to the cursor, in text order; in
/// line mode from the start of the first line to the end of the last.
pub open spec fn visual_range(vs: Visual, s: Seq<char>, to: Cursor) -> CursorRange {
    let anchor = if vs.cursor.row < line_count(s) && vs.cursor.col <= line_len(s, vs.cursor.row as nat) {
        vs.cursor
    } else {
        to
    };
    let l = cursor_min(anchor, to);
    let r = cursor_max(anchor, to);
    if vs.line_mode {
        CursorRange(
            Cursor { row: l.row, col: 0 },
            if r.row < line_count(s) {
                Cursor { row: r.row, col: line_len(s, r.row as nat) as usize }
            } else {
                r
            },
        )
    } else {
        CursorRange(l, r)
    }
}

/// The spinner shown while compiling, one frame per drawing.
pub open spec fn spinner() -> Seq<char> {
    "⠋⠙⠹⠸⠼⠴⠦⠧⠇⠏"@
}

/// The cursor's line and column, counted from 1.
pub open spec fn position_text(cur: Cursor) -> Seq<char> {
    (if cur.row < usize::MAX {
        decimal((cur.row + 1) as nat)
    } else {
        Seq::empty()
    }) + " "@ + (if cur.col < usize::MAX {
        decimal((cur.col + 1) as nat)
    } else {
        Seq::empty()
    })
}

/// The compiler's state: the spinner and `Compiling ...` while it runs,
/// else the outcome of the last compile, if any.
pub open spec fn compile_text(compiling: bool, frame: usize, last_success: Option<bool>) -> Seq<char> {
    if compiling {
        " "@ + seq![spinner()[(frame % 10) as int]] + "Compiling ..."@
    } else {
        match last_success {
            Some(true) => " [Compile: Success]"@,
            Some(false) => " [Compile: Failed]"@,
            None => Seq::empty(),
        }
    }
}

/// The status line of normal mode: the cursor's line and column (from 1),
/// the file (`*` for none), the mode's message, the compiler's state and the
/// size of the text in bytes.
pub open spec fn normal_status_line(
    cur: Cursor,
    path: Option<String>,
    message: Seq<char>,
    compiling: bool,
    frame: usize,
    last_success: Option<bool>,
    bytes: nat,
) -> Seq<char> {
    "[Normal] ("@ + position_text(cur) + ") ["@ + (match path {
        Some(p) => p@,
        None => "*"@,
    }) + "]"@ + (if message.len() > 0 {
        " "@ + message
    } else {
        Seq::empty()
    }) + compile_text(compiling, frame, last_success) + " "@ + decimal(bytes) + " bytes"@
}

/// The footer of normal mode written over `g`: the first diagnostic's
/// message on the cursor's line, else the status line; then the helpers
/// that are connected.
pub open spec fn normal_footer<B: CoreBuffer>(
    n: Normal,
    b: &Buffer<B>,
    f: TermView,
    g: Seq<Seq<Tile>>,
    input: &DrawInput,
    status: &DrawStatus,
) -> Seq<Seq<Tile>> {
    let cur = b.core.cur();
    let t1 = match first_output_on(input.outputs@, cur.row) {
        Some(i) => puts_model(f, g, input.outputs@[i].message@, footer_style()),
        None => puts_model(
            f,
            g,
            normal_status_line(
                cur,
                b.path,
                n.message@,
                status.compiling,
                n.frame,
                status.last_compile_success,
                vstd::utf8::encode_utf8(b.core.text()).len(),
            ),
            footer_style(),
        ),
    };
    let t2 = if status.lsp {
        puts_model(t1.0, t1.1, " [LSP]"@, footer_style())
    } else {
        t1
    };
    let t3 = if status.tabnine {
        puts_model(t2.0, t2.1, " [TabNine]"@, footer_style())
    } else {
        t2
    };
    t3.1
}

/// The cells and the terminal cursor that drawing `mode` gives, over the
/// cells `g` of a screen `w` wide.
pub open spec fn mode_screen<B: CoreBuffer>(
    mode: Mode,
    b0: &Buffer<B>,
    b1: &Buffer<B>,
    view: TermView,
    input: &DrawInput,
    status: &DrawStatus,
    g: Seq<Seq<Tile>>,
    w: nat,
) -> (Seq<Seq<Tile>>, CursorState) {
    let h = view.height;
    let above = buffer_drawn(b0, b1, top_rows(view, (h - 1) as usize), None, input, g, w);
    let f = bottom_rows(view, 1);
    let block = shown_at(above.cursor, CursorShape::Block);
    match mode {
        Mode::Normal(n) => (normal_footer(n, b0, f, above.grid, input, status), block),
        Mode::Insert(ins) => {
            let m = buffer_drawn(b0, b1, top_rows(view, h), None, input, g, w);
            let cells = match m.cursor {
                Some(at) => completions_model(ins, view, m.grid, at),
                None => m.grid,
            };
            (cells, shown_at(m.cursor, CursorShape::Bar))
        },
        Mode::FuzzyOpen(fz) => fuzzy_screen(fz, b0, b1, view, input, g, w),
        Mode::R => {
            let m = buffer_drawn(b0, b1, top_rows(view, h), None, input, g, w);
            (m.grid, shown_at(m.cursor, CursorShape::Underline))
        },
        Mode::Search => (puts_model(f, above.grid, seq!['/'] + b0.search@, default_style()).1, block),
        Mode::Save(sv) => if h < 2 {
            (g, CursorState::Hide)
        } else {
            let m = buffer_drawn(b0, b1, top_rows(view, (h - 2) as usize), None, input, g, w);
            let a = puts_model(bottom_rows(view, 2), m.grid, status.current_dir@, ui_style());
            let b = newline_model(a.0, a.1);
            let c = puts_model(b.0, b.1, "> "@, ui_style());
            let d = puts_model(c.0, c.1, sv.path@, ui_style());
            (d.1, shown_at(m.cursor, CursorShape::Block))
        },
        Mode::Prefix => {
            let a = puts_model(f, above.grid, "Prefix"@, footer_highlight_style());
            let b = puts_model(
                a.0,
                a.1,
                " ... [Esc: Return] [q: Quit] [s: Save] [a: save As ...] [<Space> Format]"@,
                footer_style(),
            );
            (b.1, block)
        },
        Mode::TextObjectOperation(op) => {
            let t = match op.parser.action {
                Action::Change => "Change "@,
                Action::Delete => "Delete "@,
                Action::Yank => "Yank "@,
            };
            (puts_model(f, above.grid, t, footer_style()).1, block)
        },
        Mode::Find(fd) => {
            let t = if fd.to_right {
                "find ->"@
            } else {
                "find <-"@
            };
            (puts_model(f, above.grid, t, footer_style()).1, block)
        },
        Mode::Goto(gt) => {
            let a = puts_model(f, above.grid, "Goto: "@, default_style());
            (puts_model(a.0, a.1, gt.row@, default_style()).1, block)
        },
        Mode::Visual(vs) => {
            let m = buffer_drawn(
                b0,
                b1,
                top_rows(view, h),
                Some(visual_range(vs, b0.core.text(), b0.core.cur())),
                input,
                g,
                w,
            );
            (m.grid, shown_at(m.cursor, CursorShape::Block))
        },
        Mode::S(range) => {
            let m = buffer_drawn(b0, b1, top_rows(view, h), Some(range), input, g, w);
            (m.grid, shown_at(m.cursor, CursorShape::Block))
        },
    }
}

/// The `i`-th completion on offer, the language server's first, then
/// TabNine's, then the snippets': its word and its description.
pub open spec fn completion_entry(ins: Insert, i: nat) -> (Seq<char>, Seq<char>) {
    let a = ins.completions@.len();
    let b = ins.tabnine_completions@.len();
    if i < a {
        (ins.completions@[i as int].keyword@, ins.completions@[i as int].doc@)
    } else if i - a < b {
        (ins.tabnine_completions@[i - a].keyword@, ins.tabnine_completions@[i - a].doc@)
    } else {
        (ins.snippet_completions@[i - a - b]@, "snippet"@)
    }
}

/// The rows of the completion pop-up from the `i`-th to before the `n`-th:
/// the word (highlighted when picked), a space, the description, each cut
/// at the edge of the view.
pub open spec fn completion_rows_model(ins: Insert, v: TermView, g: Seq<Seq<Tile>>, i: nat, n: nat) -> (
    TermView,
    Seq<Seq<Tile>>,
)
    decreases n - i,
{
    if i >= n {
        (v, g)
    } else {
        let picked = match ins.completion_index {
            Some(k) => k == i,
            None => false,
        };
        let style = if picked {
            highlight_style()
        } else {
            ui_style()
        };
        let e = completion_entry(ins, i);
        let a = inlines_model(v, g, e.0, style);
        let b = inline_model(a.0, a.1, ' ', default_style());
        let c = inlines_model(b.0, b.1, e.1, selected_style());
        let d = newline_model(c.0, c.1);
        completion_rows_model(ins, d.0, d.1, i + 1, n)
    }
}

/// The completion pop-up of insert mode drawn over `g`: just below the
/// screen position `at` of the cursor, inside `view`, as many rows as fit.
pub open spec fn completions_model(ins: Insert, view: TermView, g: Seq<Seq<Tile>>, at: Cursor) -> Seq<Seq<Tile>> {
    if at.row == usize::MAX || at.row + 1 < view.orig.0 || at.col < view.orig.1 {
        g
    } else {
        let rel_row = at.row + 1 - view.orig.0;
        let rel_col = at.col - view.orig.1;
        if rel_row >= view.height || rel_col >= view.width || ins.count() > usize::MAX {
            g
        } else {
            let height = view.height - rel_row;
            let top = (at.row + 1) as usize;
            let v = TermView {
                orig: (top, at.col),
                height: height as usize,
                width: (view.width - rel_col) as usize,
                cursor: Cursor { row: top, col: at.col },
                ..view
            };
            let n = if ins.count() < height {
                ins.count()
            } else {
                height as nat
            };
            completion_rows_model(ins, v, g, 0, n).1
        }
    }
}

/// The style of char `j` of the `i`-th match in the fuzzy opener: matched
/// chars highlighted, the pick shaded.
pub open spec fn fuzzy_char_style(fz: FuzzyOpen, i: int, j: int) -> CharStyle {
    let base = if fz.result@[i].match_indices@.contains(j as usize) {
        highlight_style()
    } else {
        default_style()
    };
    if i == fz.index {
        CharStyle { bg: Color::Rgb { r: 0x44, g: 0x44, b: 0x44 }, ..base }
    } else {
        base
    }
}

/// The chars of the `i`-th match from the `j`-th on, each where it fits.
pub open spec fn fuzzy_line_model(fz: FuzzyOpen, i: int, v: TermView, g: Seq<Seq<Tile>>, j: nat) -> (
    TermView,
    Seq<Seq<Tile>>,
)
    decreases fz.result@[i].line@.len() - j,
{
    let line = fz.result@[i].line@;
    if j >= line.len() {
        (v, g)
    } else {
        let r = inline_model(v, g, line[j as int], fuzzy_char_style(fz, i, j as int));
        fuzzy_line_model(fz, i, r.0, r.1, j + 1)
    }
}

/// The first `k` matches, the `k`-th at the top and the best at the bottom,
/// one per row.
pub open spec fn fuzzy_rows_model(fz: FuzzyOpen, v: TermView, g: Seq<Seq<Tile>>, k: nat) -> (
    TermView,
    Seq<Seq<Tile>>,
)
    decreases k,
{
    if k == 0 {
        (v, g)
    } else {
        let a = fuzzy_line_model(fz, k - 1, v, g, 0);
        let b = newline_model(a.0, a.1);
        fuzzy_rows_model(fz, b.0, b.1, (k - 1) as nat)
    }
}

/// The fuzzy opener drawn over `g`: the buffer in the rows the matches
/// leave, the matches that fit above the last row, the query on the last
/// row with the terminal cursor after it.
pub open spec fn fuzzy_screen<B: CoreBuffer>(
    fz: FuzzyOpen,
    b0: &Buffer<B>,
    b1: &Buffer<B>,
    view: TermView,
    input: &DrawInput,
    g: Seq<Seq<Tile>>,
    w: nat,
) -> (Seq<Seq<Tile>>, CursorState) {
    let sub_h = view.height - 1;
    let n = fz.result@.len();
    let buf_rows = if sub_h > n {
        sub_h - n
    } else {
        0
    };
    let g1 = if buf_rows > 0 {
        buffer_drawn(b0, b1, top_rows(view, buf_rows as usize), None, input, g, w).grid
    } else {
        g
    };
    let top = (view.orig.0 + buf_rows) as usize;
    let rv = TermView {
        orig: (top, view.orig.1),
        height: (sub_h - buf_rows) as usize,
        cursor: Cursor { row: top, col: view.orig.1 },
        ..view
    };
    let shown_n = if rv.height < n {
        rv.height as nat
    } else {
        n
    };
    let a = fuzzy_rows_model(fz, rv, g1, shown_n);
    let b = puts_model(bottom_rows(view, 1), a.1, "Fuzzy> "@, default_style());
    let c = puts_model(b.0, b.1, fz.line_buf@, default_style());
    (
        c.1,
        if c.0.is_out_spec() {
            CursorState::Hide
        } else {
            CursorState::Show(c.0.cursor, CursorShape::Bar)
        },
    )
}

/// Draws the buffer into the top `height` rows of `view`.
fn draw_buffer<B: CoreBuffer>(
    buf: &mut Buffer<B>,
    view: &TermView,
    term: &mut Term,
    height: usize,
    selected: Option<CursorRange>,
    input: &DrawInput,
) -> (r: Option<crate::edit_core::Cursor>)
    requires
        drawable(old(buf)),
        old(term).wf(),
        view.fits(old(term).height as nat, old(term).width as nat),
        height <= view.height,
        input.wf(),
    ensures
        draw_kept(old(buf), final(buf)),
        term_kept(old(term), final(term)),
        ({
            let m = buffer_drawn(
                old(buf),
                final(buf),
                top_rows(*view, height),
                selected,
                input,
                old(term).grid(),
                old(term).width as nat,
            );
            final(term).grid() == m.grid && r == m.cursor
        }),
{
    let v = view.view(term, (0, 0), height, view.width);
    buf.draw_with_selected(v, term, selected, input.line_styles, input.background, input.outputs)
}

/// The view's bottom `rows` rows, for the status line or a prompt.
fn footer(view: &TermView, term: &Term, rows: usize) -> (f: TermView)
    requires
        term.wf(),
        view.fits(term.height as nat, term.width as nat),
        rows <= view.height,
    ensures
        f.fits(term.height as nat, term.width as nat),
        f == bottom_rows(*view, rows),
{
    view.view(term, (view.height - rows, 0), rows, view.width)
}

/// `j` is among `v`.
fn contains(v: &Vec<usize>, j: usize) -> (r: bool)
    ensures
        r == v@.contains(j),
{
    let mut i: usize = 0;
    while i < v.len()
        invariant
            i <= v@.len(),
            forall|k: int| 0 <= k < i ==> v@[k] != j,
        decreases v@.len() - i,
    {
        if v[i] == j {
            return true;
        }
        i += 1;
    }
    false
}

/// The fuzzy opener: the buffer above (where the matches leave room), the
/// best matches from the bottom up with their matched chars highlighted and
/// the pick shaded, and the query on the last line, where the cursor is.
fn draw_fuzzy<B: CoreBuffer>(fz: &FuzzyOpen, buf: &mut Buffer<B>, view: &TermView, term: &mut Term, input: &DrawInput) -> (r: CursorState)
    requires
        drawable(old(buf)),
        old(term).wf(),
        view.fits(old(term).height as nat, old(term).width as nat),
        view.height > 0,
        input.wf(),
    ensures
        draw_kept(old(buf), final(buf)),
        term_kept(old(term), final(term)),
        (final(term).grid(), r) == fuzzy_screen(*fz, old(buf), final(buf), *view, input, old(term).grid(), old(term).width as nat),
{
    let sub_h = view.height - 1;
    let n = fz.result.len();
    let buf_rows = if sub_h > n {
        sub_h - n
    } else {
        0
    };
    if buf_rows > 0 {
        draw_buffer(buf, view, term, buf_rows, None, input);
    }
    let mut rv = view.view(term, (buf_rows, 0), sub_h - buf_rows, view.width);
    let shown_n = if rv.height < n {
        rv.height
    } else {
        n
    };
    let ghost g1 = term.grid();
    let ghost rv0 = rv;
    let mut k: usize = shown_n;
    while k > 0
        invariant
            term.wf(),
            term.height == old(term).height,
            term.width == old(term).width,
            term.cursor == old(term).cursor,
            rv.fits(term.height as nat, term.width as nat),
            k <= shown_n,
            shown_n <= fz.result@.len(),
            fuzzy_rows_model(*fz, rv0, g1, shown_n as nat) == fuzzy_rows_model(*fz, rv, term.grid(), k as nat),
        decreases k,
    {
        let i = k - 1;
        let item = &fz.result[i];
        let chars = crate::buffer_draw::chars_of(item.line.as_str());
        let ghost gi = term.grid();
        let ghost vi = rv;
        let mut j: usize = 0;
        while j < chars.len()
            invariant
                term.wf(),
                term.height == old(term).height,
                term.width == old(term).width,
                term.cursor == old(term).cursor,
                rv.fits(term.height as nat, term.width as nat),
                j <= chars@.len(),
                i < fz.result@.len(),
                chars@ == fz.result@[i as int].line@,
                *item == fz.result@[i as int],
                fuzzy_line_model(*fz, i as int, vi, gi, 0) == fuzzy_line_model(*fz, i as int, rv, term.grid(), j as nat),
            decreases chars@.len() - j,
        {
            let base = if contains(&item.match_indices, j) {
                styles::highlight()
            } else {
                styles::default()
            };
            let style = if i == fz.index {
                CharStyle { bg: Color::Rgb { r: 0x44, g: 0x44, b: 0x44 }, ..base }
            } else {
                base
            };
            assert(style == fuzzy_char_style(*fz, i as int, j as int));
            rv.put_inline(term, chars[j], style, None);
            j += 1;
        }
        rv.newline(term);
        k -= 1;
    }
    let mut q = footer(view, term, 1);
    q.puts(term, "Fuzzy> ", styles::default());
    q.puts_chars(term, &fz.line_buf, styles::default());
    if q.is_out() {
        CursorState::Hide
    } else {
        CursorState::Show(q.cursor, CursorShape::Bar)
    }
}

impl Insert {
    /// The completions under the cursor, the language server's, TabNine's,
    /// then the snippets': each word (the picked one highlighted) and its
    /// description (`snippet` for a snippet), one per row, as far as they
    /// fit.
    fn draw_completions(&self, view: &TermView, term: &mut Term, at: crate::edit_core::Cursor)
        requires
            old(term).wf(),
            view.fits(old(term).height as nat, old(term).width as nat),
        ensures
            term_kept(old(term), final(term)),
            final(term).grid() == completions_model(*self, *view, old(term).grid(), at),
    {
        if at.row == usize::MAX {
            return;
        }
        let row = at.row + 1;
        if row < view.orig.0 || at.col < view.orig.1 {
            return;
        }
        let rel_row = row - view.orig.0;
        let rel_col = at.col - view.orig.1;
        if rel_row >= view.height || rel_col >= view.width {
            return;
        }
        let height = view.height - rel_row;
        let width = view.width - rel_col;
        let mut v = view.view(term, (rel_row, rel_col), height, width);
        let total = match self.completion_count() {
            Some(t) => t,
            None => {
                return;
            },
        };
        let n = if total < height {
            total
        } else {
            height
        };
        let a = self.completions.len();
        let b = self.tabnine_completions.len();
        let ghost v0 = v;
        let ghost g0 = term.grid();
        let mut i: usize = 0;
        while i < n
            invariant
                term.wf(),
                term.height == old(term).height,
                term.width == old(term).width,
                term.cursor == old(term).cursor,
                v.fits(term.height as nat, term.width as nat),
                n <= self.count(),
                a == self.completions@.len(),
                b == self.tabnine_completions@.len(),
                i <= n,
                completion_rows_model(*self, v0, g0, 0, n as nat) == completion_rows_model(
                    *self,
                    v,
                    term.grid(),
                    i as nat,
                    n as nat,
                ),
            decreases n - i,
        {
            let selected = match self.completion_index {
                Some(k) => k == i,
                None => false,
            };
            let style = if selected {
                styles::highlight()
            } else {
                styles::ui()
            };
            let (kw, doc) = if i < a {
                (
                    crate::buffer_draw::chars_of(self.completions[i].keyword.as_str()),
                    crate::buffer_draw::chars_of(self.completions[i].doc.as_str()),
                )
            } else if i - a < b {
                (
                    crate::buffer_draw::chars_of(self.tabnine_completions[i - a].keyword.as_str()),
                    crate::buffer_draw::chars_of(self.tabnine_completions[i - a].doc.as_str()),
                )
            } else {
                (
                    crate::buffer_draw::chars_of(self.snippet_completions[i - a - b].as_str()),
                    crate::buffer_draw::chars_of("snippet"),
                )
            };
            assert(kw@ == completion_entry(*self, i as nat).0 && doc@ == completion_entry(*self, i as nat).1);
            v.puts_inline(term, &kw, style);
            v.put_inline(term, ' ', styles::default(), None);
            v.puts_inline(term, &doc, styles::selected());
            v.newline(term);
            i += 1;
        }
    }
}


fn position_chars(cur: Cursor) -> (v: Vec<char>)
    ensures
        v@ == position_text(cur),
{
    let mut v: Vec<char> = Vec::new();
    if cur.row < usize::MAX {
        push_number(&mut v, cur.row + 1);
    }
    push_str(&mut v, " ");
    if cur.col < usize::MAX {
        push_number(&mut v, cur.col + 1);
    }
    assert(v@ =~= position_text(cur));
    v
}

fn compile_chars(compiling: bool, frame: usize, last_success: Option<bool>) -> (v: Vec<char>)
    ensures
        v@ == compile_text(compiling, frame, last_success),
{
    let mut v: Vec<char> = Vec::new();
    if compiling {
        let frames = "⠋⠙⠹⠸⠼⠴⠦⠧⠇⠏";
        proof {
            reveal_strlit("⠋⠙⠹⠸⠼⠴⠦⠧⠇⠏");
        }
        push_str(&mut v, " ");
        v.push(frames.get_char(frame % 10));
        push_str(&mut v, "Compiling ...");
    } else {
        match last_success {
            Some(true) => push_str(&mut v, " [Compile: Success]"),
            Some(false) => push_str(&mut v, " [Compile: Failed]"),
            None => {},
        }
    }
    assert(v@ =~= compile_text(compiling, frame, last_success));
    v
}

/// Normal mode's status line.
fn normal_status<B: CoreBuffer>(n: &Normal, buf: &Buffer<B>, status: &DrawStatus) -> (line: Vec<char>)
    ensures
        line@ == normal_status_line(
            buf.core.cur(),
            buf.path,
            n.message@,
            status.compiling,
            n.frame,
            status.last_compile_success,
            vstd::utf8::encode_utf8(buf.core.text()).len(),
        ),
{
    let mut line: Vec<char> = Vec::new();
    push_str(&mut line, "[Normal] (");
    let mut pos = position_chars(buf.core.cursor());
    line.append(&mut pos);
    push_str(&mut line, ") [");
    match &buf.path {
        Some(p) => push_str(&mut line, p.as_str()),
        None => push_str(&mut line, "*"),
    }
    push_str(&mut line, "]");
    if n.message.as_str().unicode_len() > 0 {
        push_str(&mut line, " ");
        push_str(&mut line, n.message.as_str());
    }
    let mut cc = compile_chars(status.compiling, n.frame, status.last_compile_success);
    line.append(&mut cc);
    push_str(&mut line, " ");
    push_number(&mut line, buf.core.len_bytes());
    push_str(&mut line, " bytes");
    line
}

/// Writes normal mode's footer into `f`.
fn draw_normal_footer<B: CoreBuffer>(
    n: &Normal,
    buf: &Buffer<B>,
    f: TermView,
    term: &mut Term,
    input: &DrawInput,
    status: &DrawStatus,
)
    requires
        old(term).wf(),
        f.fits(old(term).height as nat, old(term).width as nat),
    ensures
        term_kept(old(term), final(term)),
        final(term).grid() == normal_footer(*n, buf, f, old(term).grid(), input, status),
{
    let mut f = f;
    let cur = buf.core.cursor();
    match crate::draw::find_output(input.outputs, cur.row) {
        Some(i) => {
            f.puts(term, input.outputs[i].message.as_str(), styles::footer());
        },
        None => {
            let line = normal_status(n, buf, status);
            f.puts_chars(term, &line, styles::footer());
        },
    }
    if status.lsp {
        f.puts(term, " [LSP]", styles::footer());
    }
    if status.tabnine {
        f.puts(term, " [TabNine]", styles::footer());
    }
}

impl Mode {
    /// Draws the mode: the buffer, and below it the status line or the
    /// prompt of the mode; gives where the terminal cursor goes and in what
    /// shape (a bar when typing, an underline for `r`, a block otherwise).
    #[verifier::spinoff_prover]
    #[verifier::rlimit(50)]
    pub fn draw<B: CoreBuffer>(
        &mut self,
        buf: &mut Buffer<B>,
        view: TermView,
        term: &mut Term,
        input: &DrawInput,
        status: &DrawStatus,
    ) -> (r: CursorState)
        requires
            drawable(old(buf)),
            old(term).wf(),
            view.fits(old(term).height as nat, old(term).width as nat),
            view.height > 0,
            input.wf(),
        ensures
            draw_kept(old(buf), final(buf)),
            term_kept(old(term), final(term)),
            r matches CursorState::Show(_, shape) ==> shape == (match *old(self) {
                Mode::Insert(_) => CursorShape::Bar,
                Mode::FuzzyOpen(_) => CursorShape::Bar,
                Mode::R => CursorShape::Underline,
                _ => CursorShape::Block,
            }),
            *final(self) == (match *old(self) {
                Mode::Normal(n) => Mode::Normal(Normal { frame: (if n.frame == usize::MAX { 0 } else { n.frame + 1 }) as usize, ..n }),
                m => m,
            }),
            (final(term).grid(), r) == mode_screen(*old(self), old(buf), final(buf), view, input, status, old(term).grid(), old(term).width as nat),
    {
        let h = view.height;
        match self {
            Mode::Normal(n) => {
                let c = draw_buffer(buf, &view, term, h - 1, None, input);
                let f = footer(&view, term, 1);
                draw_normal_footer(n, buf, f, term, input, status);
                n.frame = n.frame.wrapping_add(1);
                shown(c, CursorShape::Block)
            },
            Mode::Insert(ins) => {
                let c = draw_buffer(buf, &view, term, h, None, input);
                if let Some(at) = c {
                    ins.draw_completions(&view, term, at);
                }
                shown(c, CursorShape::Bar)
            },
            Mode::R => {
                let c = draw_buffer(buf, &view, term, h, None, input);
                shown(c, CursorShape::Underline)
            },
            Mode::Search => {
                let c = draw_buffer(buf, &view, term, h - 1, None, input);
                let mut f = footer(&view, term, 1);
                let ghost f0 = f;
                let ghost g0 = term.grid();
                let ghost text = seq!['/'] + buf.search@;
                f.put(term, '/', styles::default(), None);
                proof {
                    assert(text[0] == '/');
                    assert(text.drop_first() =~= buf.search@.subrange(0, buf.search@.len() as int));
                }
                let mut i: usize = 0;
                while i < buf.search.len()
                    invariant
                        term.wf(),
                        term.height == old(term).height,
                        term.width == old(term).width,
                        term.cursor == old(term).cursor,
                        f.fits(term.height as nat, term.width as nat),
                        i <= buf.search@.len(),
                        puts_model(f0, g0, text, default_style()) == puts_model(
                            f,
                            term.grid(),
                            buf.search@.subrange(i as int, buf.search@.len() as int),
                            default_style(),
                        ),
                    decreases buf.search@.len() - i,
                {
                    assert(buf.search@.subrange(i as int, buf.search@.len() as int).drop_first()
                        =~= buf.search@.subrange(i + 1, buf.search@.len() as int));
                    f.put(term, buf.search[i], styles::default(), None);
                    i += 1;
                }
                assert(buf.search@.subrange(i as int, buf.search@.len() as int) =~= Seq::<char>::empty());
                shown(c, CursorShape::Block)
            },
            Mode::Save(sv) => {
                if h < 2 {
                    return CursorState::Hide;
                }
                let c = draw_buffer(buf, &view, term, h - 2, None, input);
                let mut f = footer(&view, term, 2);
                f.puts(term, status.current_dir.as_str(), styles::ui());
                f.newline(term);
                f.puts(term, "> ", styles::ui());
                f.puts(term, sv.path.as_str(), styles::ui());
                shown(c, CursorShape::Block)
            },
            Mode::Prefix => {
                let c = draw_buffer(buf, &view, term, h - 1, None, input);
                let mut f = footer(&view, term, 1);
                f.puts(term, "Prefix", styles::footer_highlight());
                f.puts(
                    term,
                    " ... [Esc: Return] [q: Quit] [s: Save] [a: save As ...] [<Space> Format]",
                    styles::footer(),
                );
                shown(c, CursorShape::Block)
            },
            Mode::TextObjectOperation(op) => {
                let c = draw_buffer(buf, &view, term, h - 1, None, input);
                let mut f = footer(&view, term, 1);
                match op.parser.action {
                    Action::Change => f.puts(term, "Change ", styles::footer()),
                    Action::Delete => f.puts(term, "Delete ", styles::footer()),
                    Action::Yank => f.puts(term, "Yank ", styles::footer()),
                }
                shown(c, CursorShape::Block)
            },
            Mode::Find(fd) => {
                let c = draw_buffer(buf, &view, term, h - 1, None, input);
                let mut f = footer(&view, term, 1);
                if fd.to_right {
                    f.puts(term, "find ->", styles::footer());
                } else {
                    f.puts(term, "find <-", styles::footer());
                }
                shown(c, CursorShape::Block)
            },
            Mode::FuzzyOpen(fz) => {
                draw_fuzzy(fz, buf, &view, term, input)
            },
            Mode::Goto(g) => {
                let c = draw_buffer(buf, &view, term, h - 1, None, input);
                let mut f = footer(&view, term, 1);
                f.puts(term, "Goto: ", styles::default());
                f.puts_chars(term, &g.row, styles::default());
                shown(c, CursorShape::Block)
            },
            Mode::Visual(vs) => {
                let to = buf.core.cursor();
                let anchor = if buf.core.on_text(vs.cursor) {
                    vs.cursor
                } else {
                    to
                };
                let mut l = crate::edit_core::min_cursor(anchor, to);
                let mut r = crate::edit_core::max_cursor(anchor, to);
                if vs.line_mode {
                    l = crate::edit_core::Cursor { row: l.row, col: 0 };
                    proof {
                        buf.core.lemma_wf();
                        crate::edit_core::lemma_cursor_order(buf.core.text(), anchor, to);
                    }
                    if r.row < buf.core.len_lines() {
                        r = crate::edit_core::Cursor { row: r.row, col: buf.core.len_line(r.row) };
                    }
                }
                let c = draw_buffer(buf, &view, term, h, Some(CursorRange(l, r)), input);
                shown(c, CursorShape::Block)
            },
            Mode::S(range) => {
                let c = draw_buffer(buf, &view, term, h, Some(*range), input);
                shown(c, CursorShape::Block)
            },
        }
    }
}

} // verus!
