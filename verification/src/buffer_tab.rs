//! Tabs: several buffers, one of them shown, and the tab bar at the bottom
//! of the screen.
use vstd::prelude::*;

use crate::buffer::Buffer;
use crate::buffer_mode::{handles_key, BufferMode, TabOperation};
use crate::char_width::{char_width, char_width_spec, draw_width, width_or_zero};
use crate::draw::char_style::CharStyle;
use crate::draw::styles::{self, default_style, highlight_style, tab_bar_style, ui_style};
use crate::draw::{put_model, spaces, Term, TermView, Tile};
use crate::draw::cursor::CursorState;
use crate::mode_draw::{draw_kept, drawable, mode_screen, term_kept, top_rows, DrawInput, DrawStatus};
use crate::numfmt::{decimal, decimal_chars};
use crate::buffer_draw::chars_of;
use crate::paths::{file_name, file_name_spec};
use crate::edit_core::buffer::CoreBuffer;
use crate::event::Event;
use crate::edit_core::Cursor;
use crate::mode::settings_kept;

verus! {

/// A tab bar being laid out, as values: the cell of each column, the tab
/// each column belongs to, and the next free column.
pub type TabLineModel = (Seq<Option<(char, CharStyle)>>, Seq<Option<usize>>, nat);

/// Writing `c`: when it has a width and ends before the last column, its
/// first column takes the char, and its columns (at least one) take
/// `tab_num`; otherwise nothing changes.
pub open spec fn tab_put(m: TabLineModel, c: char, style: CharStyle, tab_num: Option<usize>) -> TabLineModel {
    match char_width_spec(c) {
        Some(w) => if m.2 + w < m.0.len() {
            let adv: nat = if w == 0 {
                1
            } else {
                w as nat
            };
            (
                m.0.update(m.2 as int, Some((c, style))),
                Seq::new(m.1.len(), |i: int| if m.2 <= i < m.2 + adv { tab_num } else { m.1[i] }),
                m.2 + adv,
            )
        } else {
            m
        },
        None => m,
    }
}

/// Writing the chars of `s` one after the other.
pub open spec fn tab_puts(m: TabLineModel, s: Seq<char>, style: CharStyle, tab_num: Option<usize>) -> TabLineModel
    decreases s.len(),
{
    if s.len() == 0 {
        m
    } else {
        tab_put(tab_puts(m, s.drop_last(), style, tab_num), s.last(), style, tab_num)
    }
}

/// An empty bar `width` columns wide.
pub open spec fn empty_tab_line(width: nat) -> TabLineModel {
    (Seq::new(width, |i: int| None), Seq::new(width, |i: int| None), 0)
}

/// The tab bar being laid out: a cell per column, the tab each column
/// belongs to (for clicks), and the next free column.
pub struct TabLine {
    pub buf: Vec<Option<(char, CharStyle)>>,
    pub tab: Vec<Option<usize>>,
    pub cursor: usize,
}

impl TabLine {
    pub open spec fn wf(&self) -> bool {
        &&& self.buf@.len() == self.tab@.len()
        &&& self.cursor <= self.buf@.len()
    }

    pub open spec fn model(&self) -> TabLineModel {
        (self.buf@, self.tab@, self.cursor as nat)
    }

    /// An empty bar `width` columns wide.
    pub fn new(width: usize) -> (t: Self)
        ensures
            t.wf(),
            t.model() == empty_tab_line(width as nat),
    {
        let mut buf: Vec<Option<(char, CharStyle)>> = Vec::new();
        let mut tab: Vec<Option<usize>> = Vec::new();
        let mut i: usize = 0;
        while i < width
            invariant
                i <= width,
                buf@.len() == i,
                tab@.len() == i,
                forall|k: int| 0 <= k < i ==> buf@[k] is None && tab@[k] is None,
            decreases width - i,
        {
            buf.push(None);
            tab.push(None);
            i += 1;
        }
        let t = TabLine { buf, tab, cursor: 0 };
        assert(t.buf@ =~= empty_tab_line(width as nat).0);
        assert(t.tab@ =~= empty_tab_line(width as nat).1);
        t
    }

    /// Writes `c` (if it has a width and fits before the last column),
    /// marking its columns as belonging to tab `tab_num`.
    pub fn put(&mut self, c: char, style: CharStyle, tab_num: Option<usize>)
        requires
            old(self).wf(),
        ensures
            final(self).wf(),
            final(self).model() == tab_put(old(self).model(), c, style, tab_num),
            final(self).buf@.len() == old(self).buf@.len(),
    {
        if let Some(w) = char_width(c) {
            if w < self.buf.len() && self.cursor < self.buf.len() - w {
                let start = self.cursor;
                let len = self.buf.len();
                self.buf.set(self.cursor, Some((c, style)));
                self.tab.set(self.cursor, tab_num);
                self.cursor = self.cursor + 1;
                let mut k: usize = 1;
                while k < w
                    invariant
                        self.buf@.len() == self.tab@.len(),
                        self.buf@.len() == old(self).buf@.len(),
                        len == self.buf@.len(),
                        start == old(self).cursor,
                        start + w < self.buf@.len(),
                        1 <= k,
                        k <= w || (w == 0 && k == 1),
                        self.cursor == start + k,
                        self.buf@ == old(self).buf@.update(start as int, Some((c, style))),
                        forall|i: int|
                            0 <= i < old(self).buf@.len() ==> #[trigger] self.tab@[i] == if start <= i < self.cursor {
                                tab_num
                            } else {
                                old(self).tab@[i]
                            },
                    decreases w - k,
                {
                    self.tab.set(self.cursor, tab_num);
                    self.cursor = self.cursor + 1;
                    k += 1;
                }
                assert(self.tab@ =~= tab_put(old(self).model(), c, style, tab_num).1);
            }
        }
    }

    /// Writes the chars of `s` with `put`.
    pub fn puts(&mut self, s: &str, style: CharStyle, tab_num: Option<usize>)
        requires
            old(self).wf(),
        ensures
            final(self).wf(),
            final(self).model() == tab_puts(old(self).model(), s@, style, tab_num),
            final(self).buf@.len() == old(self).buf@.len(),
    {
        let n = s.unicode_len();
        let mut i: usize = 0;
        assert(s@.take(0) =~= Seq::<char>::empty());
        while i < n
            invariant
                self.wf(),
                self.buf@.len() == old(self).buf@.len(),
                n == s@.len(),
                i <= n,
                self.model() == tab_puts(old(self).model(), s@.take(i as int), style, tab_num),
            decreases n - i,
        {
            assert(s@.take(i + 1).drop_last() =~= s@.take(i as int));
            self.put(s.get_char(i), style, tab_num);
            i += 1;
        }
        assert(s@.take(n as int) =~= s@);
    }

    /// Writes the chars of `s` with `put`.
    pub fn puts_chars(&mut self, s: &Vec<char>, style: CharStyle, tab_num: Option<usize>)
        requires
            old(self).wf(),
        ensures
            final(self).wf(),
            final(self).model() == tab_puts(old(self).model(), s@, style, tab_num),
            final(self).buf@.len() == old(self).buf@.len(),
    {
        let n = s.len();
        let mut i: usize = 0;
        assert(s@.take(0) =~= Seq::<char>::empty());
        while i < n
            invariant
                self.wf(),
                self.buf@.len() == old(self).buf@.len(),
                n == s@.len(),
                i <= n,
                self.model() == tab_puts(old(self).model(), s@.take(i as int), style, tab_num),
            decreases n - i,
        {
            assert(s@.take(i + 1).drop_last() =~= s@.take(i as int));
            self.put(s[i], style, tab_num);
            i += 1;
        }
        assert(s@.take(n as int) =~= s@);
    }
}

/// The columns a tab title takes at most.
pub const TITLE_LEN: usize = 5;

/// The title of a tab: the file name of its path, `*` for a buffer with no
/// file.
pub open spec fn tab_title(path: Option<String>) -> Seq<char> {
    match path {
        Some(p) => match file_name_spec(p@) {
            Some(n) => n,
            None => Seq::empty(),
        },
        None => seq!['*'],
    }
}

/// Fitting a title into `TITLE_LEN` columns: the chars kept (each kept when
/// it still fits after those kept before it), the columns they take, and
/// whether any was left out.
pub open spec fn title_fit(s: Seq<char>) -> (Seq<char>, nat, bool)
    decreases s.len(),
{
    if s.len() == 0 {
        (Seq::empty(), 0, false)
    } else {
        let prev = title_fit(s.drop_last());
        let cw = draw_width(s.last());
        if prev.1 + cw <= TITLE_LEN {
            (prev.0.push(s.last()), prev.1 + cw, prev.2)
        } else {
            (prev.0, prev.1, true)
        }
    }
}

/// The label of tab `i` (0-based): its number from one, and its title
/// padded to `TITLE_LEN` columns, with an ellipsis when cut short.
pub open spec fn tab_label(i: nat, title: Seq<char>) -> Seq<char> {
    let fit = title_fit(title);
    seq![' '] + decimal(i + 1) + seq![' '] + fit.0 + spaces((TITLE_LEN - fit.1) as nat) + if fit.2 {
        seq!['\u{2026}']
    } else {
        Seq::<char>::empty()
    }
}

/// The labels of the tabs with the given titles, the shown one in the tab
/// bar's colours.
pub open spec fn tab_labels(m: TabLineModel, titles: Seq<Seq<char>>, index: nat) -> TabLineModel
    decreases titles.len(),
{
    if titles.len() == 0 {
        m
    } else {
        let k = (titles.len() - 1) as nat;
        tab_puts(
            tab_labels(m, titles.drop_last(), index),
            tab_label(k, titles.last()),
            if k == index {
                tab_bar_style()
            } else {
                default_style()
            },
            Some(k as usize),
        )
    }
}

/// The whole tab bar: an `R` when remote editing listens, the tab labels,
/// and a closing space.
pub open spec fn tab_line_model(width: nat, rmate: bool, titles: Seq<Seq<char>>, index: nat) -> TabLineModel {
    let m0 = empty_tab_line(width);
    let m1 = if rmate {
        tab_puts(tab_puts(m0, seq!['R'], highlight_style(), None), seq![' '], default_style(), None)
    } else {
        m0
    };
    tab_put(tab_labels(m1, titles, index), ' ', ui_style(), None)
}

/// The chars of a tab's title.
fn title_chars(path: &Option<String>) -> (v: Vec<char>)
    ensures
        v@ == tab_title(*path),
{
    match path {
        Some(p) => match file_name(p.as_str()) {
            Some(n) => chars_of(n.as_str()),
            None => Vec::new(),
        },
        None => {
            let mut v: Vec<char> = Vec::new();
            v.push('*');
            assert(v@ =~= seq!['*']);
            v
        },
    }
}

/// The chars of tab `i`'s label.
pub fn tab_label_chars(i: usize, title: &Vec<char>) -> (v: Vec<char>)
    requires
        i < usize::MAX,
    ensures
        v@ == tab_label(i as nat, title@),
{
    let mut msg: Vec<char> = Vec::new();
    let mut w: usize = 0;
    let mut long = false;
    let mut k: usize = 0;
    assert(title@.take(0) =~= Seq::<char>::empty());
    while k < title.len()
        invariant
            k <= title@.len(),
            title_fit(title@.take(k as int)) == (msg@, w as nat, long),
            w <= TITLE_LEN,
        decreases title@.len() - k,
    {
        assert(title@.take(k + 1).drop_last() =~= title@.take(k as int));
        let c = title[k];
        let cw = width_or_zero(c);
        if w + cw <= TITLE_LEN {
            msg.push(c);
            w = w + cw;
        } else {
            long = true;
        }
        k += 1;
    }
    assert(title@.take(title@.len() as int) =~= title@);
    let mut v: Vec<char> = Vec::new();
    v.push(' ');
    let mut num = decimal_chars(i + 1);
    v.append(&mut num);
    v.push(' ');
    v.append(&mut msg);
    let ghost before_pad = v@;
    let mut j: usize = w;
    while j < TITLE_LEN
        invariant
            w <= j <= TITLE_LEN,
            v@ == before_pad + spaces((j - w) as nat),
        decreases TITLE_LEN - j,
    {
        v.push(' ');
        j += 1;
        assert(v@ =~= before_pad + spaces((j - w) as nat));
    }
    if long {
        v.push('\u{2026}');
    }
    let ghost fit = title_fit(title@);
    assert(v@ =~= tab_label(i as nat, title@));
    v
}

/// Putting the tab bar's cells on a view one after the other (empty cells
/// are skipped).
pub open spec fn cells_model(
    v: TermView,
    g: Seq<Seq<Tile>>,
    cells: Seq<Option<(char, CharStyle)>>,
) -> (TermView, Seq<Seq<Tile>>)
    decreases cells.len(),
{
    if cells.len() == 0 {
        (v, g)
    } else {
        let r = match cells[0] {
            Some(cs) => {
                let p = put_model(v, g, cs.0, cs.1, None, draw_width(cs.0));
                (p.0, p.1)
            },
            None => (v, g),
        };
        cells_model(r.0, r.1, cells.drop_first())
    }
}

/// The bottom line of `view`, where the tab bar goes.
pub open spec fn footer_view(view: TermView) -> TermView {
    TermView {
        orig: ((view.orig.0 + view.height - 1) as usize, view.orig.1),
        height: 1,
        width: view.width,
        bg: view.bg,
        cursor: Cursor { row: (view.orig.0 + view.height - 1) as usize, col: view.orig.1 },
    }
}

/// What carrying out `op` makes of the tabs `bufs` (showing the `index`-th,
/// remote editing on when `rmate`): `after`, handing back `r`.
pub open spec fn applied<B: CoreBuffer>(
    bufs: Seq<BufferMode<B>>,
    index: usize,
    rmate: bool,
    op: TabOperation,
    after: &BufferTab<B>,
    r: TabOperation,
) -> bool {
    match op {
        TabOperation::Close => if bufs.len() <= 1 {
            r is Close && after.buffers@ == bufs && after.index == index && after.rmate == rmate
        } else {
            &&& r is Nothing
            &&& after.buffers@ == bufs.remove(index as int)
            &&& after.index == (if index < after.buffers@.len() {
                index
            } else {
                (after.buffers@.len() - 1) as usize
            })
            &&& after.rmate == rmate
        },
        TabOperation::NewTab => {
            &&& r is Nothing
            &&& after.buffers@.len() == bufs.len() + 1
            &&& after.buffers@.drop_last() == bufs
            &&& after.index == bufs.len()
            &&& after.buffers@.last().buf.core.text().len() == 0
            &&& after.rmate == rmate
        },
        TabOperation::ChangeTab(n) => {
            &&& r is Nothing
            &&& after.buffers@ == bufs
            &&& after.index == (if 1 <= n <= bufs.len() {
                (n - 1) as usize
            } else {
                index
            })
            &&& after.rmate == rmate
        },
        TabOperation::StartRmate => r is StartRmate && after.rmate && after.buffers@ == bufs && after.index == index,
        TabOperation::Request(q) => r == TabOperation::Request(q) && after.buffers@ == bufs && after.index == index
            && after.rmate == rmate,
        TabOperation::Nothing => r is Nothing && after.buffers@ == bufs && after.index == index && after.rmate == rmate,
    }
}

/// The open buffers and which one is shown.
pub struct BufferTab<B: CoreBuffer> {
    pub buffers: Vec<BufferMode<B>>,
    pub index: usize,
    /// Remote editing is listening.
    pub rmate: bool,
}

impl<B: CoreBuffer> BufferTab<B> {
    /// At least one buffer, the shown one among them, all well formed.
    pub open spec fn wf(&self) -> bool {
        &&& self.buffers@.len() > 0
        &&& self.index < self.buffers@.len()
        &&& forall|i: int| 0 <= i < self.buffers@.len() ==> (#[trigger] self.buffers@[i]).buf.wf()
    }

    /// One empty buffer with the given indentation settings.
    pub fn new(indent_width: usize, hard_tab: bool) -> (t: Self)
        requires
            indent_width > 0,
        ensures
            t.wf(),
            t.buffers@.len() == 1,
            t.index == 0,
            !t.rmate,
    {
        let mut buffers: Vec<BufferMode<B>> = Vec::new();
        buffers.push(BufferMode::new(Buffer::new(indent_width, hard_tab)));
        BufferTab { buffers, index: 0, rmate: false }
    }

    pub fn buffer_mode(&self) -> (b: &BufferMode<B>)
        requires
            self.wf(),
        ensures
            *b == self.buffers@[self.index as int],
    {
        &self.buffers[self.index]
    }

    /// Just started: a single buffer with no file and no text.
    pub fn is_empty(&self) -> (r: bool)
        requires
            self.wf(),
        ensures
            r == (self.buffers@.len() == 1 && self.buffers@[self.index as int].buf.path is None
                && self.buffers@[self.index as int].buf.core.text().len() == 0),
    {
        self.buffers.len() == 1 && self.buffers[self.index].buf.path.is_none()
            && self.buffers[self.index].buf.core.len_chars() == 0
    }

    /// Opens a buffer in a new tab (in place of the first one when nothing
    /// was done yet), and shows it.
    pub fn open(&mut self, buf: Buffer<B>)
        requires
            old(self).wf(),
            buf.wf(),
        ensures
            final(self).wf(),
            final(self).index == final(self).buffers@.len() - 1,
            final(self).buffers@.last().buf == buf,
            final(self).buffers@.len() == (if old(self).buffers@.len() == 1 && old(self).buffers@[old(
                self,
            ).index as int].buf.path is None && old(self).buffers@[old(self).index as int].buf.core.text().len()
                == 0 {
                1
            } else {
                old(self).buffers@.len() + 1
            }),
    {
        if self.is_empty() {
            self.buffers = Vec::new();
        }
        self.buffers.push(BufferMode::new(buf));
        self.index = self.buffers.len() - 1;
    }

    /// The titles of the tabs, in order.
    pub open spec fn titles(&self) -> Seq<Seq<char>> {
        Seq::new(self.buffers@.len(), |i: int| tab_title(self.buffers@[i].buf.path))
    }

    /// Lays out the tab bar for a screen `width` columns wide.
    pub fn draw_tab_line(&self, width: usize) -> (t: TabLine)
        ensures
            t.wf(),
            t.buf@.len() == width,
            t.model() == tab_line_model(width as nat, self.rmate, self.titles(), self.index as nat),
    {
        let mut footer = TabLine::new(width);
        if self.rmate {
            proof {
                reveal_strlit("R");
                reveal_strlit(" ");
                assert("R"@ =~= seq!['R']);
                assert(" "@ =~= seq![' ']);
            }
            footer.puts("R", styles::highlight(), None);
            footer.puts(" ", styles::default(), None);
        }
        assert(footer.model() == (if self.rmate {
            tab_puts(
                tab_puts(empty_tab_line(width as nat), seq!['R'], highlight_style(), None),
                seq![' '],
                default_style(),
                None,
            )
        } else {
            empty_tab_line(width as nat)
        }));
        let ghost m1 = footer.model();
        let ghost titles = self.titles();
        let n = self.buffers.len();
        assert(titles.take(0) =~= Seq::<Seq<char>>::empty());
        let mut i: usize = 0;
        while i < n
            invariant
                n == self.buffers@.len(),
                titles == self.titles(),
                i <= n,
                footer.wf(),
                footer.buf@.len() == width,
                footer.model() == tab_labels(m1, titles.take(i as int), self.index as nat),
            decreases n - i,
        {
            assert(titles.take(i + 1).drop_last() =~= titles.take(i as int));
            let title = title_chars(&self.buffers[i].buf.path);
            let label = tab_label_chars(i, &title);
            if self.index == i {
                footer.puts_chars(&label, styles::tab_bar(), Some(i));
            } else {
                footer.puts_chars(&label, styles::default(), Some(i));
            }
            i += 1;
        }
        assert(titles.take(n as int) =~= titles);
        footer.put(' ', styles::ui(), None);
        footer
    }

    /// Draws the shown buffer above the bottom line of `view` and the tab bar
    /// on that line.
    #[verifier::spinoff_prover]
    #[verifier::rlimit(50)]
    pub fn draw(&mut self, view: TermView, term: &mut Term, input: &DrawInput, status: &DrawStatus) -> (r:
        CursorState)
        requires
            old(self).wf(),
            drawable(&old(self).buffers@[old(self).index as int].buf),
            old(term).wf(),
            view.fits(old(term).height as nat, old(term).width as nat),
            view.height >= 2,
            input.wf(),
        ensures
            final(self).wf(),
            final(self).index == old(self).index,
            final(self).rmate == old(self).rmate,
            final(self).buffers@.len() == old(self).buffers@.len(),
            forall|k: int|
                0 <= k < old(self).buffers@.len() && k != old(self).index ==> #[trigger] final(self).buffers@[k]
                    == old(self).buffers@[k],
            draw_kept(
                &old(self).buffers@[old(self).index as int].buf,
                &final(self).buffers@[old(self).index as int].buf,
            ),
            term_kept(old(term), final(term)),
            ({
                let x = mode_screen(
                    old(self).buffers@[old(self).index as int].mode,
                    &old(self).buffers@[old(self).index as int].buf,
                    &final(self).buffers@[old(self).index as int].buf,
                    top_rows(view, (view.height - 1) as usize),
                    input,
                    status,
                    old(term).grid(),
                    old(term).width as nat,
                );
                &&& final(term).grid() == cells_model(
                    footer_view(view),
                    x.0,
                    tab_line_model(view.width as nat, old(self).rmate, old(self).titles(), old(self).index as nat).0,
                ).1
                &&& r == x.1
            }),
    {
        let width = view.width();
        let i = self.index;
        let mut bm = self.buffers.remove(i);
        let body = view.view(term, (0, 0), view.height() - 1, width);
        let cursor = bm.draw(body, term, input, status);
        self.buffers.insert(i, bm);
        proof {
            assert forall|k: int| 0 <= k < self.buffers@.len() implies (#[trigger] self.buffers@[k]).buf.wf() by {
                if k < i {
                    assert(self.buffers@[k] == old(self).buffers@[k]);
                } else if k > i {
                    assert(self.buffers@[k] == old(self).buffers@[k]);
                }
            }
            assert(self.titles() =~= old(self).titles());
        }
        let mut footer = view.view(term, (view.height() - 1, 0), 1, width);
        let tab_line = self.draw_tab_line(width);
        let ghost g_mid = term.grid();
        let ghost f0 = footer;
        let ghost cells = tab_line.buf@;
        let n = tab_line.buf.len();
        assert(cells.subrange(0, n as int) =~= cells);
        let mut j: usize = 0;
        while j < n
            invariant
                n == cells.len(),
                cells == tab_line.buf@,
                j <= n,
                term.wf(),
                term.height == old(term).height,
                term.width == old(term).width,
                term.cursor == old(term).cursor,
                footer.fits(term.height as nat, term.width as nat),
                cells_model(f0, g_mid, cells) == cells_model(footer, term.grid(), cells.subrange(j as int, n as int)),
            decreases n - j,
        {
            assert(cells.subrange(j as int, n as int).drop_first() =~= cells.subrange(j + 1, n as int));
            if let Some((c, style)) = tab_line.buf[j] {
                footer.put(term, c, style, None);
            }
            j += 1;
        }
        assert(cells.subrange(n as int, n as int) =~= Seq::<Option<(char, CharStyle)>>::empty());
        assert(f0 == footer_view(view));
        assert(cells == tab_line_model(view.width as nat, old(self).rmate, old(self).titles(), old(self).index as nat).0);
        assert(term.grid() == cells_model(footer_view(view), g_mid, cells).1);
        cursor
    }

    /// A click on column `col` (from 0) of the tab bar of a screen `width`
    /// columns wide: shows the tab whose label is there.
    pub fn click(&mut self, width: usize, col: usize)
        requires
            old(self).wf(),
        ensures
            final(self).wf(),
            final(self).buffers == old(self).buffers,
            final(self).rmate == old(self).rmate,
            final(self).index == ({
                let tabs = tab_line_model(width as nat, old(self).rmate, old(self).titles(), old(self).index as nat).1;
                if col < width {
                    match tabs[col as int] {
                        Some(i) => if i < old(self).buffers@.len() {
                            i
                        } else {
                            old(self).index
                        },
                        None => old(self).index,
                    }
                } else {
                    old(self).index
                }
            }),
    {
        let line = self.draw_tab_line(width);
        self.click_tab(&line, col);
    }

    /// Clicking the tab bar: shows the tab whose title is at column `col`.
    pub fn click_tab(&mut self, line: &TabLine, col: usize)
        requires
            old(self).wf(),
            line.wf(),
        ensures
            final(self).wf(),
            final(self).buffers == old(self).buffers,
            final(self).rmate == old(self).rmate,
            final(self).index == (if col < line.tab@.len() {
                match line.tab@[col as int] {
                    Some(i) => if i < old(self).buffers@.len() {
                        i
                    } else {
                        old(self).index
                    },
                    None => old(self).index,
                }
            } else {
                old(self).index
            }),
    {
        if col < line.tab.len() {
            if let Some(i) = line.tab[col] {
                if i < self.buffers.len() {
                    self.index = i;
                }
            }
        }
    }

    /// Carries out what the shown buffer asked of the tabs: closing it (the
    /// editor quits with the last one), a new empty tab, going to a tab
    /// (1-based; ignored when there is no such tab). Starting remote editing
    /// and outside work are handed back.
    pub fn apply(&mut self, op: TabOperation, indent_width: usize, hard_tab: bool) -> (r: TabOperation)
        requires
            old(self).wf(),
            indent_width > 0,
        ensures
            final(self).wf(),
            applied(old(self).buffers@, old(self).index, old(self).rmate, op, final(self), r),
    {
        match op {
            TabOperation::Close => {
                if self.buffers.len() <= 1 {
                    return TabOperation::Close;
                }
                let i = self.index;
                self.buffers.remove(i);
                proof {
                    assert forall|k: int| 0 <= k < self.buffers@.len() implies (#[trigger] self.buffers@[k]).buf.wf() by {
                        if k < i {
                            assert(self.buffers@[k] == old(self).buffers@[k]);
                        } else {
                            assert(self.buffers@[k] == old(self).buffers@[k + 1]);
                        }
                    }
                }
                if self.index > self.buffers.len() - 1 {
                    self.index = self.buffers.len() - 1;
                }
                TabOperation::Nothing
            },
            TabOperation::NewTab => {
                let ghost before = self.buffers@;
                self.buffers.push(BufferMode::new(Buffer::new(indent_width, hard_tab)));
                assert(self.buffers@.drop_last() =~= before);
                self.index = self.buffers.len() - 1;
                TabOperation::Nothing
            },
            TabOperation::ChangeTab(n) => {
                if n >= 1 && n <= self.buffers.len() {
                    self.index = n - 1;
                }
                TabOperation::Nothing
            },
            TabOperation::StartRmate => {
                self.rmate = true;
                TabOperation::StartRmate
            },
            TabOperation::Request(req) => TabOperation::Request(req),
            TabOperation::Nothing => TabOperation::Nothing,
        }
    }

    /// Hands a key to the shown buffer, then carries out what it asks of
    /// the tabs with `apply`.
    pub fn event(&mut self, ev: Event, indent_width: usize, hard_tab: bool) -> (r: TabOperation)
        requires
            old(self).wf(),
            indent_width > 0,
        ensures
            final(self).wf(),
            r is Nothing || r is Close || r is StartRmate || r is Request,
            exists|bm: BufferMode<B>, op: TabOperation|
                #[trigger] handles_key(&old(self).buffers@[old(self).index as int], &bm, ev, op) && applied(
                    old(self).buffers@.update(old(self).index as int, bm),
                    old(self).index,
                    old(self).rmate,
                    op,
                    final(self),
                    r,
                ),
    {
        let i = self.index;
        let mut bm = self.buffers.remove(i);
        let op = bm.event(ev);
        let ghost bm1 = bm;
        self.buffers.insert(i, bm);
        assert(self.buffers@ =~= old(self).buffers@.update(i as int, bm1));
        proof {
            assert forall|k: int| 0 <= k < self.buffers@.len() implies (#[trigger] self.buffers@[k]).buf.wf() by {
                if k < i {
                    assert(self.buffers@[k] == old(self).buffers@[k]);
                } else if k > i {
                    assert(self.buffers@[k] == old(self).buffers@[k]);
                }
            }
        }
        self.apply(op, indent_width, hard_tab)
    }
}

} // verus!
