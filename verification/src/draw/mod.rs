//! The terminal screen as a grid of cells, views into it, and the double
//! buffer that finds what changed between two frames.
use vstd::prelude::*;

use self::char_style::{CharModification, CharStyle, Color};
use self::cursor::CursorState;
use self::styles::default_style;
use crate::char_width::{draw_width, width_or_zero};
use crate::compiler::CompilerOutput;
use crate::edit_core::Cursor;
use crate::numfmt::{decimal, decimal_chars, lemma_decimal_len_usize};
use self::styles::{highlight_style, ui_style};

pub mod char_style;
pub mod cursor;
pub mod escape;
pub mod styles;

verus! {

/// One cell of the grid: a character with its style and the text position
/// it shows, or the right half of a wide character.
#[derive(Debug, Clone, Copy, PartialEq, Eq, Structural)]
pub enum Tile {
    Empty,
    Char(char, CharStyle, Option<Cursor>),
}

/// `g` with the cell at `(row, col)` replaced by `t`.
pub open spec fn set_cell(g: Seq<Seq<Tile>>, row: int, col: int, t: Tile) -> Seq<Seq<Tile>> {
    g.update(row, g[row].update(col, t))
}

/// A grid of `height` rows of `width` cells each.
pub open spec fn grid_shape(g: Seq<Seq<Tile>>, height: nat, width: nat) -> bool {
    &&& g.len() == height
    &&& forall|i: int| 0 <= i < height ==> (#[trigger] g[i]).len() == width
}

/// The whole screen: its size, where the terminal cursor goes, and the cells.
#[derive(Debug)]
pub struct Term {
    pub height: usize,
    pub width: usize,
    pub cursor: CursorState,
    pub buf: Vec<Vec<Tile>>,
}

impl Term {
    /// The cells, row by row.
    pub open spec fn grid(&self) -> Seq<Seq<Tile>> {
        self.buf@.map_values(|row: Vec<Tile>| row@)
    }

    /// The grid has the size that the screen states.
    pub open spec fn wf(&self) -> bool {
        grid_shape(self.grid(), self.height as nat, self.width as nat)
    }

    /// A blank screen of the given size with the cursor hidden.
    pub fn new(height: usize, width: usize) -> (t: Term)
        ensures
            t.wf(),
            t.height == height,
            t.width == width,
            t.cursor == CursorState::Hide,
            forall|i: int, j: int|
                0 <= i < height && 0 <= j < width ==> #[trigger] t.grid()[i][j] == Tile::Char(
                    ' ',
                    default_style(),
                    None,
                ),
    {
        let blank = Tile::Char(' ', styles::default(), None);
        let mut buf: Vec<Vec<Tile>> = Vec::new();
        let mut i: usize = 0;
        while i < height
            invariant
                i <= height,
                blank == Tile::Char(' ', default_style(), None),
                buf@.len() == i,
                forall|k: int| 0 <= k < i ==> (#[trigger] buf@[k])@.len() == width,
                forall|k: int, j: int| 0 <= k < i && 0 <= j < width ==> #[trigger] buf@[k]@[j] == blank,
            decreases height - i,
        {
            let mut row: Vec<Tile> = Vec::new();
            let mut j: usize = 0;
            while j < width
                invariant
                    j <= width,
                    row@.len() == j,
                    forall|l: int| 0 <= l < j ==> #[trigger] row@[l] == blank,
                decreases width - j,
            {
                row.push(blank);
                j += 1;
            }
            buf.push(row);
            i += 1;
        }
        let t = Term { height, width, cursor: CursorState::Hide, buf };
        assert forall|k: int| 0 <= k < height implies (#[trigger] t.grid()[k]).len() == width by {
            assert(t.grid()[k] == t.buf@[k]@);
        }
        assert forall|k: int, j: int| 0 <= k < height && 0 <= j < width implies #[trigger] t.grid()[k][j]
            == Tile::Char(' ', default_style(), None) by {
            assert(t.grid()[k] == t.buf@[k]@);
        }
        t
    }

    /// Writes one cell.
    fn set_tile(&mut self, row: usize, col: usize, t: Tile)
        requires
            old(self).wf(),
            row < old(self).height,
            col < old(self).width,
        ensures
            final(self).wf(),
            final(self).height == old(self).height,
            final(self).width == old(self).width,
            final(self).cursor == old(self).cursor,
            final(self).grid() == set_cell(old(self).grid(), row as int, col as int, t),
    {
        assert(self.grid()[row as int] == self.buf@[row as int]@);
        self.buf[row].set(col, t);
        assert(self.grid() =~= set_cell(old(self).grid(), row as int, col as int, t)) by {
            assert forall|i: int| 0 <= i < self.grid().len() implies #[trigger] self.grid()[i]
                == set_cell(old(self).grid(), row as int, col as int, t)[i] by {
                assert(self.grid()[i] == self.buf@[i]@);
                assert(old(self).grid()[i] == old(self).buf@[i]@);
            }
        }
        assert forall|i: int| 0 <= i < self.height implies (#[trigger] self.grid()[i]).len()
            == self.width by {
            assert(old(self).grid()[i].len() == old(self).width);
        }
    }
}


/// A rectangle of the screen that characters are written into, left to
/// right and top to bottom, from its own cursor on.
#[derive(Debug, Clone, Copy)]
pub struct TermView {
    pub orig: (usize, usize),
    pub height: usize,
    pub width: usize,
    pub bg: Option<Color>,
    pub cursor: Cursor,
}

impl TermView {
    /// The column just past the view's right edge.
    pub open spec fn limit_col(self) -> int {
        self.orig.1 + self.width
    }

    /// The cursor has gone below the view.
    pub open spec fn is_out_spec(self) -> bool {
        self.cursor.row >= self.orig.0 + self.height
    }

    /// The view lies inside a screen of this size and its cursor inside it.
    pub open spec fn fits(self, height: nat, width: nat) -> bool {
        &&& self.orig.0 + self.height <= height
        &&& self.orig.1 + self.width <= width
        &&& self.orig.0 <= self.cursor.row <= self.orig.0 + self.height
        &&& self.orig.1 <= self.cursor.col <= self.orig.1 + self.width
    }

    /// The view with its cursor moved.
    pub open spec fn at(self, row: int, col: int) -> TermView {
        TermView { cursor: Cursor { row: row as usize, col: col as usize }, ..self }
    }

    /// A character of width `w` does not fit on the rest of the line.
    pub open spec fn cause_newline_spec(self, w: nat) -> bool {
        self.is_out_spec() || self.cursor.col + w >= self.limit_col()
    }
}

/// Moving to the start of the next line; with a background colour, the cell
/// under the cursor is painted first if a space still fits on the line.
pub open spec fn newline_model(v: TermView, g: Seq<Seq<Tile>>) -> (TermView, Seq<Seq<Tile>>) {
    if v.is_out_spec() {
        (v, g)
    } else {
        let g1 = match v.bg {
            Some(bg) => if v.cursor.col + 1 < v.limit_col() {
                set_cell(
                    g,
                    v.cursor.row as int,
                    v.cursor.col as int,
                    Tile::Char(
                        ' ',
                        CharStyle { fg: Color::Reset, bg, modification: CharModification::Default },
                        None,
                    ),
                )
            } else {
                g
            },
            None => g,
        };
        (v.at(v.cursor.row + 1, v.orig.1 as int), g1)
    }
}

/// Writing `first` and then `n - 1` continuation cells on a line, from `col`
/// up to the column `limit`, where the writing stops.
pub open spec fn fill_model(
    g: Seq<Seq<Tile>>,
    row: int,
    col: int,
    limit: int,
    first: Tile,
    n: nat,
) -> Seq<Seq<Tile>>
    decreases n,
{
    if n == 0 || col >= limit {
        g
    } else {
        fill_model(set_cell(g, row, col, first), row, col + 1, limit, Tile::Empty, (n - 1) as nat)
    }
}

/// Writing a character of width `w`: the view, the grid and what `put`
/// returns (the cursor before the write, or `None` once out of the view).
pub open spec fn put_model(
    v: TermView,
    g: Seq<Seq<Tile>>,
    c: char,
    style: CharStyle,
    pos: Option<Cursor>,
    w: nat,
) -> (TermView, Seq<Seq<Tile>>, Option<Cursor>) {
    if v.is_out_spec() {
        (v, g, None)
    } else if w == 0 {
        (v, g, Some(v.cursor))
    } else {
        let vg = if v.cursor.col + w >= v.limit_col() {
            newline_model(v, g)
        } else {
            (v, g)
        };
        let v1 = vg.0;
        let g1 = vg.1;
        if v1.is_out_spec() {
            (v1, g1, None)
        } else {
            let col = v1.cursor.col as int;
            let g2 = fill_model(g1, v1.cursor.row as int, col, v1.limit_col(), Tile::Char(c, style, pos), w);
            let ncol = if col + w <= v1.limit_col() {
                col + w
            } else {
                v1.limit_col()
            };
            (v1.at(v1.cursor.row as int, ncol), g2, Some(v.cursor))
        }
    }
}

proof fn lemma_set_cell_shape(g: Seq<Seq<Tile>>, h: nat, w: nat, row: int, col: int, t: Tile)
    requires
        grid_shape(g, h, w),
        0 <= row < h,
        0 <= col < w,
    ensures
        grid_shape(set_cell(g, row, col, t), h, w),
{
    let g2 = set_cell(g, row, col, t);
    assert forall|i: int| 0 <= i < h implies (#[trigger] g2[i]).len() == w by {
        if i != row {
            assert(g2[i] == g[i]);
        }
    }
}

proof fn lemma_fill_shape(g: Seq<Seq<Tile>>, h: nat, w: nat, row: int, col: int, limit: int, first: Tile, n: nat)
    requires
        grid_shape(g, h, w),
        0 <= row < h,
        0 <= col,
        limit <= w,
    ensures
        grid_shape(fill_model(g, row, col, limit, first, n), h, w),
    decreases n,
{
    if n == 0 || col >= limit {
    } else {
        lemma_set_cell_shape(g, h, w, row, col, first);
        lemma_fill_shape(set_cell(g, row, col, first), h, w, row, col + 1, limit, Tile::Empty, (n - 1) as nat);
    }
}

impl Term {
    /// A view of the rectangle at `orig` of the given size, its cursor at
    /// the rectangle's top left and no background.
    pub fn view(&self, orig: (usize, usize), height: usize, width: usize) -> (v: TermView)
        requires
            orig.0 + height <= self.height,
            orig.1 + width <= self.width,
        ensures
            v == (TermView {
                orig,
                height,
                width,
                bg: None,
                cursor: Cursor { row: orig.0, col: orig.1 },
            }),
            v.fits(self.height as nat, self.width as nat),
    {
        TermView { orig, height, width, bg: None, cursor: Cursor { row: orig.0, col: orig.1 } }
    }
}

impl TermView {
    /// A view of a rectangle inside this one, placed relative to this view's
    /// origin; it keeps this view's background.
    pub fn view(&self, term: &Term, orig: (usize, usize), height: usize, width: usize) -> (v: TermView)
        requires
            self.orig.0 + orig.0 + height <= term.height,
            self.orig.1 + orig.1 + width <= term.width,
        ensures
            v == (TermView {
                orig: ((self.orig.0 + orig.0) as usize, (self.orig.1 + orig.1) as usize),
                height,
                width,
                bg: self.bg,
                cursor: Cursor {
                    row: (self.orig.0 + orig.0) as usize,
                    col: (self.orig.1 + orig.1) as usize,
                },
            }),
            v.fits(term.height as nat, term.width as nat),
    {
        let new_orig = (self.orig.0 + orig.0, self.orig.1 + orig.1);
        TermView {
            orig: new_orig,
            height,
            width,
            bg: self.bg,
            cursor: Cursor { row: new_orig.0, col: new_orig.1 },
        }
    }

    pub fn height(&self) -> (h: usize)
        ensures
            h == self.height,
    {
        self.height
    }

    pub fn width(&self) -> (w: usize)
        ensures
            w == self.width,
    {
        self.width
    }

    /// The cursor has gone below the view: nothing more can be written.
    pub fn is_out(&self) -> (b: bool)
        requires
            self.orig.0 + self.height <= usize::MAX,
        ensures
            b == self.is_out_spec(),
    {
        self.cursor.row >= self.orig.0 + self.height
    }

    /// Whether a character of width `w` would have to go on the next line.
    pub fn cause_newline_width(&self, w: usize) -> (b: bool)
        requires
            self.fits(usize::MAX as nat, usize::MAX as nat),
        ensures
            b == self.cause_newline_spec(w as nat),
    {
        if self.is_out() {
            return true;
        }
        w >= self.orig.1 + self.width - self.cursor.col
    }

    /// Whether `c` would have to go on the next line.
    pub fn cause_newline(&self, c: char) -> (b: bool)
        requires
            self.fits(usize::MAX as nat, usize::MAX as nat),
        ensures
            b == self.cause_newline_spec(draw_width(c)),
    {
        let w = width_or_zero(c);
        self.cause_newline_width(w)
    }

    /// Moves to the start of the next line and returns where the cursor
    /// was, or `None` when the view is full.
    pub fn newline(&mut self, term: &mut Term) -> (r: Option<Cursor>)
        requires
            old(term).wf(),
            old(self).fits(old(term).height as nat, old(term).width as nat),
        ensures
            final(term).wf(),
            final(term).height == old(term).height,
            final(term).width == old(term).width,
            final(term).cursor == old(term).cursor,
            final(self).fits(final(term).height as nat, final(term).width as nat),
            (*final(self), final(term).grid()) == newline_model(*old(self), old(term).grid()),
            r == (if old(self).is_out_spec() { None } else { Some(old(self).cursor) }),
    {
        if self.is_out() {
            return None;
        }
        let prev = self.cursor;
        match self.bg {
            Some(bg) => {
                if !self.cause_newline_width(1) {
                    term.set_tile(self.cursor.row, self.cursor.col, Tile::Char(' ', CharStyle::bg(bg), None));
                }
            },
            None => {},
        }
        self.cursor = Cursor { row: self.cursor.row + 1, col: self.orig.1 };
        Some(prev)
    }

    /// Writes a character of width `w` at the cursor, going to the next
    /// line first where it does not fit; a character of width 0 is not
    /// written. Returns the cursor before the write, or `None` once the view
    /// is full.
    pub fn put_width(
        &mut self,
        term: &mut Term,
        c: char,
        w: usize,
        style: CharStyle,
        pos: Option<Cursor>,
    ) -> (r: Option<Cursor>)
        requires
            old(term).wf(),
            old(self).fits(old(term).height as nat, old(term).width as nat),
        ensures
            final(term).wf(),
            final(term).height == old(term).height,
            final(term).width == old(term).width,
            final(term).cursor == old(term).cursor,
            final(self).fits(final(term).height as nat, final(term).width as nat),
            (*final(self), final(term).grid(), r) == put_model(
                *old(self),
                old(term).grid(),
                c,
                style,
                pos,
                w as nat,
            ),
    {
        if self.is_out() {
            return None;
        }
        let prev = self.cursor;
        if w == 0 {
            return Some(prev);
        }
        if self.cause_newline_width(w) {
            self.newline(term);
            if self.is_out() {
                return None;
            }
        }
        let ghost g1 = term.grid();
        let ghost v1 = *self;
        let row = self.cursor.row;
        let limit = self.orig.1 + self.width;
        let mut first = Tile::Char(c, style, pos);
        let mut n = w;
        while n > 0 && self.cursor.col < limit
            invariant
                term.wf(),
                term.height == old(term).height,
                term.width == old(term).width,
                term.cursor == old(term).cursor,
                limit == v1.limit_col(),
                limit <= term.width,
                row == v1.cursor.row,
                row < term.height,
                n <= w,
                self.orig == v1.orig,
                self.height == v1.height,
                self.width == v1.width,
                self.bg == v1.bg,
                self.cursor.row == row,
                v1.cursor.col <= self.cursor.col <= limit,
                self.cursor.col == v1.cursor.col + (w - n),
                n < w ==> first == Tile::Empty,
                n == w ==> first == Tile::Char(c, style, pos),
                fill_model(g1, row as int, v1.cursor.col as int, limit as int, Tile::Char(c, style, pos), w as nat)
                    == fill_model(term.grid(), row as int, self.cursor.col as int, limit as int, first, n as nat),
            decreases n,
        {
            term.set_tile(row, self.cursor.col, first);
            self.cursor.col = self.cursor.col + 1;
            first = Tile::Empty;
            n = n - 1;
        }
        Some(prev)
    }

    /// Writes `c` at the cursor as `put_width` does, with the width that
    /// `unicode-width` gives it (none for a control character).
    pub fn put(&mut self, term: &mut Term, c: char, style: CharStyle, pos: Option<Cursor>) -> (r: Option<Cursor>)
        requires
            old(term).wf(),
            old(self).fits(old(term).height as nat, old(term).width as nat),
        ensures
            final(term).wf(),
            final(term).height == old(term).height,
            final(term).width == old(term).width,
            final(term).cursor == old(term).cursor,
            final(self).fits(final(term).height as nat, final(term).width as nat),
            (*final(self), final(term).grid(), r) == put_model(
                *old(self),
                old(term).grid(),
                c,
                style,
                pos,
                draw_width(c),
            ),
    {
        let w = width_or_zero(c);
        self.put_width(term, c, w, style, pos)
    }
}


/// Writing the characters of `s` one after the other.
pub open spec fn puts_model(
    v: TermView,
    g: Seq<Seq<Tile>>,
    s: Seq<char>,
    style: CharStyle,
) -> (TermView, Seq<Seq<Tile>>)
    decreases s.len(),
{
    if s.len() == 0 {
        (v, g)
    } else {
        let r = put_model(v, g, s[0], style, None, draw_width(s[0]));
        puts_model(r.0, r.1, s.drop_first(), style)
    }
}

impl TermView {
    /// Writes each character of `s` with `put`.
    pub fn puts(&mut self, term: &mut Term, s: &str, style: CharStyle)
        requires
            old(term).wf(),
            old(self).fits(old(term).height as nat, old(term).width as nat),
        ensures
            final(term).wf(),
            final(term).height == old(term).height,
            final(term).width == old(term).width,
            final(term).cursor == old(term).cursor,
            final(self).fits(final(term).height as nat, final(term).width as nat),
            (*final(self), final(term).grid()) == puts_model(*old(self), old(term).grid(), s@, style),
    {
        let len = s.unicode_len();
        assert(s@.subrange(0, len as int) =~= s@);
        let mut i: usize = 0;
        while i < len
            invariant
                len == s@.len(),
                i <= len,
                term.wf(),
                term.height == old(term).height,
                term.width == old(term).width,
                term.cursor == old(term).cursor,
                self.fits(term.height as nat, term.width as nat),
                puts_model(*old(self), old(term).grid(), s@, style) == puts_model(
                    *self,
                    term.grid(),
                    s@.subrange(i as int, len as int),
                    style,
                ),
            decreases len - i,
        {
            let c = s.get_char(i);
            assert(s@.subrange(i as int, len as int).drop_first() =~= s@.subrange(i + 1, len as int));
            self.put(term, c, style, None);
            i += 1;
        }
        assert(s@.subrange(len as int, len as int) =~= Seq::<char>::empty());
    }

    /// Writes `c` only where it fits on the current line; `None` otherwise.
    pub fn put_inline(&mut self, term: &mut Term, c: char, style: CharStyle, pos: Option<Cursor>) -> (r: Option<Cursor>)
        requires
            old(term).wf(),
            old(self).fits(old(term).height as nat, old(term).width as nat),
        ensures
            final(term).wf(),
            final(term).height == old(term).height,
            final(term).width == old(term).width,
            final(term).cursor == old(term).cursor,
            final(self).fits(final(term).height as nat, final(term).width as nat),
            old(self).cause_newline_spec(draw_width(c)) ==> r is None && *final(self) == *old(self)
                && final(term).grid() == old(term).grid(),
            !old(self).cause_newline_spec(draw_width(c)) ==> (*final(self), final(term).grid(), r)
                == put_model(*old(self), old(term).grid(), c, style, pos, draw_width(c)),
    {
        if self.cause_newline(c) {
            None
        } else {
            self.put(term, c, style, pos)
        }
    }
}

/// Writing `c` only where it fits on the current line.
pub open spec fn inline_model(v: TermView, g: Seq<Seq<Tile>>, c: char, style: CharStyle) -> (TermView, Seq<Seq<Tile>>) {
    if v.cause_newline_spec(draw_width(c)) {
        (v, g)
    } else {
        let r = put_model(v, g, c, style, None, draw_width(c));
        (r.0, r.1)
    }
}

/// Writing the characters of `s` one after the other, each only where it
/// fits on the current line.
pub open spec fn inlines_model(v: TermView, g: Seq<Seq<Tile>>, s: Seq<char>, style: CharStyle) -> (
    TermView,
    Seq<Seq<Tile>>,
)
    decreases s.len(),
{
    if s.len() == 0 {
        (v, g)
    } else {
        let r = inline_model(v, g, s[0], style);
        inlines_model(r.0, r.1, s.drop_first(), style)
    }
}

impl TermView {
    /// Writes the characters of `s` with `put_inline`.
    pub fn puts_inline(&mut self, term: &mut Term, s: &Vec<char>, style: CharStyle)
        requires
            old(term).wf(),
            old(self).fits(old(term).height as nat, old(term).width as nat),
        ensures
            final(term).wf(),
            final(term).height == old(term).height,
            final(term).width == old(term).width,
            final(term).cursor == old(term).cursor,
            final(self).fits(final(term).height as nat, final(term).width as nat),
            (*final(self), final(term).grid()) == inlines_model(*old(self), old(term).grid(), s@, style),
    {
        let len = s.len();
        assert(s@.subrange(0, len as int) =~= s@);
        let mut i: usize = 0;
        while i < len
            invariant
                len == s@.len(),
                i <= len,
                term.wf(),
                term.height == old(term).height,
                term.width == old(term).width,
                term.cursor == old(term).cursor,
                self.fits(term.height as nat, term.width as nat),
                inlines_model(*old(self), old(term).grid(), s@, style) == inlines_model(
                    *self,
                    term.grid(),
                    s@.subrange(i as int, len as int),
                    style,
                ),
            decreases len - i,
        {
            assert(s@.subrange(i as int, len as int).drop_first() =~= s@.subrange(i + 1, len as int));
            self.put_inline(term, s[i], style, None);
            i += 1;
        }
        assert(s@.subrange(len as int, len as int) =~= Seq::<char>::empty());
    }
}

/// The text position shown nearest to the left of column `n` (exclusive)
/// in a row, looking from right to left.
pub open spec fn pos_scan(row: Seq<Tile>, n: nat) -> Option<Cursor>
    decreases n,
{
    if n == 0 {
        None
    } else {
        match row[n - 1] {
            Tile::Char(_, _, Some(p)) => Some(p),
            _ => pos_scan(row, (n - 1) as nat),
        }
    }
}

/// The characters of a row with their styles, continuation cells left out.
pub open spec fn row_chars(row: Seq<Tile>) -> Seq<(char, CharStyle)>
    decreases row.len(),
{
    if row.len() == 0 {
        Seq::empty()
    } else {
        let rest = row_chars(row.drop_last());
        match row.last() {
            Tile::Char(c, s, _) => rest.push((c, s)),
            Tile::Empty => rest,
        }
    }
}

/// A line without its trailing blanks of the default style.
pub open spec fn trim_blank(s: Seq<(char, CharStyle)>) -> Seq<(char, CharStyle)>
    decreases s.len(),
{
    if s.len() > 0 && s.last() == (' ', default_style()) {
        trim_blank(s.drop_last())
    } else {
        s
    }
}

/// What a row looks like on the terminal.
pub open spec fn render_row(row: Seq<Tile>) -> Seq<(char, CharStyle)> {
    trim_blank(row_chars(row))
}

fn ends_blank(v: &Vec<(char, CharStyle)>) -> (b: bool)
    ensures
        b == (v@.len() > 0 && v@.last() == (' ', default_style())),
{
    if v.len() == 0 {
        return false;
    }
    let last = v[v.len() - 1];
    let blank = styles::default();
    last.0 == ' ' && last.1 == blank
}

/// Renders one row of cells.
fn render_line(row: &Vec<Tile>) -> (r: Vec<(char, CharStyle)>)
    ensures
        r@ == render_row(row@),
{
    let mut res: Vec<(char, CharStyle)> = Vec::new();
    let mut i: usize = 0;
    while i < row.len()
        invariant
            i <= row@.len(),
            res@ == row_chars(row@.take(i as int)),
        decreases row@.len() - i,
    {
        assert(row@.take(i + 1).drop_last() =~= row@.take(i as int));
        match row[i] {
            Tile::Char(c, s, _) => {
                res.push((c, s));
            },
            Tile::Empty => {},
        }
        i += 1;
    }
    assert(row@.take(row@.len() as int) =~= row@);
    while ends_blank(&res)
        invariant
            trim_blank(res@) == render_row(row@),
        decreases res@.len(),
    {
        res.pop();
    }
    res
}

fn lines_equal(a: &Vec<(char, CharStyle)>, b: &Vec<(char, CharStyle)>) -> (r: bool)
    ensures
        r == (a@ == b@),
{
    if a.len() != b.len() {
        return false;
    }
    let mut i: usize = 0;
    while i < a.len()
        invariant
            a@.len() == b@.len(),
            i <= a@.len(),
            forall|k: int| 0 <= k < i ==> a@[k] == b@[k],
        decreases a@.len() - i,
    {
        let x = a[i];
        let y = b[i];
        if !(x.0 == y.0 && x.1 == y.1) {
            return false;
        }
        i += 1;
    }
    assert(a@ =~= b@);
    true
}

impl Term {
    /// The text position shown at or left of `cursor` on its screen row.
    pub fn pos(&self, cursor: Cursor) -> (r: Option<Cursor>)
        requires
            self.wf(),
            cursor.row < self.height,
            cursor.col < self.width,
        ensures
            r == pos_scan(self.grid()[cursor.row as int], (cursor.col + 1) as nat),
    {
        let ghost line = self.grid()[cursor.row as int];
        assert(line == self.buf@[cursor.row as int]@);
        let mut x: usize = cursor.col + 1;
        while x > 0
            invariant
                x <= cursor.col + 1,
                cursor.col < self.width,
                line.len() == self.width,
                line == self.buf@[cursor.row as int]@,
                cursor.row < self.buf@.len(),
                pos_scan(line, (cursor.col + 1) as nat) == pos_scan(line, x as nat),
            decreases x,
        {
            x = x - 1;
            match self.buf[cursor.row][x] {
                Tile::Char(_, _, Some(p)) => {
                    return Some(p);
                },
                _ => {},
            }
        }
        None
    }

    /// Every row as it looks on the terminal.
    pub fn render(&self) -> (r: Vec<Vec<(char, CharStyle)>>)
        ensures
            r@.len() == self.buf@.len(),
            forall|i: int| 0 <= i < r@.len() ==> (#[trigger] r@[i])@ == render_row(self.grid()[i]),
    {
        let mut res: Vec<Vec<(char, CharStyle)>> = Vec::new();
        let mut i: usize = 0;
        while i < self.buf.len()
            invariant
                i <= self.buf@.len(),
                res@.len() == i,
                forall|k: int| 0 <= k < i ==> (#[trigger] res@[k])@ == render_row(self.grid()[k]),
            decreases self.buf@.len() - i,
        {
            let line = render_line(&self.buf[i]);
            assert(self.grid()[i as int] == self.buf@[i as int]@);
            res.push(line);
            i += 1;
        }
        res
    }
}

/// The rows, among the first `n`, that look different in the two grids.
pub open spec fn changed_rows(f: Seq<Seq<Tile>>, b: Seq<Seq<Tile>>, n: nat) -> Seq<usize>
    decreases n,
{
    if n == 0 {
        Seq::empty()
    } else {
        let rest = changed_rows(f, b, (n - 1) as nat);
        if render_row(f[n - 1]) != render_row(b[n - 1]) {
            rest.push((n - 1) as usize)
        } else {
            rest
        }
    }
}

/// What must be sent to the terminal to turn the shown frame into the next.
pub struct PresentPlan {
    /// `None`: the size changed and everything is redrawn; otherwise the
    /// rows to redraw, in order.
    pub lines: Option<Vec<usize>>,
    /// Whether the terminal cursor is to be set again.
    pub write_cursor: bool,
}

/// The frame on the terminal (`front`) and the one being drawn (`back`).
#[derive(Debug)]
pub struct DoubleBuffer {
    pub front: Term,
    pub back: Term,
}

impl DoubleBuffer {
    /// Two blank frames of the given size.
    pub fn new(height: usize, width: usize) -> (d: DoubleBuffer)
        ensures
            d.front.wf(),
            d.back.wf(),
            d.front.height == height && d.front.width == width,
            d.back.height == height && d.back.width == width,
            d.back.cursor == CursorState::Hide,
    {
        DoubleBuffer { front: Term::new(height, width), back: Term::new(height, width) }
    }

    /// A view into the frame being drawn.
    pub fn view(&mut self, orig: (usize, usize), height: usize, width: usize) -> (v: TermView)
        requires
            orig.0 + height <= old(self).back.height,
            orig.1 + width <= old(self).back.width,
        ensures
            *final(self) == *old(self),
            v == (TermView {
                orig,
                height,
                width,
                bg: None,
                cursor: Cursor { row: orig.0, col: orig.1 },
            }),
            v.fits(final(self).back.height as nat, final(self).back.width as nat),
    {
        self.back.view(orig, height, width)
    }

    /// Forgets the size of the shown frame, so that the next frame is
    /// drawn in full.
    pub fn redraw(&mut self)
        ensures
            final(self).front.height == 0,
            final(self).front.width == 0,
            final(self).front.buf == old(self).front.buf,
            final(self).front.cursor == old(self).front.cursor,
            final(self).back == old(self).back,
    {
        self.front.height = 0;
        self.front.width = 0;
    }

    /// Which rows to send: all of them when the size changed, otherwise
    /// those whose rendering differs; and whether to move the cursor.
    pub fn present_plan(&self) -> (p: PresentPlan)
        ensures
            (p.lines is None) == (self.front.height != self.back.height || self.front.width
                != self.back.width),
            p.lines matches Some(v) ==> v@ == changed_rows(
                self.front.grid(),
                self.back.grid(),
                if self.front.buf@.len() <= self.back.buf@.len() {
                    self.front.buf@.len()
                } else {
                    self.back.buf@.len()
                },
            ),
            p.write_cursor == (match p.lines {
                None => true,
                Some(v) => v@.len() > 0 || self.front.cursor != self.back.cursor,
            }),
    {
        if self.front.height != self.back.height || self.front.width != self.back.width {
            return PresentPlan { lines: None, write_cursor: true };
        }
        let f = self.front.render();
        let b = self.back.render();
        let n = if f.len() <= b.len() {
            f.len()
        } else {
            b.len()
        };
        let mut lines: Vec<usize> = Vec::new();
        let mut i: usize = 0;
        while i < n
            invariant
                i <= n,
                n <= f@.len(),
                n <= b@.len(),
                f@.len() == self.front.buf@.len(),
                b@.len() == self.back.buf@.len(),
                forall|k: int| 0 <= k < f@.len() ==> (#[trigger] f@[k])@ == render_row(self.front.grid()[k]),
                forall|k: int| 0 <= k < b@.len() ==> (#[trigger] b@[k])@ == render_row(self.back.grid()[k]),
                lines@ == changed_rows(self.front.grid(), self.back.grid(), i as nat),
            decreases n - i,
        {
            let same = lines_equal(&f[i], &b[i]);
            assert(f@[i as int]@ == render_row(self.front.grid()[i as int]));
            assert(b@[i as int]@ == render_row(self.back.grid()[i as int]));
            if !same {
                lines.push(i);
            }
            i += 1;
        }
        let write_cursor = lines.len() > 0 || self.front.cursor != self.back.cursor;
        PresentPlan { lines: Some(lines), write_cursor }
    }

    /// After the frame was sent: it becomes the shown frame, and a blank one
    /// of the terminal's current size is drawn next.
    pub fn swap(&mut self, height: usize, width: usize)
        ensures
            final(self).front == old(self).back,
            final(self).back.wf(),
            final(self).back.height == height,
            final(self).back.width == width,
            final(self).back.cursor == CursorState::Hide,
            forall|i: int, j: int|
                0 <= i < height && 0 <= j < width ==> #[trigger] final(self).back.grid()[i][j]
                    == Tile::Char(' ', default_style(), None),
    {
        let mut fresh = Term::new(height, width);
        std::mem::swap(&mut self.back, &mut fresh);
        self.front = fresh;
    }
}


impl TermView {
    /// Writes each character of `s` with `put`.
    pub fn puts_chars(&mut self, term: &mut Term, s: &Vec<char>, style: CharStyle)
        requires
            old(term).wf(),
            old(self).fits(old(term).height as nat, old(term).width as nat),
        ensures
            final(term).wf(),
            final(term).height == old(term).height,
            final(term).width == old(term).width,
            final(term).cursor == old(term).cursor,
            final(self).fits(final(term).height as nat, final(term).width as nat),
            (*final(self), final(term).grid()) == puts_model(*old(self), old(term).grid(), s@, style),
    {
        let len = s.len();
        assert(s@.subrange(0, len as int) =~= s@);
        let mut i: usize = 0;
        while i < len
            invariant
                len == s@.len(),
                i <= len,
                term.wf(),
                term.height == old(term).height,
                term.width == old(term).width,
                term.cursor == old(term).cursor,
                self.fits(term.height as nat, term.width as nat),
                puts_model(*old(self), old(term).grid(), s@, style) == puts_model(
                    *self,
                    term.grid(),
                    s@.subrange(i as int, len as int),
                    style,
                ),
            decreases len - i,
        {
            let c = s[i];
            assert(s@.subrange(i as int, len as int).drop_first() =~= s@.subrange(i + 1, len as int));
            self.put(term, c, style, None);
            i += 1;
        }
        assert(s@.subrange(len as int, len as int) =~= Seq::<char>::empty());
    }
}

/// `n` spaces.
pub open spec fn spaces(n: nat) -> Seq<char> {
    Seq::new(n, |i: int| ' ')
}

/// The index of the first diagnostic on `line`.
pub open spec fn first_output_on(outs: Seq<CompilerOutput>, line: usize) -> Option<int> {
    if exists|i: int| 0 <= i < outs.len() && (#[trigger] outs[i]).line == line {
        Some(
            choose|i: int|
                0 <= i < outs.len() && (#[trigger] outs[i]).line == line && forall|j: int|
                    0 <= j < i ==> (#[trigger] outs[j]).line != line,
        )
    } else {
        None
    }
}

/// The number column of a line: its number (from 1), padded with spaces
/// to the column's width; where a diagnostic is on the line, the last cell
/// shows the first letter of its level.
pub open spec fn linenum_model(
    v: TermView,
    g: Seq<Seq<Tile>>,
    linenum: usize,
    width: usize,
    outs: Seq<CompilerOutput>,
) -> (TermView, Seq<Seq<Tile>>) {
    let digits = decimal((linenum + 1) as nat);
    let w = digits.len();
    match first_output_on(outs, linenum) {
        Some(i) => {
            let pad = if width >= w + 1 { (width - w - 1) as nat } else { 0 };
            let r = puts_model(v, g, digits + spaces(pad), ui_style());
            let c = outs[i].level@[0];
            let r2 = put_model(r.0, r.1, c, highlight_style(), None, crate::char_width::draw_width(c));
            (r2.0, r2.1)
        },
        None => {
            let pad = if width >= w { (width - w) as nat } else { 0 };
            puts_model(v, g, digits + spaces(pad), ui_style())
        },
    }
}

/// Writing `c` in a view with a number column `width` cells wide: where `c`
/// does not fit on the line, a new line is begun first, its number column
/// left blank.
pub open spec fn linenum_put_model(
    v: TermView,
    g: Seq<Seq<Tile>>,
    width: usize,
    c: char,
    style: CharStyle,
    pos: Option<Cursor>,
) -> (TermView, Seq<Seq<Tile>>, Option<Cursor>) {
    let wrapped = if v.cause_newline_spec(crate::char_width::draw_width(c)) {
        let n = newline_model(v, g);
        puts_model(n.0, n.1, spaces(width as nat), ui_style())
    } else {
        (v, g)
    };
    put_model(wrapped.0, wrapped.1, c, style, pos, crate::char_width::draw_width(c))
}

/// A view with a column of line numbers on its left.
pub struct LinenumView<'a> {
    pub view: TermView,
    pub current_linenum: usize,
    pub width: usize,
    pub rustc_outputs: &'a [CompilerOutput],
}

fn space_chars(n: usize) -> (v: Vec<char>)
    ensures
        v@ == spaces(n as nat),
{
    let mut v: Vec<char> = Vec::new();
    let mut i: usize = 0;
    while i < n
        invariant
            i <= n,
            v@ =~= spaces(i as nat),
        decreases n - i,
    {
        v.push(' ');
        i += 1;
    }
    v
}

/// The index of the first diagnostic on `line`, if there is one.
pub fn find_output(outs: &[CompilerOutput], line: usize) -> (r: Option<usize>)
    ensures
        r matches Some(i) ==> i < outs@.len() && first_output_on(outs@, line) == Some(i as int),
        r is None ==> first_output_on(outs@, line) is None,
{
    let mut i: usize = 0;
    while i < outs.len()
        invariant
            i <= outs@.len(),
            forall|j: int| 0 <= j < i ==> (#[trigger] outs@[j]).line != line,
        decreases outs@.len() - i,
    {
        if outs[i].line == line {
            let ghost k = i as int;
            assert(outs@[k].line == line);
            let ghost c = choose|m: int|
                0 <= m < outs@.len() && (#[trigger] outs@[m]).line == line && forall|j: int|
                    0 <= j < m ==> (#[trigger] outs@[j]).line != line;
            assert(c == k) by {
                if c < k {
                    assert(outs@[c].line != line);
                }
                if c > k {
                    assert(outs@[k].line != line);
                }
            }
            return Some(i);
        }
        i += 1;
    }
    None
}

impl<'a> LinenumView<'a> {
    /// The view fits the screen, the next line number can still be written,
    /// and every diagnostic has a level to show.
    pub open spec fn wf(&self, term: &Term) -> bool {
        &&& term.wf()
        &&& self.view.fits(term.height as nat, term.width as nat)
        &&& self.current_linenum < usize::MAX
        &&& forall|i: int| 0 <= i < self.rustc_outputs@.len() ==> (#[trigger] self.rustc_outputs@[i]).level@.len() > 0
    }

    /// Width of the number column for numbers up to `max_linenum + 1`: the
    /// digits and two cells of margin.
    pub fn prefix_width(max_linenum: usize) -> (w: usize)
        requires
            max_linenum < usize::MAX,
        ensures
            w == decimal((max_linenum + 1) as nat).len() + 2,
    {
        let digits = decimal_chars(max_linenum + 1);
        proof {
            lemma_decimal_len_usize((max_linenum + 1) as usize);
        }
        digits.len() + 2
    }

    fn put_linenum(&mut self, term: &mut Term)
        requires
            old(self).wf(old(term)),
        ensures
            final(self).wf(final(term)),
            final(term).height == old(term).height,
            final(term).width == old(term).width,
            final(term).cursor == old(term).cursor,
            final(self).current_linenum == old(self).current_linenum,
            final(self).width == old(self).width,
            final(self).rustc_outputs == old(self).rustc_outputs,
            (final(self).view, final(term).grid()) == linenum_model(
                old(self).view,
                old(term).grid(),
                old(self).current_linenum,
                old(self).width,
                old(self).rustc_outputs@,
            ),
    {
        let mut s = decimal_chars(self.current_linenum + 1);
        let w = s.len();
        match find_output(self.rustc_outputs, self.current_linenum) {
            Some(i) => {
                let pad = if self.width > w {
                    self.width - w - 1
                } else {
                    0
                };
                let mut sp = space_chars(pad);
                s.append(&mut sp);
                self.view.puts_chars(term, &s, styles::ui());
                let level = self.rustc_outputs[i].level.as_str();
                assert(self.rustc_outputs@[i as int].level@.len() > 0);
                let c = level.get_char(0);
                self.view.put(term, c, styles::highlight(), None);
            },
            None => {
                let pad = if self.width >= w {
                    self.width - w
                } else {
                    0
                };
                let mut sp = space_chars(pad);
                s.append(&mut sp);
                self.view.puts_chars(term, &s, styles::ui());
            },
        }
    }

    /// A view numbering its lines from `current_linenum + 1`, its number
    /// column wide enough for `max_linenum + 1`; the first number is
    /// written at once.
    pub fn new(
        current_linenum: usize,
        max_linenum: usize,
        rustc_outputs: &'a [CompilerOutput],
        view: TermView,
        term: &mut Term,
    ) -> (res: Self)
        requires
            old(term).wf(),
            view.fits(old(term).height as nat, old(term).width as nat),
            current_linenum < usize::MAX,
            max_linenum < usize::MAX,
            forall|i: int| 0 <= i < rustc_outputs@.len() ==> (#[trigger] rustc_outputs@[i]).level@.len() > 0,
        ensures
            res.wf(final(term)),
            final(term).height == old(term).height,
            final(term).width == old(term).width,
            final(term).cursor == old(term).cursor,
            res.current_linenum == current_linenum,
            res.width == decimal((max_linenum + 1) as nat).len() + 2,
            res.rustc_outputs == rustc_outputs,
            (res.view, final(term).grid()) == linenum_model(
                view,
                old(term).grid(),
                current_linenum,
                res.width,
                rustc_outputs@,
            ),
    {
        let width = Self::prefix_width(max_linenum);
        let mut res = LinenumView { view, width, current_linenum, rustc_outputs };
        res.put_linenum(term);
        res
    }

    /// The cursor of the view, unless the view is full.
    pub fn cursor(&self) -> (r: Option<Cursor>)
        requires
            self.view.fits(usize::MAX as nat, usize::MAX as nat),
        ensures
            r == (if self.view.is_out_spec() { None } else { Some(self.view.cursor) }),
    {
        if !self.view.is_out() {
            Some(self.view.cursor)
        } else {
            None
        }
    }

    /// Whether `c` would have to go on the next line.
    pub fn cause_newline(&self, c: char) -> (b: bool)
        requires
            self.view.fits(usize::MAX as nat, usize::MAX as nat),
        ensures
            b == self.view.cause_newline_spec(crate::char_width::draw_width(c)),
    {
        self.view.cause_newline(c)
    }

    fn put_space(&mut self, term: &mut Term)
        requires
            old(self).wf(old(term)),
        ensures
            final(self).wf(final(term)),
            final(term).height == old(term).height,
            final(term).width == old(term).width,
            final(term).cursor == old(term).cursor,
            final(self).current_linenum == old(self).current_linenum,
            final(self).width == old(self).width,
            final(self).rustc_outputs == old(self).rustc_outputs,
            (final(self).view, final(term).grid()) == puts_model(
                old(self).view,
                old(term).grid(),
                spaces(old(self).width as nat),
                ui_style(),
            ),
    {
        let sp = space_chars(self.width);
        self.view.puts_chars(term, &sp, styles::ui());
    }

    /// Writes `c`; where it does not fit on the line, a new line is begun
    /// first, left blank in the number column (a wrapped line).
    pub fn put(&mut self, term: &mut Term, c: char, style: CharStyle, pos: Option<Cursor>) -> (r: Option<Cursor>)
        requires
            old(self).wf(old(term)),
        ensures
            final(self).wf(final(term)),
            final(term).height == old(term).height,
            final(term).width == old(term).width,
            final(term).cursor == old(term).cursor,
            final(self).current_linenum == old(self).current_linenum,
            final(self).width == old(self).width,
            final(self).rustc_outputs == old(self).rustc_outputs,
            (final(self).view, final(term).grid(), r) == linenum_put_model(
                old(self).view,
                old(term).grid(),
                old(self).width,
                c,
                style,
                pos,
            ),
    {
        if self.view.cause_newline(c) {
            self.view.newline(term);
            self.put_space(term);
        }
        self.view.put(term, c, style, pos)
    }

    /// Goes to the next line and writes its number.
    pub fn newline(&mut self, term: &mut Term)
        requires
            old(self).wf(old(term)),
            old(self).current_linenum + 1 < usize::MAX,
        ensures
            final(self).wf(final(term)),
            final(term).height == old(term).height,
            final(term).width == old(term).width,
            final(term).cursor == old(term).cursor,
            final(self).current_linenum == old(self).current_linenum + 1,
            final(self).width == old(self).width,
            final(self).rustc_outputs == old(self).rustc_outputs,
            ({
                let n = newline_model(old(self).view, old(term).grid());
                (final(self).view, final(term).grid()) == linenum_model(
                    n.0,
                    n.1,
                    (old(self).current_linenum + 1) as usize,
                    old(self).width,
                    old(self).rustc_outputs@,
                )
            }),
    {
        self.current_linenum = self.current_linenum + 1;
        self.view.newline(term);
        self.put_linenum(term);
    }
}


proof fn lemma_changed_rows_same(f: Seq<Seq<Tile>>, b: Seq<Seq<Tile>>, n: nat)
    requires
        forall|i: int| 0 <= i < n ==> f[i] == b[i],
    ensures
        changed_rows(f, b, n).len() == 0,
    decreases n,
{
    if n > 0 {
        lemma_changed_rows_same(f, b, (n - 1) as nat);
    }
}

/// Two frames with the same cells need no row sent again.
pub proof fn law_same_frames_nothing_to_redraw(front: Term, back: Term)
    requires
        front.grid() == back.grid(),
    ensures
        changed_rows(front.grid(), back.grid(), front.buf@.len()).len() == 0,
{
    lemma_changed_rows_same(front.grid(), back.grid(), front.buf@.len());
}

proof fn lemma_blank_row_renders_empty(row: Seq<Tile>)
    requires
        forall|j: int| 0 <= j < row.len() ==> row[j] == Tile::Char(' ', default_style(), None),
    ensures
        row_chars(row) == Seq::new(row.len(), |j: int| (' ', default_style())),
        render_row(row).len() == 0,
    decreases row.len(),
{
    if row.len() > 0 {
        lemma_blank_row_renders_empty(row.drop_last());
        assert(row_chars(row) =~= Seq::new(row.len(), |j: int| (' ', default_style())));
    }
    lemma_trim_blanks(row.len());
}

proof fn lemma_trim_blanks(n: nat)
    ensures
        trim_blank(Seq::new(n, |j: int| (' ', default_style()))).len() == 0,
    decreases n,
{
    let s = Seq::new(n, |j: int| (' ', default_style()));
    if n > 0 {
        assert(s.drop_last() =~= Seq::new((n - 1) as nat, |j: int| (' ', default_style())));
        lemma_trim_blanks((n - 1) as nat);
    }
}

/// A new screen shows nothing: every row renders empty.
pub proof fn law_new_screen_is_blank(t: Term)
    requires
        t.wf(),
        forall|i: int, j: int|
            0 <= i < t.height && 0 <= j < t.width ==> #[trigger] t.grid()[i][j] == Tile::Char(
                ' ',
                default_style(),
                None,
            ),
    ensures
        forall|i: int| 0 <= i < t.height ==> render_row(#[trigger] t.grid()[i]).len() == 0,
{
    assert forall|i: int| 0 <= i < t.height implies render_row(#[trigger] t.grid()[i]).len() == 0 by {
        assert(t.grid()[i].len() == t.width);
        lemma_blank_row_renders_empty(t.grid()[i]);
    }
}


/// The cells that writing `n` cells from `(row, col)` up to `limit` leaves
/// alone: every other row, and on `row` the columns before `col`, from
/// `col + n` on, and from `limit` on.
proof fn lemma_fill_frame(g: Seq<Seq<Tile>>, h: nat, w: nat, row: int, col: int, limit: int, first: Tile, n: nat)
    requires
        grid_shape(g, h, w),
        0 <= row < h,
        0 <= col,
        limit <= w,
    ensures
        grid_shape(fill_model(g, row, col, limit, first, n), h, w),
        forall|r: int, k: int|
            0 <= r < h && 0 <= k < w && (r != row || k < col || k >= col + n || k >= limit) ==> #[trigger] fill_model(
                g,
                row,
                col,
                limit,
                first,
                n,
            )[r][k] == g[r][k],
    decreases n,
{
    lemma_fill_shape(g, h, w, row, col, limit, first, n);
    if n == 0 || col >= limit {
    } else {
        let g1 = set_cell(g, row, col, first);
        lemma_set_cell_shape(g, h, w, row, col, first);
        lemma_fill_frame(g1, h, w, row, col + 1, limit, Tile::Empty, (n - 1) as nat);
        assert forall|r: int, k: int|
            0 <= r < h && 0 <= k < w && (r != row || k < col || k >= col + n || k >= limit) implies #[trigger] fill_model(
                g,
                row,
                col,
                limit,
                first,
                n,
            )[r][k] == g[r][k] by {
            assert(fill_model(g, row, col, limit, first, n) == fill_model(g1, row, col + 1, limit, Tile::Empty, (n - 1) as nat));
            if r != row {
                assert(g1[r] == g[r]);
            } else {
                assert(g1[r][k] == g[r][k]);
            }
        }
    }
}

/// Writing a character narrower than the view changes only cells inside
/// the view, never in its last column, and gives `None` exactly where the
/// view is full before the write or after going to the next line for it.
pub proof fn law_put_stays_in_view(
    v: TermView,
    g: Seq<Seq<Tile>>,
    c: char,
    style: CharStyle,
    pos: Option<Cursor>,
    w: nat,
    height: nat,
    width: nat,
)
    requires
        grid_shape(g, height, width),
        height <= usize::MAX,
        v.fits(height, width),
        w < v.width,
    ensures
        ({
            let r = put_model(v, g, c, style, pos, w);
            &&& grid_shape(r.1, height, width)
            &&& forall|i: int, k: int|
                0 <= i < height && 0 <= k < width && !(v.orig.0 <= i < v.orig.0 + v.height && v.orig.1 <= k
                    < v.orig.1 + v.width - 1) ==> #[trigger] r.1[i][k] == g[i][k]
            &&& (r.2 is None <==> (v.is_out_spec() || (w > 0 && v.cursor.col + w >= v.limit_col()
                && newline_model(v, g).0.is_out_spec())))
        }),
{
    let r = put_model(v, g, c, style, pos, w);
    if v.is_out_spec() || w == 0 {
    } else {
        let vg = if v.cursor.col + w >= v.limit_col() {
            newline_model(v, g)
        } else {
            (v, g)
        };
        let v1 = vg.0;
        let g1 = vg.1;
        // The newline paints at most the cell under the cursor, before the
        // last column.
        assert(grid_shape(g1, height, width) && forall|i: int, k: int|
            0 <= i < height && 0 <= k < width && !(v.orig.0 <= i < v.orig.0 + v.height && v.orig.1 <= k
                < v.orig.1 + v.width - 1) ==> #[trigger] g1[i][k] == g[i][k]) by {
            if v.cursor.col + w >= v.limit_col() {
                match v.bg {
                    Some(bg) => if v.cursor.col + 1 < v.limit_col() {
                        let t = Tile::Char(
                            ' ',
                            CharStyle { fg: Color::Reset, bg, modification: CharModification::Default },
                            None,
                        );
                        lemma_set_cell_shape(g, height, width, v.cursor.row as int, v.cursor.col as int, t);
                        assert forall|i: int, k: int|
                            0 <= i < height && 0 <= k < width && !(v.orig.0 <= i < v.orig.0 + v.height && v.orig.1
                                <= k < v.orig.1 + v.width - 1) implies #[trigger] g1[i][k] == g[i][k] by {
                            if i != v.cursor.row {
                                assert(g1[i] == g[i]);
                            }
                        }
                    },
                    None => {},
                }
            }
        }
        if !v1.is_out_spec() {
            let col = v1.cursor.col as int;
            assert(col + w < v1.limit_col());
            lemma_fill_frame(g1, height, width, v1.cursor.row as int, col, v1.limit_col(), Tile::Char(c, style, pos), w);
            let g2 = r.1;
            assert forall|i: int, k: int|
                0 <= i < height && 0 <= k < width && !(v.orig.0 <= i < v.orig.0 + v.height && v.orig.1 <= k
                    < v.orig.1 + v.width - 1) implies #[trigger] g2[i][k] == g[i][k] by {
                assert(v1.orig == v.orig && v1.height == v.height && v1.width == v.width);
                assert(v.orig.0 <= v1.cursor.row < v.orig.0 + v.height);
                assert(v.orig.1 <= col);
                assert(i != v1.cursor.row || k < col || k >= col + w || k >= v1.limit_col());
                assert(g2[i][k] == g1[i][k]);
            }
        }
    }
}

} // verus!
