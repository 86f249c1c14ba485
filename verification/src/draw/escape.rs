//! The escape sequences that set colours, underlining and the cursor on the
//! terminal, as `termion` writes them.
use vstd::prelude::*;

use termion::color::{AnsiValue, Bg, Fg, Reset, Rgb};

use crate::draw::char_style::{CharModification, CharStyle, DiffStyle, StyleChange, StyleWithColorType, TermColor};
use crate::draw::styles::default_style;
use crate::draw::cursor::{CursorShape, CursorState};
use crate::numfmt::decimal;

verus! {

/// The control sequence introducer followed by `s`.
pub open spec fn csi(s: Seq<char>) -> Seq<char> {
    seq!['\x1b', '['] + s
}

/// The sequence that sets the foreground (`layer` 38) or background
/// (`layer` 48) colour; a reset is 39 or 49.
pub open spec fn color_escape_spec(c: TermColor, layer: nat) -> Seq<char> {
    match c {
        TermColor::Rgb(r, g, b) => csi(
            decimal(layer) + ";2;"@ + decimal(r as nat) + ";"@ + decimal(g as nat) + ";"@ + decimal(b as nat)
                + "m"@,
        ),
        TermColor::Ansi(i) => csi(decimal(layer) + ";5;"@ + decimal(i as nat) + "m"@),
        TermColor::Reset => csi(decimal(layer + 1) + "m"@),
    }
}

/// Formats `termion::color::Fg` of the colour. Its `Display` writes
/// `ESC [ 38;2;r;g;b m` for a true colour, `ESC [ 38;5;i m` for a palette
/// index and `ESC [ 39m` for the default, the numbers in decimal.
#[verifier::external_body]
fn fg_escape(c: TermColor) -> (s: String)
    ensures
        s@ == color_escape_spec(c, 38),
{
    match c {
        TermColor::Rgb(r, g, b) => format!("{}", Fg(Rgb(r, g, b))),
        TermColor::Ansi(i) => format!("{}", Fg(AnsiValue(i))),
        TermColor::Reset => format!("{}", Fg(Reset)),
    }
}

/// Formats `termion::color::Bg` of the colour. Its `Display` writes
/// `ESC [ 48;2;r;g;b m` for a true colour, `ESC [ 48;5;i m` for a palette
/// index and `ESC [ 49m` for the default, the numbers in decimal.
#[verifier::external_body]
fn bg_escape(c: TermColor) -> (s: String)
    ensures
        s@ == color_escape_spec(c, 48),
{
    match c {
        TermColor::Rgb(r, g, b) => format!("{}", Bg(Rgb(r, g, b))),
        TermColor::Ansi(i) => format!("{}", Bg(AnsiValue(i))),
        TermColor::Reset => format!("{}", Bg(Reset)),
    }
}

/// The sequence that turns underlining on or off.
pub open spec fn modification_escape_spec(m: CharModification) -> Seq<char> {
    match m {
        CharModification::UnderLine => csi("4m"@),
        CharModification::Default => csi("24m"@),
    }
}

/// The sequence that turns underlining on or off, as termion's `Underline`
/// and `NoUnderline` write it.
fn modification_escape(m: CharModification) -> (s: String)
    ensures
        s@ == modification_escape_spec(m),
{
    let s = match m {
        CharModification::UnderLine => String::from_str("\x1b[4m"),
        CharModification::Default => String::from_str("\x1b[24m"),
    };
    proof {
        reveal_strlit("\x1b[4m");
        reveal_strlit("\x1b[24m");
        reveal_strlit("4m");
        reveal_strlit("24m");
        assert(s@ =~= modification_escape_spec(m));
    }
    s
}

/// The sequence that moves the cursor to column `x` and line `y` (from 1).
pub open spec fn goto_escape_spec(x: u16, y: u16) -> Seq<char> {
    csi(decimal(y as nat) + ";"@ + decimal(x as nat) + "H"@)
}

/// Formats `termion::cursor::Goto(x, y)`, whose `Display` writes
/// `ESC [ y;x H` (and, in a debug build, asserts that the position is not
/// `(0, 0)`, which `requires` leaves out).
#[verifier::external_body]
fn goto_escape(x: u16, y: u16) -> (s: String)
    requires
        x != 0 || y != 0,
    ensures
        s@ == goto_escape_spec(x, y),
{
    format!("{}", termion::cursor::Goto(x, y))
}

/// The sequence that shows or hides the cursor, as termion's `Show` and
/// `Hide` write it.
fn visibility_escape(show: bool) -> (s: String)
    ensures
        s@ == csi(if show {
            "?25h"@
        } else {
            "?25l"@
        }),
{
    let s = if show {
        String::from_str("\x1b[?25h")
    } else {
        String::from_str("\x1b[?25l")
    };
    proof {
        reveal_strlit("\x1b[?25h");
        reveal_strlit("\x1b[?25l");
        reveal_strlit("?25h");
        reveal_strlit("?25l");
        assert(s@ =~= csi(if show { "?25h"@ } else { "?25l"@ }));
    }
    s
}

impl CursorShape {
    /// The sequence that gives the terminal's cursor this shape: a block,
    /// a bar, or an underline.
    pub open spec fn escape_spec(self) -> Seq<char> {
        match self {
            CursorShape::Block => csi("0 q"@),
            CursorShape::Bar => csi("6 q"@),
            CursorShape::Underline => csi("4 q"@),
        }
    }

    pub fn escape(&self) -> (s: String)
        ensures
            s@ == self.escape_spec(),
    {
        let s = match self {
            CursorShape::Block => String::from_str("\x1b[0 q"),
            CursorShape::Bar => String::from_str("\x1b[6 q"),
            CursorShape::Underline => String::from_str("\x1b[4 q"),
        };
        proof {
            reveal_strlit("\x1b[0 q");
            reveal_strlit("\x1b[6 q");
            reveal_strlit("\x1b[4 q");
            reveal_strlit("0 q");
            reveal_strlit("6 q");
            reveal_strlit("4 q");
            assert(s@ =~= self.escape_spec());
        }
        s
    }
}

impl CursorState {
    /// What shows the cursor: moving it there (counted from 1), its shape,
    /// and showing it; or hiding it.
    pub open spec fn escape_spec(self) -> Seq<char> {
        match self {
            CursorState::Show(c, shape) => goto_escape_spec((c.col + 1) as u16, (c.row + 1) as u16)
                + shape.escape_spec() + csi("?25h"@),
            CursorState::Hide => csi("?25l"@),
        }
    }

    pub fn escape(&self) -> (s: String)
        requires
            self matches CursorState::Show(c, _) ==> c.col < u16::MAX && c.row < u16::MAX,
        ensures
            s@ == self.escape_spec(),
    {
        match self {
            CursorState::Show(c, shape) => {
                let mut s = goto_escape((c.col + 1) as u16, (c.row + 1) as u16);
                s.append(shape.escape().as_str());
                s.append(visibility_escape(true).as_str());
                s
            },
            CursorState::Hide => visibility_escape(false),
        }
    }
}

impl StyleChange {
    /// The sequences that make the changes: foreground, background, then
    /// underlining, each when it changes.
    pub open spec fn escape_spec(self) -> Seq<char> {
        (match self.fg {
            Some(c) => color_escape_spec(c, 38),
            None => Seq::empty(),
        }) + (match self.bg {
            Some(c) => color_escape_spec(c, 48),
            None => Seq::empty(),
        }) + (match self.modification {
            Some(m) => modification_escape_spec(m),
            None => Seq::empty(),
        })
    }

    pub fn escape(&self) -> (s: String)
        ensures
            s@ == self.escape_spec(),
    {
        let mut s = String::new();
        if let Some(c) = self.fg {
            s.append(fg_escape(c).as_str());
        }
        if let Some(c) = self.bg {
            s.append(bg_escape(c).as_str());
        }
        if let Some(m) = self.modification {
            s.append(modification_escape(m).as_str());
        }
        proof {
            assert(s@ =~= self.escape_spec());
        }
        s
    }
}


/// Every part of `style`, as a terminal of the given depth is told it.
pub open spec fn full_change(style: CharStyle, is_ansi_color: bool) -> StyleChange {
    StyleChange {
        fg: Some(style.fg.for_terminal_spec(is_ansi_color)),
        bg: Some(style.bg.for_terminal_spec(is_ansi_color)),
        modification: Some(style.modification),
    }
}

/// The parts of `to` that differ from `from`.
pub open spec fn diff_change(from: CharStyle, to: CharStyle, is_ansi_color: bool) -> StyleChange {
    StyleChange {
        fg: if from.fg != to.fg {
            Some(to.fg.for_terminal_spec(is_ansi_color))
        } else {
            None
        },
        bg: if from.bg != to.bg {
            Some(to.bg.for_terminal_spec(is_ansi_color))
        } else {
            None
        },
        modification: if from.modification != to.modification {
            Some(to.modification)
        } else {
            None
        },
    }
}

/// The cells of a row written out from the style `current` on: before
/// each char, the sequences for what its style changes.
pub open spec fn cells_escape(row: Seq<(char, CharStyle)>, current: CharStyle, is_ansi_color: bool) -> Seq<char>
    decreases row.len(),
{
    if row.len() == 0 {
        Seq::empty()
    } else {
        diff_change(current, row[0].1, is_ansi_color).escape_spec() + seq![row[0].0] + cells_escape(
            row.drop_first(),
            row[0].1,
            is_ansi_color,
        )
    }
}

/// A rendered row as sent to the terminal: every part of the default style
/// set, then its cells.
pub open spec fn row_escape_spec(row: Seq<(char, CharStyle)>, is_ansi_color: bool) -> Seq<char> {
    full_change(default_style(), is_ansi_color).escape_spec() + cells_escape(row, default_style(), is_ansi_color)
}

/// The text that sends a rendered row to the terminal.
pub fn row_escape(row: &Vec<(char, CharStyle)>, is_ansi_color: bool) -> (s: String)
    ensures
        s@ == row_escape_spec(row@, is_ansi_color),
{
    let default = crate::draw::styles::default();
    let full = StyleWithColorType { is_ansi_color, style: default }.changes();
    let mut s = full.escape();
    let ghost head = s@;
    let mut current = default;
    let n = row.len();
    let mut i: usize = 0;
    assert(row@.skip(0) =~= row@);
    while i < n
        invariant
            n == row@.len(),
            i <= n,
            s@ + cells_escape(row@.skip(i as int), current, is_ansi_color) == row_escape_spec(row@, is_ansi_color),
        decreases n - i,
    {
        let (c, st) = row[i];
        let diff = DiffStyle { is_ansi_color, from: current, to: st }.changes();
        let e = diff.escape();
        let ghost before = s@;
        s.append(e.as_str());
        crate::strings::string_push(&mut s, c);
        proof {
            let r = row@.skip(i as int);
            assert(r[0] == (c, st));
            assert(r.drop_first() =~= row@.skip(i + 1));
            assert(diff == diff_change(current, st, is_ansi_color));
            assert(s@ =~= before + e@ + seq![c]);
            assert(before + cells_escape(r, current, is_ansi_color) =~= s@ + cells_escape(row@.skip(i + 1), st, is_ansi_color));
        }
        current = st;
        i += 1;
    }
    assert(row@.skip(n as int) =~= Seq::<(char, CharStyle)>::empty());
    assert(s@ =~= s@ + cells_escape(row@.skip(n as int), current, is_ansi_color));
    s
}

} // verus!
