//! Colours and character styles of the terminal grid.
use vstd::prelude::*;

verus! {

/// A colour: a true-colour value or the terminal's own default.
#[derive(Debug, Clone, Copy, PartialEq, Eq, Structural)]
pub enum Color {
    Rgb { r: u8, g: u8, b: u8 },
    Reset,
}

impl Default for Color {
    fn default() -> (c: Self)
        ensures
            c == Color::Reset,
    {
        Color::Reset
    }
}

/// What a colour becomes on a terminal: a true colour, an index into the
/// 256-colour palette, or the default.
#[derive(Debug, Clone, Copy, PartialEq, Eq, Structural)]
pub enum TermColor {
    Rgb(u8, u8, u8),
    Ansi(u8),
    Reset,
}

/// The palette index that `ansi_colours` picks for an sRGB colour.
pub uninterp spec fn ansi256_of(r: u8, g: u8, b: u8) -> u8;

/// Calls `ansi_colours::ansi256_from_rgb` on the triple `(r, g, b)`: the
/// index of the 256-colour palette entry that approximates the colour.
/// The contract names the result; it depends on the three components alone.
#[verifier::external_body]
fn ansi256_from_rgb(r: u8, g: u8, b: u8) -> (i: u8)
    ensures
        i == ansi256_of(r, g, b),
{
    ansi_colours::ansi256_from_rgb((r, g, b))
}

impl Color {
    /// The colour as written to a true-colour terminal.
    pub fn to_true_color(self) -> (t: TermColor)
        ensures
            t == (match self {
                Color::Rgb { r, g, b } => TermColor::Rgb(r, g, b),
                Color::Reset => TermColor::Reset,
            }),
    {
        match self {
            Color::Rgb { r, g, b } => TermColor::Rgb(r, g, b),
            Color::Reset => TermColor::Reset,
        }
    }

    /// The colour as written to a 256-colour terminal.
    pub fn to_ansi(self) -> (t: TermColor)
        ensures
            t == (match self {
                Color::Rgb { r, g, b } => TermColor::Ansi(ansi256_of(r, g, b)),
                Color::Reset => TermColor::Reset,
            }),
    {
        match self {
            Color::Rgb { r, g, b } => TermColor::Ansi(ansi256_from_rgb(r, g, b)),
            Color::Reset => TermColor::Reset,
        }
    }

    /// The colour for a terminal that does or does not take true colour.
    pub fn for_terminal(self, is_ansi_color: bool) -> (t: TermColor)
        ensures
            t == (if is_ansi_color {
                match self {
                    Color::Rgb { r, g, b } => TermColor::Ansi(ansi256_of(r, g, b)),
                    Color::Reset => TermColor::Reset,
                }
            } else {
                match self {
                    Color::Rgb { r, g, b } => TermColor::Rgb(r, g, b),
                    Color::Reset => TermColor::Reset,
                }
            }),
    {
        if is_ansi_color {
            self.to_ansi()
        } else {
            self.to_true_color()
        }
    }
}

/// Underlined or not.
#[derive(Debug, Clone, Copy, PartialEq, Eq, Structural)]
pub enum CharModification {
    Default,
    UnderLine,
}

impl Default for CharModification {
    fn default() -> (m: Self)
        ensures
            m == CharModification::Default,
    {
        CharModification::Default
    }
}

/// Foreground, background and modification of one character cell.
#[derive(Debug, Clone, Copy, PartialEq, Eq, Structural)]
pub struct CharStyle {
    pub fg: Color,
    pub bg: Color,
    pub modification: CharModification,
}

impl CharStyle {
    /// A style with this foreground and defaults elsewhere.
    pub fn fg(fg: Color) -> (s: Self)
        ensures
            s == (CharStyle { fg, bg: Color::Reset, modification: CharModification::Default }),
    {
        CharStyle { fg, bg: Color::default(), modification: CharModification::default() }
    }

    /// A style with this background and defaults elsewhere.
    pub fn bg(bg: Color) -> (s: Self)
        ensures
            s == (CharStyle { fg: Color::Reset, bg, modification: CharModification::Default }),
    {
        CharStyle { fg: Color::default(), bg, modification: CharModification::default() }
    }

    /// A style with both colours and no modification.
    pub fn fg_bg(fg: Color, bg: Color) -> (s: Self)
        ensures
            s == (CharStyle { fg, bg, modification: CharModification::Default }),
    {
        CharStyle { fg, bg, modification: CharModification::default() }
    }
}

/// A style to be written in full, for a terminal of the given colour depth.
#[derive(Debug, Clone, Copy, PartialEq, Eq, Structural)]
pub struct StyleWithColorType {
    pub is_ansi_color: bool,
    pub style: CharStyle,
}

/// What a terminal is told to set: the two colours and the modification.
#[derive(Debug, Clone, Copy, PartialEq, Eq, Structural)]
pub struct StyleChange {
    pub fg: Option<TermColor>,
    pub bg: Option<TermColor>,
    pub modification: Option<CharModification>,
}

impl StyleWithColorType {
    /// Every part of the style, to be set unconditionally.
    pub fn changes(&self) -> (c: StyleChange)
        ensures
            c.fg == Some(self.style.fg.for_terminal_spec(self.is_ansi_color)),
            c.bg == Some(self.style.bg.for_terminal_spec(self.is_ansi_color)),
            c.modification == Some(self.style.modification),
    {
        StyleChange {
            fg: Some(self.style.fg.for_terminal(self.is_ansi_color)),
            bg: Some(self.style.bg.for_terminal(self.is_ansi_color)),
            modification: Some(self.style.modification),
        }
    }
}

impl Color {
    /// The colour a terminal of the given depth is told to use.
    pub open spec fn for_terminal_spec(self, is_ansi_color: bool) -> TermColor {
        match self {
            Color::Rgb { r, g, b } => if is_ansi_color {
                TermColor::Ansi(ansi256_of(r, g, b))
            } else {
                TermColor::Rgb(r, g, b)
            },
            Color::Reset => TermColor::Reset,
        }
    }
}

/// The change from one style to the next, for a terminal of the given
/// colour depth.
#[derive(Debug, Clone, Copy, PartialEq, Eq, Structural)]
pub struct DiffStyle {
    pub is_ansi_color: bool,
    pub from: CharStyle,
    pub to: CharStyle,
}

impl DiffStyle {
    /// Only the parts of `to` that differ from `from`.
    pub fn changes(&self) -> (c: StyleChange)
        ensures
            c.fg == (if self.from.fg != self.to.fg {
                Some(self.to.fg.for_terminal_spec(self.is_ansi_color))
            } else {
                None
            }),
            c.bg == (if self.from.bg != self.to.bg {
                Some(self.to.bg.for_terminal_spec(self.is_ansi_color))
            } else {
                None
            }),
            c.modification == (if self.from.modification != self.to.modification {
                Some(self.to.modification)
            } else {
                None
            }),
    {
        let fg = if self.from.fg != self.to.fg {
            Some(self.to.fg.for_terminal(self.is_ansi_color))
        } else {
            None
        };
        let bg = if self.from.bg != self.to.bg {
            Some(self.to.bg.for_terminal(self.is_ansi_color))
        } else {
            None
        };
        let modification = if self.from.modification != self.to.modification {
            Some(self.to.modification)
        } else {
            None
        };
        StyleChange { fg, bg, modification }
    }
}

} // verus!
