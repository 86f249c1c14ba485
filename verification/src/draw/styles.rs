//! The fixed styles of the editor's screen.
use vstd::prelude::*;

use super::char_style::{CharModification, CharStyle, Color};

verus! {

/// The style of plain text.
pub open spec fn default_style() -> CharStyle {
    CharStyle {
        fg: Color::Rgb { r: 255, g: 255, b: 255 },
        bg: Color::Reset,
        modification: CharModification::Default,
    }
}

pub fn default() -> (s: CharStyle)
    ensures
        s == default_style(),
{
    CharStyle {
        fg: Color::Rgb { r: 255, g: 255, b: 255 },
        bg: Color::Reset,
        modification: CharModification::Default,
    }
}

/// A marked character.
pub open spec fn highlight_style() -> CharStyle {
    CharStyle {
        fg: Color::Rgb { r: 255, g: 0, b: 0 },
        bg: Color::Rgb { r: 0, g: 0, b: 0 },
        modification: CharModification::Default,
    }
}

pub fn highlight() -> (s: CharStyle)
    ensures
        s == highlight_style(),
{
    CharStyle {
        fg: Color::Rgb { r: 255, g: 0, b: 0 },
        bg: Color::Rgb { r: 0, g: 0, b: 0 },
        modification: CharModification::Default,
    }
}

/// Line numbers and other decoration.
pub open spec fn ui_style() -> CharStyle {
    CharStyle {
        fg: Color::Rgb { r: 128, g: 128, b: 128 },
        bg: Color::Reset,
        modification: CharModification::Default,
    }
}

pub fn ui() -> (s: CharStyle)
    ensures
        s == ui_style(),
{
    CharStyle {
        fg: Color::Rgb { r: 128, g: 128, b: 128 },
        bg: Color::Reset,
        modification: CharModification::Default,
    }
}

/// The status line.
pub open spec fn footer_style() -> CharStyle {
    CharStyle {
        fg: Color::Rgb { r: 64, g: 64, b: 64 },
        bg: Color::Rgb { r: 200, g: 200, b: 200 },
        modification: CharModification::Default,
    }
}

pub fn footer() -> (s: CharStyle)
    ensures
        s == footer_style(),
{
    CharStyle {
        fg: Color::Rgb { r: 64, g: 64, b: 64 },
        bg: Color::Rgb { r: 200, g: 200, b: 200 },
        modification: CharModification::Default,
    }
}

/// A warning in the status line.
pub open spec fn footer_highlight_style() -> CharStyle {
    CharStyle {
        fg: Color::Rgb { r: 215, g: 32, b: 32 },
        bg: Color::Rgb { r: 200, g: 200, b: 200 },
        modification: CharModification::Default,
    }
}

pub fn footer_highlight() -> (s: CharStyle)
    ensures
        s == footer_highlight_style(),
{
    CharStyle {
        fg: Color::Rgb { r: 215, g: 32, b: 32 },
        bg: Color::Rgb { r: 200, g: 200, b: 200 },
        modification: CharModification::Default,
    }
}

/// A note in the status line.
pub open spec fn footer_blue_style() -> CharStyle {
    CharStyle {
        fg: Color::Rgb { r: 65, g: 105, b: 225 },
        bg: Color::Rgb { r: 200, g: 200, b: 200 },
        modification: CharModification::Default,
    }
}

pub fn footer_blue() -> (s: CharStyle)
    ensures
        s == footer_blue_style(),
{
    CharStyle {
        fg: Color::Rgb { r: 65, g: 105, b: 225 },
        bg: Color::Rgb { r: 200, g: 200, b: 200 },
        modification: CharModification::Default,
    }
}

/// Selected text.
pub open spec fn selected_style() -> CharStyle {
    CharStyle {
        fg: Color::Rgb { r: 200, g: 200, b: 200 },
        bg: Color::Rgb { r: 0, g: 0, b: 0 },
        modification: CharModification::Default,
    }
}

pub fn selected() -> (s: CharStyle)
    ensures
        s == selected_style(),
{
    CharStyle {
        fg: Color::Rgb { r: 200, g: 200, b: 200 },
        bg: Color::Rgb { r: 0, g: 0, b: 0 },
        modification: CharModification::Default,
    }
}

/// The bar of tabs.
pub open spec fn tab_bar_style() -> CharStyle {
    CharStyle {
        fg: Color::Rgb { r: 238, g: 238, b: 238 },
        bg: Color::Rgb { r: 65, g: 105, b: 225 },
        modification: CharModification::Default,
    }
}

pub fn tab_bar() -> (s: CharStyle)
    ensures
        s == tab_bar_style(),
{
    CharStyle {
        fg: Color::Rgb { r: 238, g: 238, b: 238 },
        bg: Color::Rgb { r: 65, g: 105, b: 225 },
        modification: CharModification::Default,
    }
}

} // verus!
