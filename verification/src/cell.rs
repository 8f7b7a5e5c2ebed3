//! Styled character cells: the unit of the grid and of every rendered run.

use vstd::prelude::*;

verus! {

/// A foreground colour, restricted to what the renderer actually emits:
/// the terminal default, one of the 256 palette entries, or a true colour.
#[derive(Clone, Copy, PartialEq, Eq, Structural, Debug)]
pub enum Color {
    Default,
    Palette(u8),
    Rgb(u8, u8, u8),
}

/// The visual attributes of one cell: a foreground colour and the two
/// emphasis flags the compositor uses.
#[derive(Clone, Copy, PartialEq, Eq, Structural, Debug)]
pub struct Style {
    pub fg: Color,
    pub bold: bool,
    pub italic: bool,
}

impl Style {
    /// The terminal's default appearance.
    pub fn plain() -> (r: Style)
        ensures
            r == Style::plain_spec(),
    {
        Style { fg: Color::Default, bold: false, italic: false }
    }

    pub open spec fn plain_spec() -> Style {
        Style { fg: Color::Default, bold: false, italic: false }
    }

    /// A plain style with the given foreground colour.
    pub fn fg(color: Color) -> (r: Style)
        ensures
            r == Style::fg_spec(color),
    {
        Style { fg: color, bold: false, italic: false }
    }

    pub open spec fn fg_spec(color: Color) -> Style {
        Style { fg: color, bold: false, italic: false }
    }
}

impl Default for Style {
    fn default() -> (r: Style)
        ensures
            r == Style::plain_spec(),
    {
        Style::plain()
    }
}

/// One grid position: a single-column glyph together with its style.
#[derive(Clone, Copy, PartialEq, Eq, Structural, Debug)]
pub struct Cell {
    pub ch: char,
    pub style: Style,
}

impl Cell {
    pub fn new(ch: char, style: Style) -> (r: Cell)
        ensures
            r == (Cell { ch, style }),
    {
        Cell { ch, style }
    }

    /// The cell every cleared position holds: a plain space.
    pub fn blank() -> (r: Cell)
        ensures
            r == Cell::blank_spec(),
    {
        Cell { ch: ' ', style: Style::plain() }
    }

    pub open spec fn blank_spec() -> Cell {
        Cell { ch: ' ', style: Style::plain_spec() }
    }

    /// The sentinel written into the committed grid by `invalidate`: it is
    /// unequal to every cell the compositor produces (no layer emits a NUL
    /// glyph), so the next diff repaints every position.
    pub fn sentinel() -> (r: Cell)
        ensures
            r == Cell::sentinel_spec(),
    {
        Cell { ch: '\u{0}', style: Style::plain() }
    }

    pub open spec fn sentinel_spec() -> Cell {
        Cell { ch: '\u{0}', style: Style::plain_spec() }
    }
}

} // verus!
