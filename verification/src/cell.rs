//! One terminal character slot: a background color, a foreground color, a
//! text attribute and a single glyph.

use vstd::prelude::*;

verus! {

/// A terminal color. `Reset` stands for the terminal's default.
#[derive(Clone, Copy, Debug, PartialEq, Eq, Structural)]
pub enum Color {
    Reset,
    Black,
    DarkGrey,
    Red,
    DarkRed,
    Green,
    DarkGreen,
    Yellow,
    DarkYellow,
    Blue,
    DarkBlue,
    Magenta,
    DarkMagenta,
    Cyan,
    DarkCyan,
    White,
    Grey,
    Rgb { r: u8, g: u8, b: u8 },
    AnsiValue(u8),
}

/// A text attribute. `Reset` stands for plain text.
#[derive(Clone, Copy, Debug, PartialEq, Eq, Structural)]
pub enum Attribute {
    Reset,
    Bold,
    Dim,
    Italic,
    Underlined,
    Reverse,
    CrossedOut,
}

/// One character slot of a surface.
#[derive(Clone, Copy, Debug, PartialEq, Eq, Structural)]
pub struct Cell {
    pub bg: Color,
    pub fg: Color,
    pub attr: Attribute,
    pub symbol: char,
}

impl Cell {
    /// The cell a cleared surface is filled with: default styles over the
    /// given background color, holding a space.
    pub open spec fn blank(bg: Color) -> Cell {
        Cell { bg, fg: Color::Reset, attr: Attribute::Reset, symbol: ' ' }
    }

    pub fn new_blank(bg: Color) -> (c: Cell)
        ensures
            c == Cell::blank(bg),
    {
        Cell { bg, fg: Color::Reset, attr: Attribute::Reset, symbol: ' ' }
    }

    pub fn set_bg(&mut self, bg: Color)
        ensures
            *final(self) == (Cell { bg, ..*old(self) }),
    {
        self.bg = bg;
    }

    pub fn set_fg(&mut self, fg: Color)
        ensures
            *final(self) == (Cell { fg, ..*old(self) }),
    {
        self.fg = fg;
    }

    pub fn set_symbol(&mut self, sym: char)
        ensures
            *final(self) == (Cell { symbol: sym, ..*old(self) }),
    {
        self.symbol = sym;
    }

    pub fn set_attr(&mut self, attr: Attribute)
        ensures
            *final(self) == (Cell { attr, ..*old(self) }),
    {
        self.attr = attr;
    }

    /// Restores every component to its default.
    pub fn reset(&mut self)
        ensures
            *final(self) == Cell::blank(Color::Reset),
    {
        self.bg = Color::Reset;
        self.fg = Color::Reset;
        self.attr = Attribute::Reset;
        self.symbol = ' ';
    }
}

impl Default for Cell {
    fn default() -> (c: Self)
        ensures
            c == Cell::blank(Color::Reset),
    {
        Cell { bg: Color::Reset, fg: Color::Reset, attr: Attribute::Reset, symbol: ' ' }
    }
}

} // verus!
