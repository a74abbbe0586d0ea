use vstd::prelude::*;

verus! {

/// Terminal colour: the default colour, one of the 256 ANSI colours, or true colour.
#[derive(Debug, Clone, Copy, PartialEq, Eq, Structural)]
pub enum TermColor {
    Default,
    Basic(u8),
    Rgb(u8, u8, u8),
}

/// Style flags of a cell.
#[derive(Debug, Clone, Copy, PartialEq, Eq, Structural)]
pub struct CellStyle {
    pub bold: bool,
    pub italic: bool,
    pub underline: bool,
}

/// The style with no flag set.
pub open spec fn plain_style() -> CellStyle {
    CellStyle { bold: false, italic: false, underline: false }
}

impl CellStyle {
    pub fn plain() -> (s: Self)
        ensures
            s == plain_style(),
    {
        CellStyle { bold: false, italic: false, underline: false }
    }

    pub fn bold() -> (s: Self)
        ensures
            s == (CellStyle { bold: true, italic: false, underline: false }),
    {
        CellStyle { bold: true, italic: false, underline: false }
    }
}

impl Default for CellStyle {
    fn default() -> (s: Self)
        ensures
            s == plain_style(),
    {
        CellStyle::plain()
    }
}

/// One cell of the terminal grid.
#[derive(Debug, Clone, Copy, PartialEq, Eq, Structural)]
pub struct Cell {
    pub ch: char,
    pub fg: TermColor,
    pub bg: TermColor,
    pub style: CellStyle,
}

/// A cell holding `ch` in the default colours and plain style.
pub open spec fn cell_of(ch: char) -> Cell {
    Cell { ch, fg: TermColor::Default, bg: TermColor::Default, style: plain_style() }
}

/// The empty cell: a space in the default colours.
pub open spec fn blank_cell() -> Cell {
    cell_of(' ')
}

impl Cell {
    pub fn new(ch: char) -> (c: Self)
        ensures
            c == cell_of(ch),
    {
        Cell { ch, fg: TermColor::Default, bg: TermColor::Default, style: CellStyle::plain() }
    }

    pub fn blank() -> (c: Self)
        ensures
            c == blank_cell(),
    {
        Self::new(' ')
    }

    pub fn with_style(self, style: CellStyle) -> (c: Self)
        ensures
            c == (Cell { style, ..self }),
    {
        let mut c = self;
        c.style = style;
        c
    }

    pub fn with_fg(self, fg: TermColor) -> (c: Self)
        ensures
            c == (Cell { fg, ..self }),
    {
        let mut c = self;
        c.fg = fg;
        c
    }
}

} // verus!
