//! The unit of display state.

use vstd::prelude::*;

verus! {

/// One character position: a background colour, a foreground colour and the
/// character shown. The colours are red, green and blue, in this order.
///
/// A cell is a plain value. Two cells are equal exactly when the three fields
/// are equal.
#[derive(Clone, Copy, Debug)]
pub struct Cell {
    pub bg: (u8, u8, u8),
    pub fg: (u8, u8, u8),
    pub symbol: char,
}

impl Cell {
    /// The cell with everything black and a space as its character.
    pub open spec fn blank() -> Cell {
        Cell { bg: (0u8, 0u8, 0u8), fg: (0u8, 0u8, 0u8), symbol: ' ' }
    }

    /// This cell with another character.
    pub open spec fn with_symbol(self, chr: char) -> Cell {
        Cell { bg: self.bg, fg: self.fg, symbol: chr }
    }

    /// Create a new cell by listing all the fields necessary.
    pub fn new(bgr: u8, bgg: u8, bgb: u8, fgr: u8, fgg: u8, fgb: u8, symbol: char) -> (cell: Cell)
        ensures
            cell == (Cell { bg: (bgr, bgg, bgb), fg: (fgr, fgg, fgb), symbol }),
    {
        Cell { bg: (bgr, bgg, bgb), fg: (fgr, fgg, fgb), symbol }
    }

    /// Create a cell only with the background values: the foreground is
    /// black and the character a space.
    pub fn bg(r: u8, g: u8, b: u8) -> (cell: Cell)
        ensures
            cell == (Cell { bg: (r, g, b), fg: (0u8, 0u8, 0u8), symbol: ' ' }),
    {
        Cell { bg: (r, g, b), fg: (0, 0, 0), symbol: ' ' }
    }

    /// Create a new cell from another one by changing only the symbol.
    pub fn change_symbol(&self, chr: char) -> (cell: Cell)
        ensures
            cell == self.with_symbol(chr),
    {
        Cell { bg: self.bg, fg: self.fg, symbol: chr }
    }
}

impl PartialEq for Cell {
    fn eq(&self, other: &Cell) -> (equal: bool) {
        self.bg.0 == other.bg.0 && self.bg.1 == other.bg.1 && self.bg.2 == other.bg.2
            && self.fg.0 == other.fg.0 && self.fg.1 == other.fg.1 && self.fg.2 == other.fg.2
            && self.symbol == other.symbol
    }
}

impl vstd::std_specs::cmp::PartialEqSpecImpl for Cell {
    open spec fn obeys_eq_spec() -> bool {
        true
    }

    open spec fn eq_spec(&self, other: &Cell) -> bool {
        self.bg.0 == other.bg.0 && self.bg.1 == other.bg.1 && self.bg.2 == other.bg.2
            && self.fg.0 == other.fg.0 && self.fg.1 == other.fg.1 && self.fg.2 == other.fg.2
            && self.symbol == other.symbol
    }
}

impl Eq for Cell {}

impl Default for Cell {
    fn default() -> (cell: Cell)
        ensures
            cell == Cell::blank(),
    {
        Cell { bg: (0, 0, 0), fg: (0, 0, 0), symbol: ' ' }
    }
}

/// Equality of cells is equality of their fields: cells built from the same
/// colours and character are equal, and a difference in any one field makes
/// two cells different.
pub proof fn lemma_cell_equality(a: Cell, b: Cell)
    ensures
        a == b <==> (a.bg == b.bg && a.fg == b.fg && a.symbol == b.symbol),
        a.bg != b.bg ==> a != b,
        a.fg != b.fg ==> a != b,
        a.symbol != b.symbol ==> a != b,
{
}

} // verus!
