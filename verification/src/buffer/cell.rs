//! One character position of the terminal.

use vstd::prelude::*;
use vstd::std_specs::cmp::PartialEqSpecImpl;
use crate::style::{merged, unset, Style};

verus! {

/// One character position: the grapheme shown there, its style, and whether the
/// position only continues the wide glyph to its left.
#[derive(Debug)]
pub struct Cell {
    /// The grapheme: mostly one character, sometimes a cluster of several code
    /// points. A continuation has none.
    pub symbol: String,
    pub style: Style,
    /// Set on the second column of a glyph that is two columns wide.
    pub skip: bool,
}

/// What a cell holds, the grapheme as the sequence of its characters.
pub struct CellView {
    pub symbol: Seq<char>,
    pub style: Style,
    pub skip: bool,
}

impl View for Cell {
    type V = CellView;

    open spec fn view(&self) -> CellView {
        CellView { symbol: self.symbol@, style: self.style, skip: self.skip }
    }
}

/// The blank cell: a space in the style that says nothing.
pub open spec fn blank() -> CellView {
    CellView { symbol: " "@, style: unset(), skip: false }
}

/// The second column of a wide glyph: no grapheme of its own, the style of the
/// glyph.
pub open spec fn continuation(style: Style) -> CellView {
    CellView { symbol: ""@, style, skip: true }
}

impl Cell {
    /// A cell that shows `symbol` in the style that says nothing.
    pub fn new(symbol: &str) -> (cell: Cell)
        ensures
            cell@ == (CellView { symbol: symbol@, style: unset(), skip: false }),
    {
        Cell { symbol: symbol.to_owned(), style: Style::new(), skip: false }
    }

    /// A cell that shows `symbol` in `style`.
    pub fn styled(symbol: &str, style: Style) -> (cell: Cell)
        ensures
            cell@ == (CellView { symbol: symbol@, style, skip: false }),
    {
        Cell { symbol: symbol.to_owned(), style, skip: false }
    }

    /// The cell that continues a wide glyph of style `style`.
    pub fn continuation(style: Style) -> (cell: Cell)
        ensures
            cell@ == continuation(style),
    {
        Cell { symbol: "".to_owned(), style, skip: true }
    }

    /// The grapheme of the cell.
    pub fn symbol(&self) -> (symbol: &str)
        ensures
            symbol@ == self@.symbol,
    {
        self.symbol.as_str()
    }

    /// Puts another grapheme into the cell.
    pub fn set_symbol(&mut self, symbol: &str)
        ensures
            final(self)@ == (CellView { symbol: symbol@, ..old(self)@ }),
    {
        self.symbol = symbol.to_owned();
    }

    /// Applies `style` over the style of the cell. The grapheme stays.
    pub fn set_style(&mut self, style: Style)
        ensures
            final(self)@ == (CellView { style: merged(old(self)@.style, style), ..old(self)@ }),
    {
        self.style = self.style.patch(style);
    }

    /// Makes the cell blank.
    pub fn reset(&mut self)
        ensures
            final(self)@ == blank(),
    {
        self.symbol = " ".to_owned();
        self.style = Style::new();
        self.skip = false;
    }
}

impl Default for Cell {
    /// The blank cell.
    fn default() -> (cell: Cell)
        ensures
            cell@ == blank(),
    {
        Cell { symbol: " ".to_owned(), style: Style::new(), skip: false }
    }
}

impl Clone for Cell {
    fn clone(&self) -> (cell: Cell)
        ensures
            cell@ == self@,
    {
        Cell { symbol: self.symbol.clone(), style: self.style, skip: self.skip }
    }
}

impl PartialEq for Cell {
    fn eq(&self, other: &Cell) -> (r: bool) {
        self.symbol == other.symbol && self.style == other.style && self.skip == other.skip
    }
}

impl PartialEqSpecImpl for Cell {
    open spec fn obeys_eq_spec() -> bool {
        true
    }

    open spec fn eq_spec(&self, other: &Cell) -> bool {
        self@ == other@
    }
}

impl Eq for Cell {

}

} // verus!
