//! The buffer: a dense grid of cells over a rectangle.

use vstd::prelude::*;
use crate::buffer::cell::{blank, continuation, Cell, CellView};
use crate::layout::rect::Rect;
use crate::style::{merged, Style};

verus! {

/// A grid of cells over `area`, kept row by row: first all cells of the top row
/// from left to right, then those of the row below it, and so on.
#[derive(Debug)]
pub struct Buffer {
    pub area: Rect,
    pub content: Vec<Cell>,
}

/// The place in a grid kept row by row of the cell at column `x`, row `y`.
pub open spec fn index_in(area: Rect, x: int, y: int) -> int {
    (y - area.y) * area.width + (x - area.x)
}

/// The place of a cell of `area` lies in the grid, and comes after the places of
/// all cells above it or to its left in the same row, before all others.
pub proof fn lemma_index_in_bounds(area: Rect, x: int, y: int)
    requires
        area.spec_contains(x, y),
    ensures
        0 <= index_in(area, x, y) < area.width * area.height,
        (y - area.y) * area.width <= index_in(area, x, y) < (y - area.y + 1) * area.width,
{
    let row = y - area.y;
    let w = area.width as int;
    let h = area.height as int;
    assert(0 <= row * w && (row + 1) * w <= h * w && (row + 1) * w == row * w + w)
        by (nonlinear_arith)
        requires
            0 <= row < h,
            0 <= w,
    ;
    assert(h * w == w * h) by (nonlinear_arith);
}

/// Two cells of `area` have the same place only where they are the same cell.
pub proof fn lemma_index_in_distinct(area: Rect, x1: int, y1: int, x2: int, y2: int)
    requires
        area.spec_contains(x1, y1),
        area.spec_contains(x2, y2),
        index_in(area, x1, y1) == index_in(area, x2, y2),
    ensures
        x1 == x2,
        y1 == y2,
{
    let w = area.width as int;
    let r1 = y1 - area.y;
    let r2 = y2 - area.y;
    lemma_index_in_bounds(area, x1, y1);
    lemma_index_in_bounds(area, x2, y2);
    if r1 < r2 {
        assert((r1 + 1) * w <= r2 * w) by (nonlinear_arith)
            requires
                r1 + 1 <= r2,
                0 <= w,
        ;
    } else if r2 < r1 {
        assert((r2 + 1) * w <= r1 * w) by (nonlinear_arith)
            requires
                r2 + 1 <= r1,
                0 <= w,
        ;
    }
}

impl Buffer {
    /// A buffer is well formed when its area is, and it holds one cell for each
    /// position of the area.
    pub open spec fn wf(&self) -> bool {
        &&& self.area.wf()
        &&& self.content@.len() == self.area.width * self.area.height
    }

    /// What the cells hold, row by row.
    pub open spec fn cells(&self) -> Seq<CellView> {
        Seq::new(self.content@.len(), |i: int| self.content@[i]@)
    }

    /// What the cell at column `x`, row `y` holds.
    pub open spec fn cell_at(&self, x: int, y: int) -> CellView {
        self.content@[index_in(self.area, x, y)]@
    }

    /// A buffer over `area` in which every cell holds what `cell` holds.
    pub fn filled(area: Rect, cell: &Cell) -> (buffer: Buffer)
        requires
            area.wf(),
        ensures
            buffer.wf(),
            buffer.area == area,
            forall|i: int|
                0 <= i < buffer.content@.len() ==> (#[trigger] buffer.content@[i])@ == cell@,
            forall|x: int, y: int|
                area.spec_contains(x, y) ==> #[trigger] buffer.cell_at(x, y) == cell@,
    {
        assert(area.width * area.height <= 0xffff * 0xffff) by (nonlinear_arith)
            requires
                area.width <= 0xffff,
                area.height <= 0xffff,
        ;
        let n: usize = (area.width as usize) * (area.height as usize);
        let mut content: Vec<Cell> = Vec::new();
        let mut i: usize = 0;
        while i < n
            invariant
                0 <= i <= n,
                content@.len() == i,
                forall|j: int| 0 <= j < i ==> (#[trigger] content@[j])@ == cell@,
            decreases n - i,
        {
            content.push(cell.clone());
            i = i + 1;
        }
        let buffer = Buffer { area, content };
        proof {
            assert forall|x: int, y: int| area.spec_contains(x, y)
                implies #[trigger] buffer.cell_at(x, y) == cell@ by {
                lemma_index_in_bounds(area, x, y);
            }
        }
        buffer
    }

    /// A buffer over `area` in which every cell is blank.
    pub fn empty(area: Rect) -> (buffer: Buffer)
        requires
            area.wf(),
        ensures
            buffer.wf(),
            buffer.area == area,
            forall|i: int|
                0 <= i < buffer.content@.len() ==> (#[trigger] buffer.content@[i])@ == blank(),
            forall|x: int, y: int|
                area.spec_contains(x, y) ==> #[trigger] buffer.cell_at(x, y) == blank(),
    {
        let cell = Cell::default();
        Buffer::filled(area, &cell)
    }

    /// The area of the buffer.
    pub fn area(&self) -> (area: Rect)
        ensures
            area == self.area,
    {
        self.area
    }

    /// The place in `content` of the cell at column `x`, row `y`.
    pub fn index_of(&self, x: u16, y: u16) -> (i: usize)
        requires
            self.wf(),
            self.area.spec_contains(x as int, y as int),
        ensures
            i == index_in(self.area, x as int, y as int),
            i < self.content@.len(),
    {
        proof {
            lemma_index_in_bounds(self.area, x as int, y as int);
        }
        let row: usize = (y - self.area.y) as usize;
        let col: usize = (x - self.area.x) as usize;
        assert(row * self.area.width <= 0xffff * 0xffff) by (nonlinear_arith)
            requires
                row <= 0xffff,
                self.area.width <= 0xffff,
        ;
        row * (self.area.width as usize) + col
    }

    /// The column and the row of the cell at place `i` of `content`.
    pub fn pos_of(&self, i: usize) -> (pos: (u16, u16))
        requires
            self.wf(),
            i < self.content@.len(),
        ensures
            self.area.spec_contains(pos.0 as int, pos.1 as int),
            index_in(self.area, pos.0 as int, pos.1 as int) == i,
    {
        let width: usize = self.area.width as usize;
        assert(width > 0) by (nonlinear_arith)
            requires
                i < width * self.area.height,
        ;
        let row: usize = i / width;
        let col: usize = i % width;
        proof {
            vstd::arithmetic::div_mod::lemma_fundamental_div_mod(i as int, width as int);
            assert(row < self.area.height) by (nonlinear_arith)
                requires
                    i == width * row + col,
                    0 <= col,
                    i < width * self.area.height,
                    0 < width,
            ;
            assert(row * width == width * row) by (nonlinear_arith);
        }
        (self.area.x + col as u16, self.area.y + row as u16)
    }

    /// The cell at column `x`, row `y`. The position must lie in the area.
    pub fn get(&self, x: u16, y: u16) -> (cell: &Cell)
        requires
            self.wf(),
            self.area.spec_contains(x as int, y as int),
        ensures
            cell@ == self.cell_at(x as int, y as int),
    {
        let i = self.index_of(x, y);
        &self.content[i]
    }

    /// Writes `cell` at column `x`, row `y`. The position must lie in the area.
    /// No other cell changes.
    pub fn set(&mut self, x: u16, y: u16, cell: Cell)
        requires
            old(self).wf(),
            old(self).area.spec_contains(x as int, y as int),
        ensures
            final(self).wf(),
            final(self).area == old(self).area,
            final(self).cell_at(x as int, y as int) == cell@,
            final(self).cells() == old(self).cells().update(
                index_in(old(self).area, x as int, y as int),
                cell@,
            ),
            forall|x2: int, y2: int|
                old(self).area.spec_contains(x2, y2) && (x2 != x || y2 != y)
                    ==> #[trigger] final(self).cell_at(x2, y2) == old(self).cell_at(x2, y2),
    {
        let i = self.index_of(x, y);
        self.content.set(i, cell);
        proof {
            assert(self.cells() =~= old(self).cells().update(i as int, cell@));
            assert forall|x2: int, y2: int|
                old(self).area.spec_contains(x2, y2) && (x2 != x || y2 != y)
                implies #[trigger] self.cell_at(x2, y2) == old(self).cell_at(x2, y2) by {
                lemma_index_in_bounds(self.area, x2, y2);
                if index_in(self.area, x2, y2) == i {
                    lemma_index_in_distinct(self.area, x2, y2, x as int, y as int);
                }
            }
        }
    }

    /// Applies `style` over the style of the cell at column `x`, row `y`. Its
    /// grapheme stays, and so does every other cell. The position must lie in
    /// the area.
    pub fn merge_style(&mut self, x: u16, y: u16, style: Style)
        requires
            old(self).wf(),
            old(self).area.spec_contains(x as int, y as int),
        ensures
            final(self).wf(),
            final(self).area == old(self).area,
            final(self).cell_at(x as int, y as int) == (CellView {
                style: merged(old(self).cell_at(x as int, y as int).style, style),
                ..old(self).cell_at(x as int, y as int)
            }),
            forall|x2: int, y2: int|
                old(self).area.spec_contains(x2, y2) && (x2 != x || y2 != y)
                    ==> #[trigger] final(self).cell_at(x2, y2) == old(self).cell_at(x2, y2),
    {
        let mut cell = self.get(x, y).clone();
        cell.set_style(style);
        self.set(x, y, cell);
    }

    /// Writes a glyph that is two columns wide at column `x`, row `y`: the glyph
    /// there, and its continuation in the next column. Where the next column
    /// lies outside the area, the glyph would be cut in half: a space in the
    /// style of the glyph is written in its place. The position must lie in the
    /// area. No other cell changes.
    pub fn set_wide(&mut self, x: u16, y: u16, symbol: &str, style: Style)
        requires
            old(self).wf(),
            old(self).area.spec_contains(x as int, y as int),
        ensures
            final(self).wf(),
            final(self).area == old(self).area,
            old(self).area.spec_contains(x + 1, y as int) ==> {
                &&& final(self).cell_at(x as int, y as int) == (CellView {
                    symbol: symbol@,
                    style,
                    skip: false,
                })
                &&& final(self).cell_at(x + 1, y as int) == continuation(style)
            },
            !old(self).area.spec_contains(x + 1, y as int) ==> final(self).cell_at(
                x as int,
                y as int,
            ) == (CellView { symbol: " "@, style, skip: false }),
            forall|x2: int, y2: int|
                old(self).area.spec_contains(x2, y2) && (y2 != y || (x2 != x && !(x2 == x + 1)))
                    ==> #[trigger] final(self).cell_at(x2, y2) == old(self).cell_at(x2, y2),
    {
        if x - self.area.x < self.area.width - 1 {
            self.set(x, y, Cell::styled(symbol, style));
            self.set(x + 1, y, Cell::continuation(style));
        } else {
            self.set(x, y, Cell::styled(" ", style));
        }
    }

    /// Gives the buffer another area. A position that lies in the old area and
    /// in the new one keeps its cell; every other cell of the new area holds
    /// what `fill` holds.
    pub fn resize(&mut self, area: Rect, fill: &Cell)
        requires
            old(self).wf(),
            area.wf(),
        ensures
            final(self).wf(),
            final(self).area == area,
            forall|x: int, y: int|
                area.spec_contains(x, y) ==> #[trigger] final(self).cell_at(x, y) == if old(
                    self,
                ).area.spec_contains(x, y) {
                    old(self).cell_at(x, y)
                } else {
                    fill@
                },
    {
        let mut content: Vec<Cell> = Vec::new();
        let mut row: u16 = 0;
        while row < area.height
            invariant
                self.wf(),
                area.wf(),
                *self == *old(self),
                0 <= row <= area.height,
                content@.len() == row * area.width,
                forall|x: int, y: int|
                    area.spec_contains(x, y) && y < area.y + row ==> (#[trigger] content@[index_in(
                        area,
                        x,
                        y,
                    )])@ == if self.area.spec_contains(x, y) {
                        self.cell_at(x, y)
                    } else {
                        fill@
                    },
            decreases area.height - row,
        {
            let y: u16 = area.y + row;
            let mut col: u16 = 0;
            while col < area.width
                invariant
                    self.wf(),
                    area.wf(),
                    *self == *old(self),
                    0 <= row < area.height,
                    y == area.y + row,
                    0 <= col <= area.width,
                    content@.len() == row * area.width + col,
                    forall|x: int, y2: int|
                        area.spec_contains(x, y2) && (y2 < y || (y2 == y && x < area.x + col)) ==> (
                        #[trigger] content@[index_in(area, x, y2)])@ == if self.area.spec_contains(
                            x,
                            y2,
                        ) {
                            self.cell_at(x, y2)
                        } else {
                            fill@
                        },
                decreases area.width - col,
            {
                let x: u16 = area.x + col;
                let ghost before = content@;
                if self.area.contains(x, y) {
                    content.push(self.get(x, y).clone());
                } else {
                    content.push(fill.clone());
                }
                proof {
                    assert forall|x2: int, y2: int|
                        area.spec_contains(x2, y2) && (y2 < y || (y2 == y && x2 < area.x + col
                            + 1)) implies (#[trigger] content@[index_in(area, x2, y2)])@
                        == if self.area.spec_contains(x2, y2) {
                        self.cell_at(x2, y2)
                    } else {
                        fill@
                    } by {
                        lemma_index_in_bounds(area, x2, y2);
                        if y2 == y && x2 == x {
                        } else {
                            lemma_index_in_bounds(area, x as int, y as int);
                            if index_in(area, x2, y2) == before.len() {
                                lemma_index_in_distinct(area, x2, y2, x as int, y as int);
                            }
                            lemma_earlier_index(area, x2, y2, x as int, y as int);
                        }
                    }
                }
                col = col + 1;
            }
            proof {
                assert((row + 1) * area.width == row * area.width + area.width)
                    by (nonlinear_arith);
            }
            row = row + 1;
        }
        proof {
            assert(area.height * area.width == area.width * area.height) by (nonlinear_arith);
        }
        self.area = area;
        self.content = content;
    }
}

/// A cell above another, or to its left in the same row, has the earlier place.
pub proof fn lemma_earlier_index(area: Rect, x1: int, y1: int, x2: int, y2: int)
    requires
        area.spec_contains(x1, y1),
        area.spec_contains(x2, y2),
        y1 < y2 || (y1 == y2 && x1 < x2),
    ensures
        index_in(area, x1, y1) < index_in(area, x2, y2),
{
    lemma_index_in_bounds(area, x1, y1);
    lemma_index_in_bounds(area, x2, y2);
    let w = area.width as int;
    let r1 = y1 - area.y;
    let r2 = y2 - area.y;
    if r1 < r2 {
        assert((r1 + 1) * w <= r2 * w) by (nonlinear_arith)
            requires
                r1 + 1 <= r2,
                0 <= w,
        ;
    }
}

impl Clone for Buffer {
    fn clone(&self) -> (buffer: Buffer)
        ensures
            buffer.area == self.area,
            buffer.cells() == self.cells(),
            self.wf() ==> buffer.wf(),
    {
        let n = self.content.len();
        let mut content: Vec<Cell> = Vec::new();
        let mut i: usize = 0;
        while i < n
            invariant
                n == self.content@.len(),
                0 <= i <= n,
                content@.len() == i,
                forall|j: int| 0 <= j < i ==> (#[trigger] content@[j])@ == self.content@[j]@,
            decreases n - i,
        {
            content.push(self.content[i].clone());
            i = i + 1;
        }
        let buffer = Buffer { area: self.area, content };
        proof {
            assert(buffer.cells() =~= self.cells());
        }
        buffer
    }
}

} // verus!
