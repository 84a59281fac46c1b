//! Rectangles in cell coordinates.

use vstd::prelude::*;

verus! {

/// An axis-aligned rectangle of cells: the column and row of its top-left cell,
/// and its size. A rectangle with no width or no height is empty.
#[derive(Debug, Clone, Copy, PartialEq, Eq, Hash, Structural)]
pub struct Rect {
    pub x: u16,
    pub y: u16,
    pub width: u16,
    pub height: u16,
}

/// The smaller of two integers.
pub open spec fn min_int(a: int, b: int) -> int {
    if a <= b {
        a
    } else {
        b
    }
}

/// The larger of two integers.
pub open spec fn max_int(a: int, b: int) -> int {
    if a >= b {
        a
    } else {
        b
    }
}

impl Rect {
    /// A rectangle is well formed when its far edges fit the coordinate type.
    pub open spec fn wf(self) -> bool {
        &&& self.x + self.width <= u16::MAX
        &&& self.y + self.height <= u16::MAX
    }

    /// The column just past the last column of the rectangle.
    pub open spec fn spec_right(self) -> int {
        self.x + self.width
    }

    /// The row just past the last row of the rectangle.
    pub open spec fn spec_bottom(self) -> int {
        self.y + self.height
    }

    /// The number of cells.
    pub open spec fn spec_area(self) -> int {
        self.width * self.height
    }

    /// Whether the rectangle has no cell.
    pub open spec fn spec_is_empty(self) -> bool {
        self.width == 0 || self.height == 0
    }

    /// Whether the cell at column `x`, row `y` lies in the rectangle.
    pub open spec fn spec_contains(self, x: int, y: int) -> bool {
        &&& self.x <= x < self.x + self.width
        &&& self.y <= y < self.y + self.height
    }

    /// Whether every cell of the rectangle lies in `outer`.
    pub open spec fn within(self, outer: Rect) -> bool {
        forall|x: int, y: int| self.spec_contains(x, y) ==> outer.spec_contains(x, y)
    }

    /// Whether the two rectangles have no cell in common.
    pub open spec fn disjoint(self, other: Rect) -> bool {
        forall|x: int, y: int| !(self.spec_contains(x, y) && other.spec_contains(x, y))
    }

    /// The rectangle left when `horizontal` columns are taken off at the left and
    /// at the right, and `vertical` rows at the top and at the bottom. An axis
    /// too short for both margins is left with no extent.
    pub open spec fn spec_inner(self, horizontal: u16, vertical: u16) -> Rect {
        Rect {
            x: (self.x + min_int(horizontal as int, self.width as int)) as u16,
            y: (self.y + min_int(vertical as int, self.height as int)) as u16,
            width: max_int(0, self.width - 2 * horizontal) as u16,
            height: max_int(0, self.height - 2 * vertical) as u16,
        }
    }

    /// Makes a rectangle at `x`, `y`. A size that would pass the end of the
    /// coordinate range is cut there.
    pub fn new(x: u16, y: u16, width: u16, height: u16) -> (r: Rect)
        ensures
            r.wf(),
            r.x == x,
            r.y == y,
            r.width == min_int(width as int, u16::MAX - x),
            r.height == min_int(height as int, u16::MAX - y),
    {
        let max_width: u16 = u16::MAX - x;
        let max_height: u16 = u16::MAX - y;
        Rect {
            x,
            y,
            width: if width <= max_width { width } else { max_width },
            height: if height <= max_height { height } else { max_height },
        }
    }

    /// The number of cells.
    pub fn area(self) -> (a: u32)
        ensures
            a == self.spec_area(),
    {
        assert(self.width * self.height <= 0xffff * 0xffff) by (nonlinear_arith)
            requires
                self.width <= 0xffff,
                self.height <= 0xffff,
        ;
        (self.width as u32) * (self.height as u32)
    }

    /// Whether the rectangle has no cell.
    pub fn is_empty(self) -> (b: bool)
        ensures
            b == self.spec_is_empty(),
    {
        self.width == 0 || self.height == 0
    }

    /// The first column.
    pub fn left(self) -> (x: u16)
        ensures
            x == self.x,
    {
        self.x
    }

    /// The column just past the last one.
    pub fn right(self) -> (x: u16)
        requires
            self.wf(),
        ensures
            x == self.spec_right(),
    {
        self.x + self.width
    }

    /// The first row.
    pub fn top(self) -> (y: u16)
        ensures
            y == self.y,
    {
        self.y
    }

    /// The row just past the last one.
    pub fn bottom(self) -> (y: u16)
        requires
            self.wf(),
        ensures
            y == self.spec_bottom(),
    {
        self.y + self.height
    }

    /// Whether the cell at column `x`, row `y` lies in the rectangle.
    pub fn contains(self, x: u16, y: u16) -> (b: bool)
        requires
            self.wf(),
        ensures
            b == self.spec_contains(x as int, y as int),
    {
        x >= self.x && x < self.x + self.width && y >= self.y && y < self.y + self.height
    }

    /// The cells that lie in both rectangles. Where they share none, the result
    /// is empty.
    pub fn intersection(self, other: Rect) -> (r: Rect)
        requires
            self.wf(),
            other.wf(),
        ensures
            r.wf(),
            r.x == max_int(self.x as int, other.x as int),
            r.y == max_int(self.y as int, other.y as int),
            r.width == max_int(0, min_int(self.spec_right(), other.spec_right()) - r.x),
            r.height == max_int(0, min_int(self.spec_bottom(), other.spec_bottom()) - r.y),
            forall|x: int, y: int|
                r.spec_contains(x, y) <==> self.spec_contains(x, y) && other.spec_contains(x, y),
    {
        let x1: u16 = if self.x >= other.x { self.x } else { other.x };
        let y1: u16 = if self.y >= other.y { self.y } else { other.y };
        let right_a: u16 = self.x + self.width;
        let right_b: u16 = other.x + other.width;
        let bottom_a: u16 = self.y + self.height;
        let bottom_b: u16 = other.y + other.height;
        let x2: u16 = if right_a <= right_b { right_a } else { right_b };
        let y2: u16 = if bottom_a <= bottom_b { bottom_a } else { bottom_b };
        Rect {
            x: x1,
            y: y1,
            width: if x2 >= x1 { x2 - x1 } else { 0 },
            height: if y2 >= y1 { y2 - y1 } else { 0 },
        }
    }

    /// Whether the two rectangles share a cell.
    pub fn intersects(self, other: Rect) -> (b: bool)
        requires
            self.wf(),
            other.wf(),
        ensures
            b == !self.disjoint(other),
    {
        let b = self.width > 0 && self.height > 0 && other.width > 0 && other.height > 0
            && self.x < other.x + other.width && other.x < self.x + self.width
            && self.y < other.y + other.height && other.y < self.y + self.height;
        proof {
            if b {
                let x = max_int(self.x as int, other.x as int);
                let y = max_int(self.y as int, other.y as int);
                assert(self.spec_contains(x, y) && other.spec_contains(x, y));
            }
        }
        b
    }

    /// The smallest rectangle that holds both.
    pub fn union(self, other: Rect) -> (r: Rect)
        requires
            self.wf(),
            other.wf(),
        ensures
            r.wf(),
            r.x == min_int(self.x as int, other.x as int),
            r.y == min_int(self.y as int, other.y as int),
            r.spec_right() == max_int(self.spec_right(), other.spec_right()),
            r.spec_bottom() == max_int(self.spec_bottom(), other.spec_bottom()),
            self.within(r),
            other.within(r),
    {
        let x1: u16 = if self.x <= other.x { self.x } else { other.x };
        let y1: u16 = if self.y <= other.y { self.y } else { other.y };
        let right_a: u16 = self.x + self.width;
        let right_b: u16 = other.x + other.width;
        let bottom_a: u16 = self.y + self.height;
        let bottom_b: u16 = other.y + other.height;
        let x2: u16 = if right_a >= right_b { right_a } else { right_b };
        let y2: u16 = if bottom_a >= bottom_b { bottom_a } else { bottom_b };
        Rect { x: x1, y: y1, width: x2 - x1, height: y2 - y1 }
    }

    /// The rectangle left when `horizontal` columns are taken off at the left and
    /// at the right, and `vertical` rows at the top and at the bottom. An axis
    /// too short for both margins is left with no extent.
    pub fn inner(self, horizontal: u16, vertical: u16) -> (r: Rect)
        requires
            self.wf(),
        ensures
            r == self.spec_inner(horizontal, vertical),
            r.wf(),
            r.within(self),
            r.x == self.x + min_int(horizontal as int, self.width as int),
            r.y == self.y + min_int(vertical as int, self.height as int),
            r.width == max_int(0, self.width - 2 * horizontal),
            r.height == max_int(0, self.height - 2 * vertical),
    {
        let dx: u16 = if horizontal <= self.width { horizontal } else { self.width };
        let dy: u16 = if vertical <= self.height { vertical } else { self.height };
        let width: u16 = if self.width - dx >= horizontal {
            self.width - dx - horizontal
        } else {
            0
        };
        let height: u16 = if self.height - dy >= vertical {
            self.height - dy - vertical
        } else {
            0
        };
        Rect { x: self.x + dx, y: self.y + dy, width, height }
    }
}

impl Default for Rect {
    /// The empty rectangle at the origin.
    fn default() -> (r: Rect)
        ensures
            r == (Rect { x: 0, y: 0, width: 0, height: 0 }),
    {
        Rect { x: 0, y: 0, width: 0, height: 0 }
    }
}

} // verus!
