//! The layout solver: splits a rectangle along an axis into one segment for each
//! constraint.

use vstd::prelude::*;
use crate::layout::constraint::Constraint;
use crate::layout::rect::{max_int, Rect};
use crate::layout::resolve::{
    demand, lemma_covered_length, lemma_length_bounds, lemma_sum_bounds, resolve,
    resolved_lengths, sum_upto, takes_the_rest,
};

verus! {

/// The axis along which a rectangle is split.
#[derive(Debug, Clone, Copy, PartialEq, Eq, Hash, Structural)]
pub enum Direction {
    /// Segments lie side by side, from left to right.
    Horizontal,
    /// Segments lie one below the other, from top to bottom.
    Vertical,
}

/// The extent of a rectangle along the axis.
pub open spec fn extent(area: Rect, direction: Direction) -> int {
    match direction {
        Direction::Horizontal => area.width as int,
        Direction::Vertical => area.height as int,
    }
}

/// The length that a split of `area` has to lay out: its extent along the axis,
/// and nothing where the area has no cell.
pub open spec fn main_length(area: Rect, direction: Direction) -> int {
    if area.spec_is_empty() {
        0
    } else {
        extent(area, direction)
    }
}

/// What all the gaps take when every segment but the first has one before it.
pub open spec fn reserved_spacing(spacing: int, count: int) -> int {
    spacing * max_int(0, count - 1)
}

/// What is there to divide among `count` segments once room for the gaps between
/// them is set aside; nothing where the gaps alone do not fit.
pub open spec fn available_length(main: int, spacing: int, count: int) -> int {
    max_int(0, main - reserved_spacing(spacing, count))
}

/// How many of the first `k` lengths are above zero.
pub open spec fn nonempty_upto(lens: Seq<int>, k: int) -> int
    decreases k,
{
    if k <= 0 {
        0
    } else {
        nonempty_upto(lens, k - 1) + if lens[k - 1] > 0 {
            1int
        } else {
            0int
        }
    }
}

/// What the gaps between the first `k` segments take: one gap between each two
/// consecutive segments that are not empty.
pub open spec fn inserted_spacing(lens: Seq<int>, spacing: int, k: int) -> int {
    spacing * max_int(0, nonempty_upto(lens, k) - 1)
}

/// Where the first `k` segments end: the distance from the start of the axis to
/// the far edge of the last of them that is not empty.
pub open spec fn end_offset(lens: Seq<int>, spacing: int, k: int) -> int {
    sum_upto(lens, k) + inserted_spacing(lens, spacing, k)
}

/// Where segment `i` starts: where the segments before it end, and one gap
/// further if it is not empty and neither are all of those.
pub open spec fn start_offset(lens: Seq<int>, spacing: int, i: int) -> int {
    end_offset(lens, spacing, i) + if lens[i] > 0 && nonempty_upto(lens, i) > 0 {
        spacing
    } else {
        0
    }
}

/// The part of `area` that starts `start` cells along the axis and is `length`
/// cells long. Across the axis it has the extent of `area`.
pub open spec fn segment(area: Rect, direction: Direction, start: int, length: int) -> Rect {
    match direction {
        Direction::Horizontal => Rect {
            x: (area.x + start) as u16,
            y: area.y,
            width: length as u16,
            height: area.height,
        },
        Direction::Vertical => Rect {
            x: area.x,
            y: (area.y + start) as u16,
            width: area.width,
            height: length as u16,
        },
    }
}

/// The lengths of the segments into which `area` is split.
pub open spec fn segment_lengths(
    area: Rect,
    direction: Direction,
    cs: Seq<Constraint>,
    spacing: u16,
) -> Seq<int> {
    resolved_lengths(
        cs,
        available_length(main_length(area, direction), spacing as int, cs.len() as int),
    )
}

/// The segments into which `area` is split: one for each constraint, in order.
pub open spec fn split_area(
    area: Rect,
    direction: Direction,
    cs: Seq<Constraint>,
    spacing: u16,
) -> Seq<Rect> {
    let lens = segment_lengths(area, direction, cs, spacing);
    Seq::new(
        cs.len(),
        |i: int| segment(area, direction, start_offset(lens, spacing as int, i), lens[i]),
    )
}

/// The part of `container` that is split: what is left when `margin` is taken
/// off, its first part at the left and at the right, its second at the top and
/// at the bottom. A container without a cell is taken as it is.
pub open spec fn split_part(container: Rect, margin: (u16, u16)) -> Rect {
    if container.spec_is_empty() {
        container
    } else {
        container.spec_inner(margin.0, margin.1)
    }
}

/// The segments into which `container` is split once `margin` is taken off.
pub open spec fn layout(
    container: Rect,
    direction: Direction,
    cs: Seq<Constraint>,
    spacing: u16,
    margin: (u16, u16),
) -> Seq<Rect> {
    split_area(split_part(container, margin), direction, cs, spacing)
}

/// Where a rectangle starts along the axis.
pub open spec fn main_start(r: Rect, direction: Direction) -> int {
    match direction {
        Direction::Horizontal => r.x as int,
        Direction::Vertical => r.y as int,
    }
}

/// Where a rectangle ends along the axis.
pub open spec fn main_end(r: Rect, direction: Direction) -> int {
    main_start(r, direction) + extent(r, direction)
}

/// Whether `rects` are segments of `area` along the axis: each lies in `area`
/// and spans it across the axis, and each ends before the next one starts, so
/// that no two share a cell.
pub open spec fn segments_of(rects: Seq<Rect>, area: Rect, direction: Direction) -> bool {
    &&& forall|i: int|
        0 <= i < rects.len() ==> {
            &&& (#[trigger] rects[i]).wf()
            &&& main_start(area, direction) <= main_start(rects[i], direction)
            &&& main_end(rects[i], direction) <= main_end(area, direction)
            &&& match direction {
                Direction::Horizontal => rects[i].y == area.y && rects[i].height == area.height,
                Direction::Vertical => rects[i].x == area.x && rects[i].width == area.width,
            }
        }
    &&& forall|i: int, j: int|
        0 <= i < j < rects.len() ==> main_end(#[trigger] rects[i], direction) <= main_start(
            #[trigger] rects[j],
            direction,
        )
}

/// Among the first `k` lengths, none of them negative, no more are above zero
/// than there are, nor than they add up to.
pub proof fn lemma_nonempty_bounds(lens: Seq<int>, j: int, k: int)
    requires
        0 <= j <= k <= lens.len(),
        forall|i: int| 0 <= i < lens.len() ==> lens[i] >= 0,
    ensures
        0 <= nonempty_upto(lens, j) <= nonempty_upto(lens, k) <= k,
        nonempty_upto(lens, k) <= sum_upto(lens, k),
        sum_upto(lens, j) <= sum_upto(lens, k),
    decreases k,
{
    if k > 0 {
        if j < k {
            lemma_nonempty_bounds(lens, j, k - 1);
        } else {
            lemma_nonempty_bounds(lens, k - 1, k - 1);
        }
    }
}

/// A segment ends where the segments up to and with it end, and the ends never
/// move back.
pub proof fn lemma_offsets_in_order(lens: Seq<int>, spacing: int, i: int, k: int)
    requires
        0 <= i < k <= lens.len(),
        0 <= spacing,
        forall|j: int| 0 <= j < lens.len() ==> lens[j] >= 0,
    ensures
        0 <= end_offset(lens, spacing, i) <= start_offset(lens, spacing, i),
        start_offset(lens, spacing, i) + lens[i] == end_offset(lens, spacing, i + 1),
        end_offset(lens, spacing, i + 1) <= end_offset(lens, spacing, k),
    decreases k - i,
{
    lemma_nonempty_bounds(lens, i, i + 1);
    lemma_nonempty_bounds(lens, 0, i);
    let before = nonempty_upto(lens, i);
    assert(spacing * max_int(0, before - 1) >= 0) by (nonlinear_arith)
        requires
            spacing >= 0,
            max_int(0, before - 1) >= 0,
    ;
    assert(spacing * max_int(0, before + 1 - 1) == spacing * max_int(0, before - 1) + if before
        > 0 {
        spacing
    } else {
        0
    }) by (nonlinear_arith)
        requires
            before >= 0,
    ;
    if i + 1 < k {
        lemma_offsets_in_order(lens, spacing, i + 1, k);
    }
}

/// The segments never pass the end of the axis, whatever the spacing.
pub proof fn lemma_offsets_fit(cs: Seq<Constraint>, main: int, spacing: int, k: int)
    requires
        0 <= main <= u16::MAX,
        0 <= spacing,
        0 <= k <= cs.len(),
    ensures
        ({
            let lens = resolved_lengths(
                cs,
                available_length(main, spacing, cs.len() as int),
            );
            0 <= end_offset(lens, spacing, k) <= main
        }),
{
    let n = cs.len() as int;
    let available = available_length(main, spacing, n);
    let lens = resolved_lengths(cs, available);
    assert forall|i: int| 0 <= i < lens.len() implies lens[i] >= 0 by {
        lemma_length_bounds(cs, available, i);
    }
    lemma_nonempty_bounds(lens, 0, k);
    lemma_sum_bounds(cs, available, 0, k);
    let gaps = max_int(0, nonempty_upto(lens, k) - 1);
    if gaps > 0 {
        assert(0 <= spacing * gaps <= spacing * max_int(0, n - 1)) by (nonlinear_arith)
            requires
                0 <= spacing,
                0 <= gaps <= max_int(0, n - 1),
        ;
    } else {
        assert(spacing * gaps == 0) by (nonlinear_arith)
            requires
                gaps == 0,
        ;
    }
}

/// The segments of a split lie in the area, span it across the axis, follow one
/// another in the order of their constraints, and share no cell.
pub proof fn lemma_split_is_ordered(
    area: Rect,
    direction: Direction,
    cs: Seq<Constraint>,
    spacing: u16,
)
    requires
        area.wf(),
    ensures
        split_area(area, direction, cs, spacing).len() == cs.len(),
        segments_of(split_area(area, direction, cs, spacing), area, direction),
        forall|i: int|
            0 <= i < cs.len() ==> (#[trigger] split_area(area, direction, cs, spacing)[i]).within(
                area,
            ),
        forall|i: int, j: int|
            0 <= i < j < cs.len() ==> (#[trigger] split_area(
                area,
                direction,
                cs,
                spacing,
            )[i]).disjoint(#[trigger] split_area(area, direction, cs, spacing)[j]),
{
    let n = cs.len() as int;
    let main = main_length(area, direction);
    let available = available_length(main, spacing as int, n);
    let lens = segment_lengths(area, direction, cs, spacing);
    let rects = split_area(area, direction, cs, spacing);
    assert forall|i: int| 0 <= i < lens.len() implies lens[i] >= 0 by {
        lemma_length_bounds(cs, available, i);
    }
    assert forall|i: int| 0 <= i < n implies {
        &&& main_start(#[trigger] rects[i], direction) == main_start(area, direction)
            + start_offset(lens, spacing as int, i)
        &&& main_end(rects[i], direction) == main_start(area, direction) + end_offset(
            lens,
            spacing as int,
            i + 1,
        )
        &&& 0 <= start_offset(lens, spacing as int, i)
        &&& end_offset(lens, spacing as int, i + 1) <= main
    } by {
        lemma_offsets_in_order(lens, spacing as int, i, i + 1);
        lemma_offsets_fit(cs, main, spacing as int, i + 1);
    }
    assert forall|i: int, j: int| 0 <= i < j < n implies main_end(
        #[trigger] rects[i],
        direction,
    ) <= main_start(#[trigger] rects[j], direction) by {
        lemma_offsets_in_order(lens, spacing as int, i, j);
        lemma_offsets_in_order(lens, spacing as int, j, j + 1);
    }
}

/// The segments reach the far end of the area, with nothing left free behind the
/// last of them, where all of this holds: the area has a cell, or no extent
/// along the axis; the gaps fit; some constraint takes the rest, or the
/// constraints of fixed size ask for all there is; and the spacing is zero or no
/// segment is empty.
pub proof fn lemma_split_fills_axis(
    area: Rect,
    direction: Direction,
    cs: Seq<Constraint>,
    spacing: u16,
)
    requires
        area.wf(),
        !area.spec_is_empty() || extent(area, direction) == 0,
        reserved_spacing(spacing as int, cs.len() as int) <= extent(area, direction),
        takes_the_rest(cs) || demand(
            cs,
            available_length(extent(area, direction), spacing as int, cs.len() as int),
        ) >= available_length(extent(area, direction), spacing as int, cs.len() as int),
        spacing == 0 || forall|i: int|
            0 <= i < cs.len() ==> #[trigger] segment_lengths(area, direction, cs, spacing)[i] > 0,
    ensures
        ({
            let lens = segment_lengths(area, direction, cs, spacing);
            &&& sum_upto(lens, cs.len() as int) + inserted_spacing(
                lens,
                spacing as int,
                cs.len() as int,
            ) == extent(area, direction)
            &&& end_offset(lens, spacing as int, cs.len() as int) == extent(area, direction)
        }),
{
    let n = cs.len() as int;
    let main = main_length(area, direction);
    let available = available_length(main, spacing as int, n);
    let lens = segment_lengths(area, direction, cs, spacing);
    lemma_covered_length(cs, available);
    if spacing == 0 {
        assert(0 * max_int(0, nonempty_upto(lens, n) - 1) == 0) by (nonlinear_arith);
        assert(0 * max_int(0, n - 1) == 0) by (nonlinear_arith);
    } else {
        lemma_all_nonempty(lens, n);
    }
}

/// The margin that is taken off at both ends of the axis.
pub open spec fn margin_along(margin: (u16, u16), direction: Direction) -> int {
    match direction {
        Direction::Horizontal => margin.0 as int,
        Direction::Vertical => margin.1 as int,
    }
}

/// The lengths of the segments and the gaps between them add up to the extent of
/// the container less its two margins, exactly, where all of this holds: the
/// margins fit, and leave a cell across the axis unless they leave nothing along
/// it; the gaps fit; some constraint takes the rest, or the constraints of fixed
/// size ask for all there is; and the spacing is zero or no segment is empty.
pub proof fn lemma_layout_fills_container(
    container: Rect,
    direction: Direction,
    cs: Seq<Constraint>,
    spacing: u16,
    margin: (u16, u16),
)
    requires
        container.wf(),
        2 * margin_along(margin, direction) <= extent(container, direction),
        ({
            let area = split_part(container, margin);
            let room = available_length(extent(area, direction), spacing as int, cs.len() as int);
            &&& !area.spec_is_empty() || extent(area, direction) == 0
            &&& reserved_spacing(spacing as int, cs.len() as int) <= extent(area, direction)
            &&& takes_the_rest(cs) || demand(cs, room) >= room
            &&& spacing == 0 || forall|i: int|
                0 <= i < cs.len() ==> #[trigger] segment_lengths(area, direction, cs, spacing)[i]
                    > 0
        }),
    ensures
        ({
            let rects = layout(container, direction, cs, spacing, margin);
            let lens = Seq::new(cs.len(), |i: int| extent(rects[i], direction));
            sum_upto(lens, cs.len() as int) + inserted_spacing(
                lens,
                spacing as int,
                cs.len() as int,
            ) == extent(container, direction) - 2 * margin_along(margin, direction)
        }),
{
    let area = split_part(container, margin);
    let rects = layout(container, direction, cs, spacing, margin);
    let lens = Seq::new(cs.len(), |i: int| extent(rects[i], direction));
    let room = available_length(main_length(area, direction), spacing as int, cs.len() as int);
    assert forall|i: int| 0 <= i < cs.len() implies lens[i] == #[trigger] segment_lengths(
        area,
        direction,
        cs,
        spacing,
    )[i] by {
        lemma_length_bounds(cs, room, i);
    }
    assert(lens =~= segment_lengths(area, direction, cs, spacing));
    lemma_split_fills_axis(area, direction, cs, spacing);
}

/// Where every one of the first `k` lengths is above zero, `k` of them are.
proof fn lemma_all_nonempty(lens: Seq<int>, k: int)
    requires
        0 <= k <= lens.len(),
        forall|i: int| 0 <= i < lens.len() ==> lens[i] > 0,
    ensures
        nonempty_upto(lens, k) == k,
    decreases k,
{
    if k > 0 {
        lemma_all_nonempty(lens, k - 1);
    }
}

/// What is there to divide among `count` segments of an axis `main` cells long.
pub fn available(main: u16, spacing: u16, count: usize) -> (length: u16)
    ensures
        length == available_length(main as int, spacing as int, count as int),
{
    if count <= 1 || spacing == 0 {
        assert(spacing * max_int(0, count - 1) == 0) by (nonlinear_arith)
            requires
                count <= 1 || spacing == 0,
                count >= 0,
        ;
        main
    } else {
        let gaps: usize = count - 1;
        if gaps > main as usize {
            assert(spacing * max_int(0, count - 1) > main) by (nonlinear_arith)
                requires
                    spacing >= 1,
                    count - 1 > main,
            ;
            0
        } else {
            assert(spacing * gaps <= 0xffff * 0xffff) by (nonlinear_arith)
                requires
                    spacing <= 0xffff,
                    gaps <= 0xffff,
            ;
            let reserved: u32 = (spacing as u32) * (gaps as u32);
            if reserved >= main as u32 {
                0
            } else {
                main - reserved as u16
            }
        }
    }
}

/// Splits `container`, less `margin`, along the axis into one rectangle for each
/// constraint, in the order of the constraints. The first part of `margin` is
/// taken off at the left and at the right, the second at the top and at the
/// bottom. Between two consecutive segments that are not empty lie `spacing`
/// cells. An empty list gives no rectangle; a container without a cell gives
/// rectangles without a cell at its origin.
pub fn solve(
    container: Rect,
    direction: Direction,
    constraints: &Vec<Constraint>,
    spacing: u16,
    margin: (u16, u16),
) -> (rects: Vec<Rect>)
    requires
        container.wf(),
    ensures
        rects@ == layout(container, direction, constraints@, spacing, margin),
        rects@.len() == constraints@.len(),
        segments_of(rects@, split_part(container, margin), direction),
        forall|i: int| 0 <= i < rects@.len() ==> (#[trigger] rects@[i]).within(container),
        forall|i: int, j: int|
            0 <= i < j < rects@.len() ==> (#[trigger] rects@[i]).disjoint(#[trigger] rects@[j]),
{
    let area = if container.is_empty() {
        container
    } else {
        container.inner(margin.0, margin.1)
    };
    let n = constraints.len();
    let main: u16 = if area.is_empty() {
        0
    } else {
        match direction {
            Direction::Horizontal => area.width,
            Direction::Vertical => area.height,
        }
    };
    let room = available(main, spacing, n);
    let lengths = resolve(constraints, room);
    let ghost cs = constraints@;
    let ghost lens = resolved_lengths(cs, room as int);
    let ghost gap = spacing as int;
    proof {
        assert forall|i: int| 0 <= i < lens.len() implies lens[i] >= 0 by {
            lemma_length_bounds(cs, room as int, i);
        }
        lemma_split_is_ordered(area, direction, cs, spacing);
        assert(gap * max_int(0, 0 - 1) == 0) by (nonlinear_arith);
    }
    let mut rects: Vec<Rect> = Vec::new();
    let mut cursor: u16 = 0;
    let mut seen: bool = false;
    let mut i: usize = 0;
    while i < n
        invariant
            area.wf(),
            cs == constraints@,
            n == cs.len(),
            lengths@.len() == n,
            lens == resolved_lengths(cs, room as int),
            lens == segment_lengths(area, direction, cs, spacing),
            room == available_length(main as int, gap, n as int),
            main == main_length(area, direction),
            gap == spacing,
            forall|j: int| 0 <= j < n ==> #[trigger] lengths@[j] == lens[j],
            forall|j: int| 0 <= j < n ==> lens[j] >= 0,
            0 <= i <= n,
            rects@.len() == i,
            cursor == end_offset(lens, gap, i as int),
            seen == (nonempty_upto(lens, i as int) > 0),
            forall|j: int|
                0 <= j < i ==> #[trigger] rects@[j] == segment(
                    area,
                    direction,
                    start_offset(lens, gap, j),
                    lens[j],
                ),
        decreases n - i,
    {
        let length = lengths[i];
        proof {
            lemma_nonempty_bounds(lens, 0, i as int);
            lemma_offsets_in_order(lens, gap, i as int, i as int + 1);
            lemma_offsets_fit(cs, main as int, gap, i as int + 1);
        }
        let start: u16 = if length > 0 && seen {
            cursor + spacing
        } else {
            cursor
        };
        let rect = match direction {
            Direction::Horizontal => Rect {
                x: area.x + start,
                y: area.y,
                width: length,
                height: area.height,
            },
            Direction::Vertical => Rect {
                x: area.x,
                y: area.y + start,
                width: area.width,
                height: length,
            },
        };
        rects.push(rect);
        cursor = start + length;
        if length > 0 {
            seen = true;
        }
        i = i + 1;
    }
    proof {
        assert(rects@ =~= split_area(area, direction, cs, spacing));
        assert forall|i: int| 0 <= i < rects@.len() implies (#[trigger] rects@[i]).within(
            container,
        ) by {
            assert(rects@[i].within(area));
        }
    }
    rects
}

/// A way to split rectangles: the axis, the constraints, the margin taken off
/// the rectangle before it is split, and the spacing between segments.
#[derive(Debug)]
pub struct Layout {
    pub direction: Direction,
    pub constraints: Vec<Constraint>,
    /// Taken off at the left and at the right, then at the top and at the
    /// bottom.
    pub margin: (u16, u16),
    pub spacing: u16,
}

impl Layout {
    /// A layout along `direction`, without margin or spacing.
    pub fn new(direction: Direction, constraints: Vec<Constraint>) -> (layout: Layout)
        ensures
            layout.direction == direction,
            layout.constraints@ == constraints@,
            layout.margin == (0u16, 0u16),
            layout.spacing == 0,
    {
        Layout { direction, constraints, margin: (0, 0), spacing: 0 }
    }

    /// A layout of segments side by side, without margin or spacing.
    pub fn horizontal(constraints: Vec<Constraint>) -> (layout: Layout)
        ensures
            layout.direction == Direction::Horizontal,
            layout.constraints@ == constraints@,
            layout.margin == (0u16, 0u16),
            layout.spacing == 0,
    {
        Layout::new(Direction::Horizontal, constraints)
    }

    /// A layout of segments one below the other, without margin or spacing.
    pub fn vertical(constraints: Vec<Constraint>) -> (layout: Layout)
        ensures
            layout.direction == Direction::Vertical,
            layout.constraints@ == constraints@,
            layout.margin == (0u16, 0u16),
            layout.spacing == 0,
    {
        Layout::new(Direction::Vertical, constraints)
    }

    /// The same layout with a margin of `margin` cells at all four sides.
    pub fn margin(self, margin: u16) -> (layout: Layout)
        ensures
            layout.direction == self.direction,
            layout.constraints@ == self.constraints@,
            layout.margin == (margin, margin),
            layout.spacing == self.spacing,
    {
        Layout {
            direction: self.direction,
            constraints: self.constraints,
            margin: (margin, margin),
            spacing: self.spacing,
        }
    }

    /// The same layout with a margin of `horizontal` cells at the left and at
    /// the right.
    pub fn horizontal_margin(self, horizontal: u16) -> (layout: Layout)
        ensures
            layout.direction == self.direction,
            layout.constraints@ == self.constraints@,
            layout.margin == (horizontal, self.margin.1),
            layout.spacing == self.spacing,
    {
        Layout {
            direction: self.direction,
            constraints: self.constraints,
            margin: (horizontal, self.margin.1),
            spacing: self.spacing,
        }
    }

    /// The same layout with a margin of `vertical` cells at the top and at the
    /// bottom.
    pub fn vertical_margin(self, vertical: u16) -> (layout: Layout)
        ensures
            layout.direction == self.direction,
            layout.constraints@ == self.constraints@,
            layout.margin == (self.margin.0, vertical),
            layout.spacing == self.spacing,
    {
        Layout {
            direction: self.direction,
            constraints: self.constraints,
            margin: (self.margin.0, vertical),
            spacing: self.spacing,
        }
    }

    /// The same layout with `spacing` cells between segments.
    pub fn spacing(self, spacing: u16) -> (layout: Layout)
        ensures
            layout.direction == self.direction,
            layout.constraints@ == self.constraints@,
            layout.margin == self.margin,
            layout.spacing == spacing,
    {
        Layout {
            direction: self.direction,
            constraints: self.constraints,
            margin: self.margin,
            spacing,
        }
    }

    /// Splits `area` as the layout says.
    pub fn split(&self, area: Rect) -> (rects: Vec<Rect>)
        requires
            area.wf(),
        ensures
            rects@ == layout(area, self.direction, self.constraints@, self.spacing, self.margin),
            rects@.len() == self.constraints@.len(),
            segments_of(rects@, split_part(area, self.margin), self.direction),
            forall|i: int| 0 <= i < rects@.len() ==> (#[trigger] rects@[i]).within(area),
            forall|i: int, j: int|
                0 <= i < j < rects@.len() ==> (#[trigger] rects@[i]).disjoint(#[trigger] rects@[j]),
    {
        solve(area, self.direction, &self.constraints, self.spacing, self.margin)
    }
}

} // verus!
