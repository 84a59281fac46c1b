//! The comparison of two buffers of one shape: which cells a terminal has to
//! write again to show the second where it shows the first.

use vstd::prelude::*;
use vstd::std_specs::cmp::PartialEqSpecImpl;
use crate::buffer::cell::{Cell, CellView};
use crate::buffer::grid::{index_in, lemma_index_in_bounds, lemma_index_in_distinct, Buffer};
use crate::layout::rect::Rect;

verus! {

/// One write: the cell to show at column `x`, row `y`.
#[derive(Debug)]
pub struct Update {
    pub x: u16,
    pub y: u16,
    pub cell: Cell,
}

impl PartialEq for Update {
    fn eq(&self, other: &Update) -> (r: bool) {
        self.x == other.x && self.y == other.y && self.cell == other.cell
    }
}

impl PartialEqSpecImpl for Update {
    open spec fn obeys_eq_spec() -> bool {
        true
    }

    open spec fn eq_spec(&self, other: &Update) -> bool {
        self.x == other.x && self.y == other.y && self.cell@ == other.cell@
    }
}

impl Eq for Update {

}

/// Whether the columns from `a` to `b` of row `y` show one glyph: every column
/// after `a`, up to and with `b`, continues the glyph to its left.
pub open spec fn joined(buffer: &Buffer, y: int, a: int, b: int) -> bool {
    a <= b && forall|k: int| a < k <= b ==> (#[trigger] buffer.cell_at(k, y)).skip
}

/// Whether two columns of row `y` show one glyph.
pub open spec fn same_glyph(buffer: &Buffer, y: int, x1: int, x2: int) -> bool {
    joined(buffer, y, x1, x2) || joined(buffer, y, x2, x1)
}

/// Whether the glyph that `next` shows at column `x`, row `y` has to be written
/// again: in one of its columns the two buffers differ, in grapheme, style or
/// continuation.
pub open spec fn glyph_changed(prev: &Buffer, next: &Buffer, x: int, y: int) -> bool {
    exists|k: int|
        next.area.x <= k < next.area.x + next.area.width && same_glyph(next, y, k, x)
            && #[trigger] prev.cell_at(k, y) != next.cell_at(k, y)
}

/// Whether a position comes before another where rows are read from the top and
/// each row from the left.
pub open spec fn precedes(x: int, y: int, x_limit: int, y_limit: int) -> bool {
    y < y_limit || (y == y_limit && x < x_limit)
}

/// Whether one of the updates writes column `x`, row `y`.
pub open spec fn covered(updates: Seq<Update>, x: int, y: int) -> bool {
    exists|k: int| 0 <= k < updates.len() && (#[trigger] updates[k]).x == x && updates[k].y == y
}

/// Whether `updates` is the difference of the two buffers as far as the
/// positions before the limit go: every update lies before the limit, holds the
/// cell of `next` at its position, and belongs to a glyph that changed; the
/// updates come in reading order; and every position before the limit whose
/// glyph changed is written.
pub open spec fn is_diff_upto(
    prev: &Buffer,
    next: &Buffer,
    updates: Seq<Update>,
    x_limit: int,
    y_limit: int,
) -> bool {
    &&& forall|k: int|
        0 <= k < updates.len() ==> {
            let u = #[trigger] updates[k];
            &&& next.area.spec_contains(u.x as int, u.y as int)
            &&& precedes(u.x as int, u.y as int, x_limit, y_limit)
            &&& u.cell@ == next.cell_at(u.x as int, u.y as int)
            &&& glyph_changed(prev, next, u.x as int, u.y as int)
        }
    &&& forall|k: int, l: int|
        0 <= k < l < updates.len() ==> precedes(
            (#[trigger] updates[k]).x as int,
            updates[k].y as int,
            (#[trigger] updates[l]).x as int,
            updates[l].y as int,
        )
    &&& forall|x: int, y: int|
        next.area.spec_contains(x, y) && precedes(x, y, x_limit, y_limit) && glyph_changed(
            prev,
            next,
            x,
            y,
        ) ==> #[trigger] covered(updates, x, y)
}

/// Whether `updates` is the difference of the two buffers: in reading order, one
/// update for each position whose glyph changed, and no other.
pub open spec fn is_diff(prev: &Buffer, next: &Buffer, updates: Seq<Update>) -> bool {
    is_diff_upto(prev, next, updates, next.area.x as int, next.area.y + next.area.height)
}

/// What the cells of a buffer over `area` hold after the first `k` updates have
/// been written, one after the other.
pub open spec fn applied(
    cells: Seq<CellView>,
    area: Rect,
    updates: Seq<Update>,
    k: int,
) -> Seq<CellView>
    decreases k,
{
    if k <= 0 {
        cells
    } else {
        applied(cells, area, updates, k - 1).update(
            index_in(area, updates[k - 1].x as int, updates[k - 1].y as int),
            updates[k - 1].cell@,
        )
    }
}

/// The limit may move on over positions whose glyph did not change.
proof fn lemma_advance(
    prev: &Buffer,
    next: &Buffer,
    updates: Seq<Update>,
    x1: int,
    y1: int,
    x2: int,
    y2: int,
)
    requires
        is_diff_upto(prev, next, updates, x1, y1),
        forall|x: int, y: int|
            precedes(x, y, x1, y1) ==> precedes(x, y, x2, y2),
        forall|x: int, y: int|
            next.area.spec_contains(x, y) && precedes(x, y, x2, y2) && !precedes(x, y, x1, y1)
                ==> !#[trigger] glyph_changed(prev, next, x, y),
    ensures
        is_diff_upto(prev, next, updates, x2, y2),
{
    assert forall|k: int| 0 <= k < updates.len() implies precedes(
        (#[trigger] updates[k]).x as int,
        updates[k].y as int,
        x2,
        y2,
    ) by {
        assert(precedes(updates[k].x as int, updates[k].y as int, x1, y1));
    }
    assert forall|x: int, y: int|
        next.area.spec_contains(x, y) && precedes(x, y, x2, y2) && glyph_changed(
            prev,
            next,
            x,
            y,
        ) implies #[trigger] covered(updates, x, y) by {
        assert(precedes(x, y, x1, y1));
    }
}

/// An update for the position at the limit, whose glyph changed, moves the limit
/// one column on.
proof fn lemma_push(prev: &Buffer, next: &Buffer, updates: Seq<Update>, u: Update)
    requires
        next.area.spec_contains(u.x as int, u.y as int),
        is_diff_upto(prev, next, updates, u.x as int, u.y as int),
        u.cell@ == next.cell_at(u.x as int, u.y as int),
        glyph_changed(prev, next, u.x as int, u.y as int),
    ensures
        is_diff_upto(prev, next, updates.push(u), u.x + 1, u.y as int),
{
    let longer = updates.push(u);
    assert forall|k: int| 0 <= k < longer.len() implies {
        let v = #[trigger] longer[k];
        &&& next.area.spec_contains(v.x as int, v.y as int)
        &&& precedes(v.x as int, v.y as int, u.x + 1, u.y as int)
        &&& v.cell@ == next.cell_at(v.x as int, v.y as int)
        &&& glyph_changed(prev, next, v.x as int, v.y as int)
    } by {
        if k < updates.len() {
            assert(longer[k] == updates[k]);
        }
    }
    assert forall|k: int, l: int| 0 <= k < l < longer.len() implies precedes(
        (#[trigger] longer[k]).x as int,
        longer[k].y as int,
        (#[trigger] longer[l]).x as int,
        longer[l].y as int,
    ) by {
        assert(longer[k] == updates[k]);
        if l < updates.len() {
            assert(longer[l] == updates[l]);
        }
    }
    assert forall|x: int, y: int|
        next.area.spec_contains(x, y) && precedes(x, y, u.x + 1, u.y as int) && glyph_changed(
            prev,
            next,
            x,
            y,
        ) implies #[trigger] covered(longer, x, y) by {
        if precedes(x, y, u.x as int, u.y as int) {
            assert(covered(updates, x, y));
            let k = choose|k: int|
                0 <= k < updates.len() && (#[trigger] updates[k]).x == x && updates[k].y == y;
            assert(longer[k] == updates[k]);
        } else {
            assert(longer[updates.len() as int] == u);
        }
    }
}

/// Within one glyph, from its first column `start` to the column before `end`,
/// every position has changed where one has.
proof fn lemma_glyph_unit(prev: &Buffer, next: &Buffer, y: int, start: int, end: int, x: int)
    requires
        next.area.x <= start <= x < end <= next.area.x + next.area.width,
        start == next.area.x || !next.cell_at(start, y).skip,
        end == next.area.x + next.area.width || !next.cell_at(end, y).skip,
        forall|k: int| start < k < end ==> (#[trigger] next.cell_at(k, y)).skip,
    ensures
        glyph_changed(prev, next, x, y) <==> exists|k: int|
            start <= k < end && #[trigger] prev.cell_at(k, y) != next.cell_at(k, y),
{
    if glyph_changed(prev, next, x, y) {
        let k = choose|k: int|
            next.area.x <= k < next.area.x + next.area.width && same_glyph(next, y, k, x)
                && #[trigger] prev.cell_at(k, y) != next.cell_at(k, y);
        if k < start {
            assert(next.cell_at(start, y).skip);
        }
        if k >= end {
            assert(next.cell_at(end, y).skip);
        }
        assert(start <= k < end);
    }
    if exists|k: int| start <= k < end && #[trigger] prev.cell_at(k, y) != next.cell_at(k, y) {
        let k = choose|k: int|
            start <= k < end && #[trigger] prev.cell_at(k, y) != next.cell_at(k, y);
        assert(same_glyph(next, y, k, x));
    }
}

/// Every place of the grid over `area` is the place of a cell of `area`.
pub proof fn lemma_index_in_onto(area: Rect, i: int) -> (pos: (int, int))
    requires
        0 <= i < area.width * area.height,
    ensures
        area.spec_contains(pos.0, pos.1),
        index_in(area, pos.0, pos.1) == i,
{
    let w = area.width as int;
    let h = area.height as int;
    assert(w > 0) by (nonlinear_arith)
        requires
            0 <= i < w * h,
            0 <= w,
    ;
    let row = i / w;
    let col = i % w;
    vstd::arithmetic::div_mod::lemma_fundamental_div_mod(i, w);
    vstd::arithmetic::div_mod::lemma_mod_bound(i, w);
    assert(0 <= row < h) by (nonlinear_arith)
        requires
            i == w * row + col,
            0 <= col < w,
            0 <= i < w * h,
    ;
    assert(row * w == w * row) by (nonlinear_arith);
    (area.x + col, area.y + row)
}

/// After the first `k` updates, each of which holds the cell of `next` at its
/// position, a cell holds what `next` holds there if one of them wrote it, and
/// else what it held before.
proof fn lemma_applied_at(
    prev: &Buffer,
    next: &Buffer,
    updates: Seq<Update>,
    k: int,
    x: int,
    y: int,
)
    requires
        prev.wf(),
        next.wf(),
        prev.area == next.area,
        0 <= k <= updates.len(),
        next.area.spec_contains(x, y),
        forall|j: int|
            0 <= j < updates.len() ==> {
                let u = #[trigger] updates[j];
                &&& next.area.spec_contains(u.x as int, u.y as int)
                &&& u.cell@ == next.cell_at(u.x as int, u.y as int)
            },
    ensures
        applied(prev.cells(), prev.area, updates, k).len() == prev.cells().len(),
        applied(prev.cells(), prev.area, updates, k)[index_in(prev.area, x, y)] == if exists|j: int|
            0 <= j < k && (#[trigger] updates[j]).x == x && updates[j].y == y {
            next.cell_at(x, y)
        } else {
            prev.cell_at(x, y)
        },
    decreases k,
{
    lemma_index_in_bounds(prev.area, x, y);
    if k > 0 {
        lemma_applied_at(prev, next, updates, k - 1, x, y);
        let u = updates[k - 1];
        lemma_index_in_bounds(prev.area, u.x as int, u.y as int);
        if u.x == x && u.y == y {
        } else {
            if index_in(prev.area, u.x as int, u.y as int) == index_in(prev.area, x, y) {
                lemma_index_in_distinct(
                    prev.area,
                    u.x as int,
                    u.y as int,
                    x,
                    y,
                );
            }
            if exists|j: int| 0 <= j < k && (#[trigger] updates[j]).x == x && updates[j].y == y {
                let j = choose|j: int|
                    0 <= j < k && (#[trigger] updates[j]).x == x && updates[j].y == y;
                assert(0 <= j < k - 1 && updates[j].x == x && updates[j].y == y);
            }
        }
    }
}

/// Writing the difference of two buffers to a buffer that holds what the first
/// holds gives, cell for cell, what the second holds.
pub proof fn lemma_apply_diff(prev: &Buffer, next: &Buffer, updates: Seq<Update>)
    requires
        prev.wf(),
        next.wf(),
        prev.area == next.area,
        is_diff(prev, next, updates),
    ensures
        applied(prev.cells(), prev.area, updates, updates.len() as int) == next.cells(),
{
    let area = prev.area;
    let result = applied(prev.cells(), area, updates, updates.len() as int);
    if area.width * area.height > 0 {
        let origin = lemma_index_in_onto(area, 0);
        lemma_applied_at(prev, next, updates, updates.len() as int, origin.0, origin.1);
    } else if updates.len() > 0 {
        lemma_index_in_bounds(area, updates[0].x as int, updates[0].y as int);
    }
    assert forall|i: int| 0 <= i < result.len() implies result[i] == next.cells()[i] by {
        let (x, y) = lemma_index_in_onto(area, i);
        lemma_applied_at(prev, next, updates, updates.len() as int, x, y);
        if covered(updates, x, y) {
        } else {
            if prev.cell_at(x, y) != next.cell_at(x, y) {
                assert(same_glyph(next, y, x, x));
                assert(glyph_changed(prev, next, x, y));
            }
        }
    }
    assert(result =~= next.cells());
}

/// Two buffers that hold the same in every cell have an empty difference.
pub proof fn lemma_diff_of_equal(prev: &Buffer, next: &Buffer, updates: Seq<Update>)
    requires
        prev.wf(),
        next.wf(),
        prev.area == next.area,
        prev.cells() == next.cells(),
        is_diff(prev, next, updates),
    ensures
        updates.len() == 0,
{
    if updates.len() > 0 {
        let u = updates[0];
        assert(glyph_changed(prev, next, u.x as int, u.y as int));
        let k = choose|k: int|
            next.area.x <= k < next.area.x + next.area.width && same_glyph(
                next,
                u.y as int,
                k,
                u.x as int,
            ) && #[trigger] prev.cell_at(k, u.y as int) != next.cell_at(k, u.y as int);
        lemma_index_in_bounds(next.area, k, u.y as int);
        let i = index_in(next.area, k, u.y as int);
        assert(prev.cells()[i] == prev.cell_at(k, u.y as int));
        assert(next.cells()[i] == next.cell_at(k, u.y as int));
    }
}

/// Where `next` holds no continuation, the difference writes exactly the cells
/// in which the two buffers differ.
pub proof fn lemma_diff_of_narrow(prev: &Buffer, next: &Buffer, x: int, y: int)
    requires
        next.wf(),
        prev.area == next.area,
        next.area.spec_contains(x, y),
        forall|c: int|
            next.area.x <= c < next.area.x + next.area.width ==> !(#[trigger] next.cell_at(
                c,
                y,
            )).skip,
    ensures
        glyph_changed(prev, next, x, y) <==> prev.cell_at(x, y) != next.cell_at(x, y),
{
    if glyph_changed(prev, next, x, y) {
        let k = choose|k: int|
            next.area.x <= k < next.area.x + next.area.width && same_glyph(next, y, k, x)
                && #[trigger] prev.cell_at(k, y) != next.cell_at(k, y);
        if k < x {
            assert(!next.cell_at(x, y).skip);
        }
        if k > x {
            assert(!next.cell_at(k, y).skip);
        }
    }
    if prev.cell_at(x, y) != next.cell_at(x, y) {
        assert(same_glyph(next, y, x, x));
    }
}

/// A continuation and the column to its left belong to one glyph: one has
/// changed exactly where the other has.
pub proof fn lemma_glyph_changes_whole(prev: &Buffer, next: &Buffer, x: int, y: int)
    requires
        next.area.x <= x,
        x + 1 < next.area.x + next.area.width,
        next.cell_at(x + 1, y).skip,
    ensures
        glyph_changed(prev, next, x, y) <==> glyph_changed(prev, next, x + 1, y),
{
    if glyph_changed(prev, next, x, y) {
        let k = choose|k: int|
            next.area.x <= k < next.area.x + next.area.width && same_glyph(next, y, k, x)
                && #[trigger] prev.cell_at(k, y) != next.cell_at(k, y);
        if k <= x {
            assert(joined(next, y, k, x + 1));
        } else {
            assert(joined(next, y, x + 1, k));
        }
        assert(same_glyph(next, y, k, x + 1));
    }
    if glyph_changed(prev, next, x + 1, y) {
        let k = choose|k: int|
            next.area.x <= k < next.area.x + next.area.width && same_glyph(next, y, k, x + 1)
                && #[trigger] prev.cell_at(k, y) != next.cell_at(k, y);
        if k <= x {
            assert(joined(next, y, k, x));
        } else {
            assert(joined(next, y, x, k));
        }
        assert(same_glyph(next, y, k, x));
    }
}

/// The difference writes a position of the area exactly where its glyph has
/// changed. So a continuation is written exactly where the column to its left
/// is: never alone, and always with its glyph.
pub proof fn lemma_diff_covers(prev: &Buffer, next: &Buffer, updates: Seq<Update>, x: int, y: int)
    requires
        next.area.wf(),
        is_diff(prev, next, updates),
    ensures
        covered(updates, x, y) <==> next.area.spec_contains(x, y) && glyph_changed(
            prev,
            next,
            x,
            y,
        ),
        next.area.x <= x && next.area.spec_contains(x + 1, y) && next.cell_at(x + 1, y).skip ==> (
        covered(updates, x, y) <==> covered(updates, x + 1, y)),
{
    if covered(updates, x, y) {
        let k = choose|k: int|
            0 <= k < updates.len() && (#[trigger] updates[k]).x == x && updates[k].y == y;
    }
    if covered(updates, x + 1, y) {
        let k = choose|k: int|
            0 <= k < updates.len() && (#[trigger] updates[k]).x == x + 1 && updates[k].y == y;
    }
    if next.area.x <= x && next.area.spec_contains(x + 1, y) && next.cell_at(x + 1, y).skip {
        lemma_glyph_changes_whole(prev, next, x, y);
    }
}

impl Buffer {
    /// Finds where the glyph that starts at column `start` of row `y` ends in
    /// `next`, and whether the two buffers differ in one of its columns.
    fn scan_glyph(&self, next: &Buffer, start: u16, y: u16) -> (found: (u16, bool))
        requires
            self.wf(),
            next.wf(),
            self.area == next.area,
            next.area.spec_contains(start as int, y as int),
        ensures
            start < found.0 <= next.area.x + next.area.width,
            found.0 == next.area.x + next.area.width || !next.cell_at(
                found.0 as int,
                y as int,
            ).skip,
            forall|k: int| start < k < found.0 ==> (#[trigger] next.cell_at(k, y as int)).skip,
            found.1 == exists|k: int|
                start <= k < found.0 && #[trigger] self.cell_at(k, y as int) != next.cell_at(
                    k,
                    y as int,
                ),
    {
        let right: u16 = next.area.x + next.area.width;
        let mut changed: bool = *self.get(start, y) != *next.get(start, y);
        let mut end: u16 = start + 1;
        while end < right && next.get(end, y).skip
            invariant
                self.wf(),
                next.wf(),
                self.area == next.area,
                next.area.y <= y < next.area.y + next.area.height,
                right == next.area.x + next.area.width,
                next.area.x <= start < end <= right,
                forall|k: int| start < k < end ==> (#[trigger] next.cell_at(k, y as int)).skip,
                changed == exists|k: int|
                    start <= k < end && #[trigger] self.cell_at(k, y as int) != next.cell_at(
                        k,
                        y as int,
                    ),
            decreases right - end,
        {
            let differs = *self.get(end, y) != *next.get(end, y);
            proof {
                if differs {
                    assert(self.cell_at(end as int, y as int) != next.cell_at(
                        end as int,
                        y as int,
                    ));
                }
            }
            changed = changed || differs;
            end = end + 1;
        }
        (end, changed)
    }

    /// Compares the buffer with `next`, a buffer over the same area: the result
    /// holds, in reading order, the cells of `next` that have to be written to
    /// turn what this buffer shows into what `next` shows. A glyph is written as
    /// a whole: where one of its columns differs, each of them is in the
    /// result, the continuation right after the glyph; a continuation is never
    /// written without its glyph.
    pub fn diff(&self, next: &Buffer) -> (updates: Vec<Update>)
        requires
            self.wf(),
            next.wf(),
            self.area == next.area,
        ensures
            is_diff(self, next, updates@),
    {
        let area = next.area;
        let right: u16 = area.x + area.width;
        let mut updates: Vec<Update> = Vec::new();
        let mut row: u16 = 0;
        while row < area.height
            invariant
                self.wf(),
                next.wf(),
                self.area == next.area,
                area == next.area,
                right == area.x + area.width,
                0 <= row <= area.height,
                is_diff_upto(self, next, updates@, area.x as int, area.y + row),
            decreases area.height - row,
        {
            let y: u16 = area.y + row;
            let mut x: u16 = area.x;
            while x < right
                invariant
                    self.wf(),
                    next.wf(),
                    self.area == next.area,
                    area == next.area,
                    right == area.x + area.width,
                    0 <= row < area.height,
                    y == area.y + row,
                    area.x <= x <= right,
                    x == area.x || x == right || !next.cell_at(x as int, y as int).skip,
                    is_diff_upto(self, next, updates@, x as int, y as int),
                decreases right - x,
            {
                let (end, changed) = self.scan_glyph(next, x, y);
                proof {
                    assert forall|c: int| x <= c < end implies (#[trigger] glyph_changed(
                        self,
                        next,
                        c,
                        y as int,
                    ) <==> changed) by {
                        lemma_glyph_unit(self, next, y as int, x as int, end as int, c);
                    }
                }
                if changed {
                    let mut c: u16 = x;
                    while c < end
                        invariant
                            self.wf(),
                            next.wf(),
                            self.area == next.area,
                            area == next.area,
                            area.y <= y < area.y + area.height,
                            area.x <= x <= c <= end <= area.x + area.width,
                            forall|k: int|
                                x <= k < end ==> #[trigger] glyph_changed(self, next, k, y as int),
                            is_diff_upto(self, next, updates@, c as int, y as int),
                        decreases end - c,
                    {
                        let update = Update { x: c, y, cell: next.get(c, y).clone() };
                        proof {
                            assert(glyph_changed(self, next, c as int, y as int));
                            lemma_push(self, next, updates@, update);
                        }
                        updates.push(update);
                        c = c + 1;
                    }
                } else {
                    proof {
                        lemma_advance(
                            self,
                            next,
                            updates@,
                            x as int,
                            y as int,
                            end as int,
                            y as int,
                        );
                    }
                }
                x = end;
            }
            proof {
                lemma_advance(self, next, updates@, right as int, y as int, area.x as int, y + 1);
            }
            row = row + 1;
        }
        updates
    }

    /// Writes the updates, in their order. Each must lie in the area.
    pub fn apply(&mut self, updates: &Vec<Update>)
        requires
            old(self).wf(),
            forall|k: int|
                0 <= k < updates@.len() ==> old(self).area.spec_contains(
                    (#[trigger] updates@[k]).x as int,
                    updates@[k].y as int,
                ),
        ensures
            final(self).wf(),
            final(self).area == old(self).area,
            final(self).cells() == applied(
                old(self).cells(),
                old(self).area,
                updates@,
                updates@.len() as int,
            ),
    {
        let n = updates.len();
        let mut k: usize = 0;
        while k < n
            invariant
                n == updates@.len(),
                0 <= k <= n,
                self.wf(),
                self.area == old(self).area,
                forall|j: int|
                    0 <= j < updates@.len() ==> old(self).area.spec_contains(
                        (#[trigger] updates@[j]).x as int,
                        updates@[j].y as int,
                    ),
                self.cells() == applied(old(self).cells(), old(self).area, updates@, k as int),
            decreases n - k,
        {
            let update = &updates[k];
            self.set(update.x, update.y, update.cell.clone());
            k = k + 1;
        }
    }
}

} // verus!
