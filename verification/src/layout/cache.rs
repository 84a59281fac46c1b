//! A cache of solved layouts. A layout depends on nothing but the rectangle, the
//! axis, the constraints, the spacing and the margin, so an answer given once
//! can be given again. The cache is a value that its user owns and hands to
//! every call; it holds a bounded number of answers, and when it is full the
//! answer that was asked for least recently makes room.

use vstd::prelude::*;
use crate::layout::constraint::Constraint;
use crate::layout::rect::Rect;
use crate::layout::solver::{layout, solve, Direction};

verus! {

/// What one call of the solver is asked.
pub struct Query {
    pub area: Rect,
    pub direction: Direction,
    pub constraints: Seq<Constraint>,
    pub spacing: u16,
    pub margin: (u16, u16),
}

/// The rectangles that answer a query.
pub open spec fn answer(query: Query) -> Seq<Rect> {
    layout(query.area, query.direction, query.constraints, query.spacing, query.margin)
}

/// The queries that a cache of `capacity` answers holds, the least recently
/// asked first, after `query` has been asked of one that held `held`: the query
/// moves to the end or is added there, and where that would be one too many the
/// first one leaves.
pub open spec fn touched(held: Seq<Query>, query: Query, capacity: int) -> Seq<Query> {
    if capacity <= 0 {
        held
    } else if held.contains(query) {
        held.remove(held.index_of(query)).push(query)
    } else if held.len() < capacity {
        held.push(query)
    } else {
        held.subrange(1, held.len() as int).push(query)
    }
}

/// A query with its answer.
struct Entry {
    area: Rect,
    direction: Direction,
    constraints: Vec<Constraint>,
    spacing: u16,
    margin: (u16, u16),
    rects: Vec<Rect>,
}

impl Entry {
    spec fn query(&self) -> Query {
        Query {
            area: self.area,
            direction: self.direction,
            constraints: self.constraints@,
            spacing: self.spacing,
            margin: self.margin,
        }
    }

    /// Whether the entry answers the query made of the arguments.
    fn matches(
        &self,
        area: Rect,
        direction: Direction,
        constraints: &Vec<Constraint>,
        spacing: u16,
        margin: (u16, u16),
    ) -> (b: bool)
        ensures
            b == (self.query() == (Query {
                area,
                direction,
                constraints: constraints@,
                spacing,
                margin,
            })),
    {
        if !(self.area == area && self.direction == direction && self.spacing == spacing
            && self.margin.0 == margin.0 && self.margin.1 == margin.1) {
            return false;
        }
        let n = constraints.len();
        if self.constraints.len() != n {
            return false;
        }
        let mut i: usize = 0;
        while i < n
            invariant
                n == constraints@.len(),
                n == self.constraints@.len(),
                0 <= i <= n,
                forall|j: int| 0 <= j < i ==> self.constraints@[j] == constraints@[j],
            decreases n - i,
        {
            if !(self.constraints[i] == constraints[i]) {
                return false;
            }
            i = i + 1;
        }
        assert(self.constraints@ =~= constraints@);
        true
    }
}

/// A copy of a list of constraints.
fn copy_constraints(constraints: &Vec<Constraint>) -> (copy: Vec<Constraint>)
    ensures
        copy@ == constraints@,
{
    let n = constraints.len();
    let mut copy: Vec<Constraint> = Vec::new();
    let mut i: usize = 0;
    while i < n
        invariant
            n == constraints@.len(),
            0 <= i <= n,
            copy@ == constraints@.take(i as int),
        decreases n - i,
    {
        copy.push(constraints[i]);
        assert(constraints@.take(i as int).push(constraints@[i as int]) =~= constraints@.take(
            i + 1,
        ));
        i = i + 1;
    }
    assert(constraints@.take(n as int) =~= constraints@);
    copy
}

/// A copy of a list of rectangles.
fn copy_rects(rects: &Vec<Rect>) -> (copy: Vec<Rect>)
    ensures
        copy@ == rects@,
{
    let n = rects.len();
    let mut copy: Vec<Rect> = Vec::new();
    let mut i: usize = 0;
    while i < n
        invariant
            n == rects@.len(),
            0 <= i <= n,
            copy@ == rects@.take(i as int),
        decreases n - i,
    {
        copy.push(rects[i]);
        assert(rects@.take(i as int).push(rects@[i as int]) =~= rects@.take(i + 1));
        i = i + 1;
    }
    assert(rects@.take(n as int) =~= rects@);
    copy
}

/// A bounded cache of solved layouts.
pub struct LayoutCache {
    capacity: usize,
    /// The least recently asked first.
    entries: Vec<Entry>,
}

impl View for LayoutCache {
    type V = Seq<Query>;

    /// The queries whose answers the cache holds, the least recently asked
    /// first.
    closed spec fn view(&self) -> Seq<Query> {
        Seq::new(self.entries@.len(), |i: int| self.entries@[i].query())
    }
}

impl LayoutCache {
    /// How many answers the cache may hold.
    pub closed spec fn spec_capacity(&self) -> int {
        self.capacity as int
    }

    /// A cache is well formed when it holds no more answers than it may, every
    /// answer is the one the solver gives, and no query is held twice.
    pub closed spec fn wf(&self) -> bool {
        &&& self.entries@.len() <= self.capacity
        &&& forall|i: int|
            0 <= i < self.entries@.len() ==> {
                &&& (#[trigger] self.entries@[i]).area.wf()
                &&& self.entries@[i].rects@ == answer(self.entries@[i].query())
            }
        &&& forall|i: int, j: int|
            0 <= i < j < self.entries@.len() ==> (#[trigger] self.entries@[i]).query() != (
            #[trigger] self.entries@[j]).query()
    }

    /// A well-formed cache holds no more queries than it may, and none twice.
    pub proof fn lemma_wf(&self)
        requires
            self.wf(),
        ensures
            self@.len() <= self.spec_capacity(),
            self@.no_duplicates(),
    {
    }

    /// An empty cache that may hold `capacity` answers.
    pub fn new(capacity: usize) -> (cache: LayoutCache)
        ensures
            cache.wf(),
            cache.spec_capacity() == capacity,
            cache@.len() == 0,
    {
        LayoutCache { capacity, entries: Vec::new() }
    }

    /// How many answers the cache may hold.
    pub fn capacity(&self) -> (capacity: usize)
        ensures
            capacity == self.spec_capacity(),
    {
        self.capacity
    }

    /// How many answers the cache holds.
    pub fn len(&self) -> (len: usize)
        ensures
            len == self@.len(),
    {
        self.entries.len()
    }

    /// Forgets every answer.
    pub fn clear(&mut self)
        ensures
            final(self).wf(),
            final(self).spec_capacity() == old(self).spec_capacity(),
            final(self)@.len() == 0,
    {
        self.entries = Vec::new();
    }

    /// Where the cache holds the query made of the arguments.
    fn find(
        &self,
        area: Rect,
        direction: Direction,
        constraints: &Vec<Constraint>,
        spacing: u16,
        margin: (u16, u16),
    ) -> (found: Option<usize>)
        ensures
            ({
                let query = Query { area, direction, constraints: constraints@, spacing, margin };
                match found {
                    Some(i) => i < self.entries@.len() && self.entries@[i as int].query() == query,
                    None => !self@.contains(query),
                }
            }),
    {
        let n = self.entries.len();
        let ghost query = Query { area, direction, constraints: constraints@, spacing, margin };
        let mut i: usize = 0;
        while i < n
            invariant
                n == self.entries@.len(),
                0 <= i <= n,
                query == (Query { area, direction, constraints: constraints@, spacing, margin }),
                forall|j: int| 0 <= j < i ==> (#[trigger] self.entries@[j]).query() != query,
            decreases n - i,
        {
            if self.entries[i].matches(area, direction, constraints, spacing, margin) {
                return Some(i);
            }
            i = i + 1;
        }
        proof {
            if self@.contains(query) {
                let j = choose|j: int| 0 <= j < self@.len() && self@[j] == query;
                assert(self.entries@[j].query() == query);
            }
        }
        None
    }

    /// Whether the cache holds the answer to the query made of the arguments.
    pub fn holds(
        &self,
        area: Rect,
        direction: Direction,
        constraints: &Vec<Constraint>,
        spacing: u16,
        margin: (u16, u16),
    ) -> (b: bool)
        ensures
            b == self@.contains(
                Query { area, direction, constraints: constraints@, spacing, margin },
            ),
    {
        match self.find(area, direction, constraints, spacing, margin) {
            Some(i) => {
                assert(self@[i as int] == self.entries@[i as int].query());
                true
            },
            None => false,
        }
    }

    /// Splits `area` as `solve` does, and takes the answer from the cache where
    /// it holds one for the same arguments. The query becomes the most recently
    /// asked; where the cache is full and did not hold it, the least recently
    /// asked leaves.
    pub fn split(
        &mut self,
        area: Rect,
        direction: Direction,
        constraints: &Vec<Constraint>,
        spacing: u16,
        margin: (u16, u16),
    ) -> (rects: Vec<Rect>)
        requires
            old(self).wf(),
            area.wf(),
        ensures
            final(self).wf(),
            final(self).spec_capacity() == old(self).spec_capacity(),
            rects@ == layout(area, direction, constraints@, spacing, margin),
            final(self)@ == touched(
                old(self)@,
                Query { area, direction, constraints: constraints@, spacing, margin },
                old(self).spec_capacity(),
            ),
    {
        let ghost query = Query { area, direction, constraints: constraints@, spacing, margin };
        let ghost held = self@;
        match self.find(area, direction, constraints, spacing, margin) {
            Some(i) => {
                proof {
                    assert(held[i as int] == query);
                    assert(held.contains(query));
                    let at = held.index_of(query);
                    assert(held[at] == query);
                    assert(self.entries@[at].query() == query);
                    assert(at == i);
                }
                let entry = self.entries.remove(i);
                let rects = copy_rects(&entry.rects);
                self.entries.push(entry);
                proof {
                    assert(self@ =~= held.remove(i as int).push(query));
                }
                rects
            },
            None => {
                let rects = solve(area, direction, constraints, spacing, margin);
                if self.capacity == 0 {
                    return rects;
                }
                if self.entries.len() >= self.capacity {
                    self.entries.remove(0);
                }
                let entry = Entry {
                    area,
                    direction,
                    constraints: copy_constraints(constraints),
                    spacing,
                    margin,
                    rects: copy_rects(&rects),
                };
                self.entries.push(entry);
                proof {
                    if held.len() < self.capacity {
                        assert(self@ =~= held.push(query));
                    } else {
                        assert(self@ =~= held.subrange(1, held.len() as int).push(query));
                    }
                    assert forall|k: int, l: int|
                        0 <= k < l < self.entries@.len() implies (#[trigger] self.entries@[k]).query()
                        != (#[trigger] self.entries@[l]).query() by {
                        let shift: int = if held.len() < self.capacity {
                            0
                        } else {
                            1
                        };
                        assert(self@[k] == self.entries@[k].query());
                        assert(self@[l] == self.entries@[l].query());
                        assert(self@[k] == held[k + shift]);
                        if l == self.entries@.len() - 1 {
                            assert(held.contains(held[k + shift]));
                        } else {
                            assert(self@[l] == held[l + shift]);
                        }
                    }
                }
                rects
            },
        }
    }
}

} // verus!
