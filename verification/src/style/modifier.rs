//! Text modifiers, kept as a set of bits.

use vstd::prelude::*;

verus! {

pub const BOLD: u16 = 0x001;
pub const DIM: u16 = 0x002;
pub const ITALIC: u16 = 0x004;
pub const UNDERLINED: u16 = 0x008;
pub const SLOW_BLINK: u16 = 0x010;
pub const RAPID_BLINK: u16 = 0x020;
pub const REVERSED: u16 = 0x040;
pub const HIDDEN: u16 = 0x080;
pub const CROSSED_OUT: u16 = 0x100;

/// All the bits that name a modifier.
pub const ALL: u16 = 0x1ff;

/// A set of text modifiers: one bit for each modifier in the set.
#[derive(Debug, Clone, Copy, PartialEq, Eq, Hash, Structural)]
pub struct Modifier {
    pub bits: u16,
}

impl Modifier {
    /// Whether the set holds every modifier of `other`.
    pub open spec fn spec_contains(self, other: Modifier) -> bool {
        self.bits & other.bits == other.bits
    }

    /// The modifiers that are in one of the two sets.
    pub open spec fn spec_union(self, other: Modifier) -> Modifier {
        Modifier { bits: self.bits | other.bits }
    }

    /// The modifiers of this set that are not in `other`.
    pub open spec fn spec_difference(self, other: Modifier) -> Modifier {
        Modifier { bits: self.bits & !other.bits }
    }

    /// The modifiers that are in both sets.
    pub open spec fn spec_intersection(self, other: Modifier) -> Modifier {
        Modifier { bits: self.bits & other.bits }
    }

    /// The set without a modifier.
    pub fn empty() -> (m: Modifier)
        ensures
            m.bits == 0,
    {
        Modifier { bits: 0 }
    }

    /// The set of all modifiers.
    pub fn all() -> (m: Modifier)
        ensures
            m.bits == ALL,
    {
        Modifier { bits: ALL }
    }

    /// The set whose bits are those of `bits` that name a modifier.
    pub fn from_bits(bits: u16) -> (m: Modifier)
        ensures
            m.bits == bits & ALL,
    {
        Modifier { bits: bits & ALL }
    }

    /// The bits of the set.
    pub fn bits(self) -> (bits: u16)
        ensures
            bits == self.bits,
    {
        self.bits
    }

    /// Whether the set holds no modifier.
    pub fn is_empty(self) -> (b: bool)
        ensures
            b == (self.bits == 0),
    {
        self.bits == 0
    }

    /// Whether the set holds every modifier of `other`.
    pub fn contains(self, other: Modifier) -> (b: bool)
        ensures
            b == self.spec_contains(other),
    {
        self.bits & other.bits == other.bits
    }

    /// The modifiers that are in one of the two sets.
    pub fn union(self, other: Modifier) -> (m: Modifier)
        ensures
            m == self.spec_union(other),
    {
        Modifier { bits: self.bits | other.bits }
    }

    /// The modifiers of this set that are not in `other`.
    pub fn difference(self, other: Modifier) -> (m: Modifier)
        ensures
            m == self.spec_difference(other),
    {
        Modifier { bits: self.bits & !other.bits }
    }

    /// The modifiers that are in both sets.
    pub fn intersection(self, other: Modifier) -> (m: Modifier)
        ensures
            m == self.spec_intersection(other),
    {
        Modifier { bits: self.bits & other.bits }
    }

    /// Puts the modifiers of `other` into the set.
    pub fn insert(&mut self, other: Modifier)
        ensures
            *final(self) == old(self).spec_union(other),
    {
        self.bits = self.bits | other.bits;
    }

    /// Takes the modifiers of `other` out of the set.
    pub fn remove(&mut self, other: Modifier)
        ensures
            *final(self) == old(self).spec_difference(other),
    {
        self.bits = self.bits & !other.bits;
    }
}

impl Default for Modifier {
    /// The set without a modifier.
    fn default() -> (m: Modifier)
        ensures
            m.bits == 0,
    {
        Modifier { bits: 0 }
    }
}

/// A union holds both sets, a difference nothing of what was taken away, and
/// what is put in after being taken out is in.
pub proof fn lemma_set_algebra(a: Modifier, b: Modifier)
    ensures
        a.spec_union(b).spec_contains(a),
        a.spec_union(b).spec_contains(b),
        a.spec_difference(b).spec_intersection(b).bits == 0,
        a.spec_contains(a.spec_difference(b)),
        a.spec_difference(b).spec_union(b) == a.spec_union(b),
        a.spec_union(b) == b.spec_union(a),
{
    let x = a.bits;
    let y = b.bits;
    assert((x | y) & x == x) by (bit_vector);
    assert((x | y) & y == y) by (bit_vector);
    assert((x & !y) & y == 0) by (bit_vector);
    assert(x & (x & !y) == x & !y) by (bit_vector);
    assert((x & !y) | y == x | y) by (bit_vector);
    assert(x | y == y | x) by (bit_vector);
}

} // verus!
