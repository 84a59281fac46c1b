//! Sizing rules for the segments of a layout.

use vstd::prelude::*;

verus! {

/// One sizing rule for one segment of a layout axis.
#[derive(Debug, Clone, Copy, PartialEq, Eq, Hash, Structural)]
pub enum Constraint {
    /// Exactly this many cells.
    Length(u16),
    /// This many hundredths of the length to divide.
    Percentage(u16),
    /// The fraction, numerator then denominator, of the length to divide. A
    /// denominator of zero asks for nothing.
    Ratio(u32, u32),
    /// At least this many cells; the segment grows into what the rules of fixed
    /// size leave over.
    Min(u16),
    /// At most this many cells.
    Max(u16),
    /// A weight: what is still free after all other rules is divided among the
    /// `Fill` segments in proportion to their weights.
    Fill(u16),
}

} // verus!
