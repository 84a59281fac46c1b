//! Block elements.

use vstd::prelude::*;

verus! {

pub const FULL: &'static str = "█";

} // verus!
