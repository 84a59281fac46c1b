//! The grid of cells that widgets write to, and the comparison of two grids.

pub mod cell;
pub mod diff;
pub mod grid;
