//! Rectangles, sizing constraints and the solver that splits one rectangle into
//! segments along an axis.

pub mod arith;
pub mod cache;
pub mod constraint;
pub mod rect;
pub mod resolve;
pub mod solver;
