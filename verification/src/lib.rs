//! Rendering core for text-mode user interfaces.

pub mod buffer;
pub mod layout;
pub mod style;
pub mod symbols;
