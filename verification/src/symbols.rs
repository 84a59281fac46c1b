//! Symbol tables used to draw boxes and blocks.

pub mod block;
pub mod border;
pub mod line;
