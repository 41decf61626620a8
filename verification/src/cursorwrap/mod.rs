//! Cursor wrapping across the outer edges of a monitor layout.

pub mod types;
pub mod topology;
pub mod wrap_core;
