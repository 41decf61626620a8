//! Finding the processes that hold files open: path matching and report text.

pub mod handle_info;
pub mod path;
pub mod process;
