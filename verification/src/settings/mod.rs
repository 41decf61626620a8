//! Shared settings helpers: change notification and hotkey and color values.

pub mod file_watcher;
pub mod types;
pub mod document;
