//! Mouse click highlighting: colors, settings and the highlight circles.

pub mod types;
pub mod settings;
pub mod highlight_manager;
