//! Crosshairs around the mouse cursor: settings and cursor sources.

pub mod types;
pub mod line_calculator;
pub mod settings;
