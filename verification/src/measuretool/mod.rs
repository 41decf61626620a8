//! Screen ruler: pixel-buffer edge detection and settings.

pub mod edge_detector;
pub mod settings;
pub mod types;
pub mod measurement;
