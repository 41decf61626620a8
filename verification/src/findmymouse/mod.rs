//! Find-my-mouse: activation detection and settings.

pub mod types;
pub mod detector;
pub mod settings;
pub mod shake_detector;
pub mod activation_guard;
