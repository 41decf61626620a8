//! Automatic light/dark theme switching: schedule rules, settings and the
//! runtime state machine.

pub mod schedule;
pub mod settings;
pub mod state;
pub mod sun;
