//! Accent picker: accent tables, settings and the key-handling state machine.

pub mod accent_map;
pub mod settings;
pub mod state_machine;
