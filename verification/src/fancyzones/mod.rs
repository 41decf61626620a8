//! Zone layouts for snapping windows: geometry, layout generation, stored
//! layout data and keyboard navigation between zones.

pub mod rect;
pub mod zone;
pub mod data;
pub mod keyboard_snap;
pub mod util;
pub mod settings;
pub mod layout;
pub mod engine;
