//! The snapping engine's decisions: application zone history, work areas,
//! dragging and keyboard snapping.

pub mod app_history;
pub mod work_area;
pub mod drag;
pub mod drag_handler;
pub mod keyboard;
pub mod engine;
pub mod window_filter;
