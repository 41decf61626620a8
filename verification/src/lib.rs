//! Platform-independent logic of several desktop utilities, with contracts
//! proved by Verus.

pub mod text;
pub mod json;
pub mod decimal;
pub mod findmymouse;
pub mod cursorwrap;
pub mod poweraccent;
pub mod lightswitch;
pub mod measuretool;
pub mod filelocksmith;
pub mod fancyzones;
pub mod highlighter;
pub mod crosshairs;
pub mod logger;
pub mod settings;
