//! Defaults of a layout's settings.

use vstd::prelude::*;

verus! {

pub const ZONE_COUNT: i32 = 3;

pub const SHOW_SPACING: bool = true;

pub const SPACING: i32 = 16;

pub const SENSITIVITY_RADIUS: i32 = 20;

} // verus!
