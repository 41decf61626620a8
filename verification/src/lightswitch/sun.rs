//! Sunrise and sunset times as hours and minutes.

use vstd::prelude::*;

verus! {

/// Sunrise and sunset of one day.
#[derive(Debug, Clone, Copy, PartialEq, Eq, Structural)]
pub struct SunTimes {
    pub sunrise_hour: i32,
    pub sunrise_minute: i32,
    pub sunset_hour: i32,
    pub sunset_minute: i32,
}

impl SunTimes {
    pub open spec fn sunrise(self) -> int {
        self.sunrise_hour * 60 + self.sunrise_minute
    }

    pub open spec fn sunset(self) -> int {
        self.sunset_hour * 60 + self.sunset_minute
    }

    /// Sunrise in minutes since midnight.
    pub fn sunrise_minutes(&self) -> (m: i32)
        requires
            i32::MIN <= self.sunrise_hour * 60 <= i32::MAX,
            i32::MIN <= self.sunrise() <= i32::MAX,
        ensures
            m == self.sunrise(),
    {
        self.sunrise_hour * 60 + self.sunrise_minute
    }

    /// Sunset in minutes since midnight.
    pub fn sunset_minutes(&self) -> (m: i32)
        requires
            i32::MIN <= self.sunset_hour * 60 <= i32::MAX,
            i32::MIN <= self.sunset() <= i32::MAX,
        ensures
            m == self.sunset(),
    {
        self.sunset_hour * 60 + self.sunset_minute
    }
}

} // verus!
