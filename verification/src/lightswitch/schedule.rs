//! Schedule rules: which theme a time of day calls for, and whether a
//! boundary was crossed between two ticks.

use vstd::prelude::*;

verus! {

/// Minutes in a day.
pub const MINUTES_PER_DAY: i32 = 1440;

/// A time in minutes brought into `[0, 1440)`.
pub open spec fn day_minute(m: int) -> int {
    m % 1440
}

/// Whether the theme should be light at `now`, with light starting at
/// `light` and dark at `dark` (all taken modulo a day). When light starts
/// before dark the light span is `[light, dark)`; otherwise it wraps past
/// midnight (and covers the whole day when both are equal).
pub open spec fn light_at(now: int, light: int, dark: int) -> bool {
    let n = day_minute(now);
    let l = day_minute(light);
    let d = day_minute(dark);
    if l < d {
        l <= n && n < d
    } else {
        n >= l || n < d
    }
}

fn normalize(m: i32) -> (r: i32)
    ensures
        r == day_minute(m as int),
        0 <= r < 1440,
{
    let r = ((m % 1440) + 1440) % 1440;
    r
}

/// Whether the theme should be light at `now_minutes`.
pub fn should_be_light(now_minutes: i32, light_time: i32, dark_time: i32) -> (b: bool)
    ensures
        b == light_at(now_minutes as int, light_time as int, dark_time as int),
{
    let now = normalize(now_minutes);
    let light = normalize(light_time);
    let dark = normalize(dark_time);
    if light < dark {
        now >= light && now < dark
    } else {
        now >= light || now < dark
    }
}

/// A moment as the system clock gives it.
#[verifier::external_type_specification]
#[verifier::external_body]
pub struct ExSystemTime(std::time::SystemTime);

/// The current moment, from `SystemTime::now`; nothing is stated of it.
#[verifier::external_body]
fn system_now() -> std::time::SystemTime {
    std::time::SystemTime::now()
}

/// The time since the Unix epoch, from `SystemTime::duration_since`
/// (`None` for a moment before the epoch); nothing more is stated.
#[verifier::external_body]
fn since_epoch(t: &std::time::SystemTime) -> Option<std::time::Duration> {
    t.duration_since(std::time::UNIX_EPOCH).ok()
}

/// The whole seconds of a duration, from `Duration::as_secs`; nothing is
/// stated of them.
#[verifier::external_body]
fn whole_secs(d: &std::time::Duration) -> u64 {
    d.as_secs()
}

/// The time of day (UTC) in minutes since midnight of a moment given in
/// seconds since the Unix epoch.
pub fn minutes_of_day(secs: u64) -> (m: i32)
    ensures
        m == (secs % 86400) / 60,
        0 <= m < 1440,
{
    let day_secs = secs % 86400;
    (day_secs / 60) as i32
}

/// The current time of day (UTC) in minutes since midnight.
pub fn get_now_minutes() -> (m: i32)
    ensures
        0 <= m < 1440,
{
    let secs = match since_epoch(&system_now()) {
        Some(d) => whole_secs(&d),
        None => 0,
    };
    minutes_of_day(secs)
}

/// Whether going from `prev` to `now` passes a boundary. Without a
/// wrap past midnight (`now >= prev`) a boundary `b` is passed when
/// `prev < b <= now`; across midnight every boundary with `prev <= b` or
/// `b <= now` counts.
pub open spec fn crossed(prev: int, now: int, light: int, dark: int) -> bool {
    if now < prev {
        (prev <= light || now >= light) || (prev <= dark || now >= dark)
    } else {
        (prev < light && now >= light) || (prev < dark && now >= dark)
    }
}

/// Whether a light or dark boundary lies between two ticks.
pub fn crossed_boundary(prev: i32, now: i32, effective_light: i32, effective_dark: i32) -> (b: bool)
    ensures
        b == crossed(prev as int, now as int, effective_light as int, effective_dark as int),
{
    if now < prev {
        (prev <= effective_light || now >= effective_light) || (prev <= effective_dark || now
            >= effective_dark)
    } else {
        (prev < effective_light && now >= effective_light) || (prev < effective_dark && now
            >= effective_dark)
    }
}

/// The light span and its complement cover the day: shifting the light and
/// dark times by whole days changes nothing, and swapping them flips the
/// answer whenever they differ.
pub proof fn lemma_light_is_periodic_and_swaps(now: int, light: int, dark: int, k: int)
    ensures
        light_at(now + 1440 * k, light, dark) == light_at(now, light, dark),
        day_minute(light) != day_minute(dark) ==> light_at(now, dark, light) == !light_at(now, light, dark),
{
    assert((now + 1440 * k) % 1440 == now % 1440) by (nonlinear_arith);
}

} // verus!
