//! Highlight colors, settings and circles.

use vstd::prelude::*;

verus! {

/// Which mouse button made a highlight.
#[derive(Debug, Clone, Copy, PartialEq, Eq, Structural, Hash)]
pub enum MouseButton {
    Left,
    Right,
}

/// An ARGB color; alpha 0 disables the highlight it is used for.
#[derive(Debug, Clone, Copy, PartialEq, Eq, Structural)]
pub struct Color {
    pub a: u8,
    pub r: u8,
    pub g: u8,
    pub b: u8,
}

impl Color {
    pub fn new(a: u8, r: u8, g: u8, b: u8) -> (c: Self)
        ensures
            c == (Color { a, r, g, b }),
    {
        Color { a, r, g, b }
    }

    /// Whether the color is fully transparent.
    pub fn is_disabled(&self) -> (d: bool)
        ensures
            d == (self.a == 0),
    {
        self.a == 0
    }
}

/// The highlighter settings.
#[derive(Debug, Clone, Copy, PartialEq, Eq, Structural)]
pub struct Settings {
    pub left_button_color: Color,
    pub right_button_color: Color,
    pub always_color: Color,
    pub radius: i32,
    pub fade_delay_ms: i32,
    pub fade_duration_ms: i32,
    pub auto_activate: bool,
    pub spotlight_mode: bool,
}

impl Default for Settings {
    fn default() -> (s: Self)
        ensures
            s == (Settings {
                left_button_color: Color { a: 166, r: 255, g: 255, b: 0 },
                right_button_color: Color { a: 166, r: 0, g: 0, b: 255 },
                always_color: Color { a: 0, r: 255, g: 0, b: 0 },
                radius: 20,
                fade_delay_ms: 500,
                fade_duration_ms: 250,
                auto_activate: false,
                spotlight_mode: false,
            }),
    {
        Settings {
            left_button_color: Color::new(166, 255, 255, 0),
            right_button_color: Color::new(166, 0, 0, 255),
            always_color: Color::new(0, 255, 0, 0),
            radius: 20,
            fade_delay_ms: 500,
            fade_duration_ms: 250,
            auto_activate: false,
            spotlight_mode: false,
        }
    }
}

/// A highlight circle: where, which button, when it appeared, when it began
/// to fade (none while the button is held), and its color.
#[derive(Debug, Clone, Copy, PartialEq, Eq, Structural)]
pub struct HighlightPoint {
    pub x: i32,
    pub y: i32,
    pub button: MouseButton,
    pub created_at: u64,
    pub fade_started_at: Option<u64>,
    pub color: Color,
}

/// A highlight has faded out once the delay and then the whole fade
/// duration have passed since the button was released.
pub open spec fn expired(p: HighlightPoint, now: u64, delay: u64, duration: u64) -> bool {
    match p.fade_started_at {
        None => false,
        Some(start) => now >= start && now - start >= delay && now - start - delay >= duration,
    }
}

impl HighlightPoint {
    /// Whether the highlight has fully faded out at `now_ms`: its opacity,
    /// 1 until the fade delay has passed after release and then falling
    /// linearly to 0 over the fade duration, has reached 0.
    pub fn is_expired(&self, now_ms: u64, fade_delay_ms: u64, fade_duration_ms: u64) -> (e: bool)
        ensures
            e == expired(*self, now_ms, fade_delay_ms, fade_duration_ms),
    {
        match self.fade_started_at {
            None => false,
            Some(start) => {
                if now_ms < start {
                    return false;
                }
                let elapsed = now_ms - start;
                if elapsed < fade_delay_ms {
                    return false;
                }
                elapsed - fade_delay_ms >= fade_duration_ms
            },
        }
    }
}

/// A highlight that has expired stays expired as time goes on.
pub proof fn lemma_expired_stays(p: HighlightPoint, now: u64, later: u64, delay: u64, duration: u64)
    requires
        expired(p, now, delay, duration),
        now <= later,
    ensures
        expired(p, later, delay, duration),
{
}

} // verus!
