//! Crosshair settings.

use vstd::prelude::*;

verus! {

/// Which crosshair lines are drawn. The variant order gives the codes 0..=2.
#[derive(Debug, Clone, Copy, PartialEq, Eq, Structural)]
pub enum CrosshairsOrientation {
    Both,
    VerticalOnly,
    HorizontalOnly,
}

impl Default for CrosshairsOrientation {
    fn default() -> (o: Self)
        ensures
            o == CrosshairsOrientation::Both,
    {
        CrosshairsOrientation::Both
    }
}

/// An ARGB color.
#[derive(Debug, Clone, Copy, PartialEq, Eq, Structural)]
pub struct Color {
    pub a: u8,
    pub r: u8,
    pub g: u8,
    pub b: u8,
}

/// The crosshair settings.
#[derive(Debug, Clone, Copy, PartialEq, Eq, Structural)]
pub struct Settings {
    pub color: Color,
    pub border_color: Color,
    pub radius: i32,
    pub thickness: i32,
    pub opacity: i32,
    pub border_size: i32,
    pub auto_hide: bool,
    pub is_fixed_length_enabled: bool,
    pub fixed_length: i32,
    pub orientation: CrosshairsOrientation,
    /// The cursor position comes from outside rather than the mouse hook.
    pub external_control: bool,
}

impl Default for Settings {
    fn default() -> (s: Self)
        ensures
            s == (Settings {
                color: Color { a: 255, r: 255, g: 0, b: 0 },
                border_color: Color { a: 255, r: 255, g: 255, b: 255 },
                radius: 20,
                thickness: 5,
                opacity: 75,
                border_size: 1,
                auto_hide: false,
                is_fixed_length_enabled: false,
                fixed_length: 1,
                orientation: CrosshairsOrientation::Both,
                external_control: false,
            }),
    {
        Settings {
            color: Color { a: 255, r: 255, g: 0, b: 0 },
            border_color: Color { a: 255, r: 255, g: 255, b: 255 },
            radius: 20,
            thickness: 5,
            opacity: 75,
            border_size: 1,
            auto_hide: false,
            is_fixed_length_enabled: false,
            fixed_length: 1,
            orientation: CrosshairsOrientation::Both,
            external_control: false,
        }
    }
}

} // verus!
