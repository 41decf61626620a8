//! Core types for the find-my-mouse detector.

use vstd::prelude::*;

verus! {

/// How the spotlight is activated. The variant order gives the numeric
/// codes 0..=3 used in the settings file.
#[derive(Debug, Clone, Copy, PartialEq, Eq, Structural)]
pub enum ActivationMethod {
    DoubleLeftCtrl,
    DoubleRightCtrl,
    ShakeMouse,
    Shortcut,
}

/// The method with the given numeric code, if any.
pub open spec fn activation_method_of_code(value: int) -> Option<ActivationMethod> {
    if value == 0 {
        Some(ActivationMethod::DoubleLeftCtrl)
    } else if value == 1 {
        Some(ActivationMethod::DoubleRightCtrl)
    } else if value == 2 {
        Some(ActivationMethod::ShakeMouse)
    } else if value == 3 {
        Some(ActivationMethod::Shortcut)
    } else {
        None
    }
}

impl ActivationMethod {
    /// Converts a numeric code to an activation method.
    pub fn from_i32(value: i32) -> (res: Option<Self>)
        ensures
            res == activation_method_of_code(value as int),
    {
        match value {
            0 => Some(Self::DoubleLeftCtrl),
            1 => Some(Self::DoubleRightCtrl),
            2 => Some(Self::ShakeMouse),
            3 => Some(Self::Shortcut),
            _ => None,
        }
    }
}

/// States of the double-ctrl-press detector.
#[derive(Debug, Clone, Copy, PartialEq, Eq, Structural)]
pub enum SonarState {
    /// Waiting for a first press.
    Idle,
    /// First ctrl press seen; its time and cursor position are recorded.
    ControlDown1,
    /// First ctrl released; waiting for the second press.
    ControlUp1,
    /// Second press accepted; the spotlight is on.
    ControlDown2,
    /// Second press released; a further press turns the spotlight off.
    ControlUp2,
}

} // verus!

verus! {

/// The find-my-mouse settings.
#[derive(Debug, PartialEq)]
pub struct Settings {
    pub activation_method: ActivationMethod,
    pub include_win_key: bool,
    pub do_not_activate_on_game_mode: bool,
    pub spotlight_radius: i32,
    pub animation_duration_ms: i32,
    pub spotlight_initial_zoom: i32,
    /// ARGB: (alpha, red, green, blue)
    pub background_color: (u8, u8, u8, u8),
    /// ARGB: (alpha, red, green, blue)
    pub spotlight_color: (u8, u8, u8, u8),
    pub shake_minimum_distance: i32,
    pub shake_interval_ms: i32,
    pub shake_factor: i32,
    pub excluded_apps: Vec<String>,
}

/// The default settings, apart from the excluded apps (none).
pub open spec fn default_fields(s: Settings) -> bool {
    &&& s.activation_method == ActivationMethod::DoubleLeftCtrl
    &&& !s.include_win_key
    &&& s.do_not_activate_on_game_mode
    &&& s.spotlight_radius == 100
    &&& s.animation_duration_ms == 500
    &&& s.spotlight_initial_zoom == 9
    &&& s.background_color == (128u8, 0u8, 0u8, 0u8)
    &&& s.spotlight_color == (128u8, 255u8, 255u8, 255u8)
    &&& s.shake_minimum_distance == 1000
    &&& s.shake_interval_ms == 1000
    &&& s.shake_factor == 400
}

impl Default for Settings {
    fn default() -> (s: Self)
        ensures
            default_fields(s),
            s.excluded_apps@.len() == 0,
    {
        Settings {
            activation_method: ActivationMethod::DoubleLeftCtrl,
            include_win_key: false,
            do_not_activate_on_game_mode: true,
            spotlight_radius: 100,
            animation_duration_ms: 500,
            spotlight_initial_zoom: 9,
            background_color: (128, 0, 0, 0),
            spotlight_color: (128, 255, 255, 255),
            shake_minimum_distance: 1000,
            shake_interval_ms: 1000,
            shake_factor: 400,
            excluded_apps: Vec::new(),
        }
    }
}

} // verus!
