//! Accent picker settings.

use vstd::prelude::*;
use super::state_machine::TriggerKey;
use crate::text::{lowercase_of, to_lowercase};

verus! {

/// Which trigger keys open the accent picker.
#[derive(Debug, Clone, Copy, PartialEq, Eq, Structural)]
pub enum ActivationKey {
    Space,
    LeftRightArrow,
    Both,
}

impl Default for ActivationKey {
    fn default() -> (r: Self)
        ensures
            r == ActivationKey::Both,
    {
        ActivationKey::Both
    }
}

/// Languages whose accents can be offered.
#[derive(Debug, Clone, Copy, PartialEq, Eq, Hash, Structural)]
pub enum Language {
    French,
    Spanish,
    German,
    Portuguese,
    Italian,
    Polish,
    Czech,
    Romanian,
    Swedish,
    Turkish,
    Dutch,
    Hungarian,
    Catalan,
    Croatian,
    Danish,
    Norwegian,
    Welsh,
    Currency,
}

/// Accent picker settings.
#[derive(Debug, Clone)]
pub struct Settings {
    /// Which trigger keys activate accent selection.
    pub activation_key: ActivationKey,
    /// Least hold time (ms) before a release commits the selected accent;
    /// a shorter hold emits the trigger key instead.
    pub input_time_ms: u64,
    /// Languages whose accents are merged.
    pub selected_languages: Vec<Language>,
    /// Executable names for which the picker stays off.
    pub excluded_apps: Vec<String>,
    /// Stay off while game mode is on.
    pub do_not_activate_on_game_mode: bool,
    /// Start selection from the leftmost character.
    pub start_selection_from_left: bool,
    /// Sort accents by recent use.
    pub sort_by_usage_frequency: bool,
}

impl Default for Settings {
    fn default() -> (s: Self)
        ensures
            s.activation_key == ActivationKey::Both,
            s.input_time_ms == 300,
            s.selected_languages@ == seq![Language::French],
            s.excluded_apps@.len() == 0,
            s.do_not_activate_on_game_mode,
            !s.start_selection_from_left,
            !s.sort_by_usage_frequency,
    {
        Settings {
            activation_key: ActivationKey::Both,
            input_time_ms: 300,
            selected_languages: vec![Language::French],
            excluded_apps: Vec::new(),
            do_not_activate_on_game_mode: true,
            start_selection_from_left: false,
            sort_by_usage_frequency: false,
        }
    }
}

/// Whether activation mode `k` lets trigger key `t` open the picker.
pub open spec fn trigger_allowed(k: ActivationKey, t: TriggerKey) -> bool {
    match k {
        ActivationKey::Both => true,
        ActivationKey::Space => t == TriggerKey::Space,
        ActivationKey::LeftRightArrow => t == TriggerKey::Left || t == TriggerKey::Right,
    }
}

impl Settings {
    /// Whether the trigger key is allowed by the activation mode.
    pub fn is_trigger_allowed(&self, trigger: TriggerKey) -> (b: bool)
        ensures
            b == trigger_allowed(self.activation_key, trigger),
    {
        match self.activation_key {
            ActivationKey::Both => true,
            ActivationKey::Space => trigger == TriggerKey::Space,
            ActivationKey::LeftRightArrow => trigger == TriggerKey::Left || trigger == TriggerKey::Right,
        }
    }

    /// Whether the picker may run, given game mode and the foreground
    /// application: off in game mode when so configured, and off for an
    /// excluded application (compared case-insensitively; empty entries are ignored).
    pub fn should_activate(&self, is_game_mode: bool, foreground_app: &str) -> (b: bool)
        ensures
            b == (!(self.do_not_activate_on_game_mode && is_game_mode) && forall|i: int|
                0 <= i < self.excluded_apps@.len() ==> !((#[trigger] self.excluded_apps@[i])@.len() > 0
                    && lowercase_of(foreground_app@) == lowercase_of(self.excluded_apps@[i]@))),
    {
        if self.do_not_activate_on_game_mode && is_game_mode {
            return false;
        }
        let app_lower = to_lowercase(foreground_app);
        let app_chars = crate::text::chars_of(app_lower.as_str());
        let mut i: usize = 0;
        while i < self.excluded_apps.len()
            invariant
                i <= self.excluded_apps@.len(),
                app_chars@ == lowercase_of(foreground_app@),
                forall|k: int|
                    0 <= k < i ==> !((#[trigger] self.excluded_apps@[k])@.len() > 0 && lowercase_of(
                        foreground_app@,
                    ) == lowercase_of(self.excluded_apps@[k]@)),
            decreases self.excluded_apps@.len() - i,
        {
            let excluded = &self.excluded_apps[i];
            let ex_chars = crate::text::chars_of(excluded.as_str());
            if ex_chars.len() > 0 {
                let ex_lower = to_lowercase(excluded.as_str());
                let ex_lower_chars = crate::text::chars_of(ex_lower.as_str());
                if crate::text::chars_eq(&app_chars, &ex_lower_chars) {
                    return false;
                }
            }
            i = i + 1;
        }
        true
    }
}

} // verus!
