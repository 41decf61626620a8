//! The theme switching state machine. System access (reading and setting
//! the theme, the clock, the location-based sun times) comes in through
//! the `ThemeProvider` trait that the host implements.

use vstd::prelude::*;
use super::schedule::{crossed, crossed_boundary, light_at, should_be_light};
use super::settings::{LightSwitchConfig, ScheduleMode};
use super::sun::SunTimes;

verus! {

/// What the state machine needs from the system. An implementation records,
/// for the verifier, the themes it was asked to set; the setters take the
/// provider mutably so that each request shows.
pub trait ThemeProvider {
    /// Whether the system theme is light.
    fn get_current_system_theme(&self) -> bool;
    /// Whether the apps theme is light.
    fn get_current_apps_theme(&self) -> bool;
    fn is_night_light_enabled(&self) -> bool;
    /// The themes handed to `set_system_theme` so far, oldest first (`true`
    /// is light).
    spec fn system_theme_requests(&self) -> Seq<bool>;
    /// The themes handed to `set_apps_theme` so far, oldest first.
    spec fn apps_theme_requests(&self) -> Seq<bool>;
    fn set_system_theme(&mut self, is_light: bool)
        ensures
            final(self).system_theme_requests() == old(self).system_theme_requests().push(is_light),
            final(self).apps_theme_requests() == old(self).apps_theme_requests(),
    ;
    fn set_apps_theme(&mut self, is_light: bool)
        ensures
            final(self).apps_theme_requests() == old(self).apps_theme_requests().push(is_light),
            final(self).system_theme_requests() == old(self).system_theme_requests(),
    ;
    /// Whether the clock may read these minutes since midnight now.
    spec fn may_read_time(&self, minutes: i32) -> bool;
    /// Whether the clock may read this day of the month now.
    spec fn may_read_day(&self, day: i32) -> bool;
    /// Whether the clock may read this date, as (year, month, day), now.
    spec fn may_read_date(&self, date: (i32, i32, i32)) -> bool;
    /// Whether this may be the time zone bias now.
    spec fn may_read_bias(&self, bias: i32) -> bool;
    /// Current time in minutes since midnight.
    fn get_now_minutes(&self) -> (m: i32)
        ensures
            self.may_read_time(m),
    ;
    /// Current day of the month.
    fn get_current_day(&self) -> (d: i32)
        ensures
            self.may_read_day(d),
    ;
    /// Time zone bias in minutes (positive when UTC is ahead of local time).
    fn get_timezone_bias_minutes(&self) -> (b: i32)
        ensures
            self.may_read_bias(b),
    ;
    /// Current date as (year, month, day).
    fn get_current_date(&self) -> (d: (i32, i32, i32))
        ensures
            self.may_read_date(d),
    ;
    /// Whether this provider takes the latitude and longitude text for a
    /// usable location.
    spec fn coordinates_valid_of(&self, latitude: Seq<char>, longitude: Seq<char>) -> bool;
    /// The sun times this provider gives for the location, date and time
    /// zone bias.
    spec fn sun_times_of(
        &self,
        latitude: Seq<char>,
        longitude: Seq<char>,
        year: i32,
        month: i32,
        day: i32,
        timezone_bias_minutes: i32,
    ) -> Option<SunTimes>;
    /// Whether the latitude and longitude strings give a usable location.
    fn coordinates_are_valid(&self, latitude: &str, longitude: &str) -> (b: bool)
        ensures
            b == self.coordinates_valid_of(latitude@, longitude@),
    ;
    /// Sunrise and sunset at the location on the given date, if the sun
    /// rises and sets there that day.
    fn sunrise_sunset(&self, latitude: &str, longitude: &str, year: i32, month: i32, day: i32, timezone_bias_minutes: i32) -> (r: Option<SunTimes>)
        ensures
            r == self.sun_times_of(latitude@, longitude@, year, month, day, timezone_bias_minutes),
    ;
}

/// Runtime state (not persisted).
#[derive(Debug, Clone, Copy, PartialEq, Structural)]
pub struct LightSwitchState {
    pub last_applied_mode: ScheduleMode,
    pub is_manual_override: bool,
    pub is_system_light_active: bool,
    pub is_apps_light_active: bool,
    pub is_night_light_active: bool,
    pub last_evaluated_day: i32,
    pub last_tick_minutes: i32,
    pub effective_light_minutes: i32,
    pub effective_dark_minutes: i32,
}

pub open spec fn initial_state() -> LightSwitchState {
    LightSwitchState {
        last_applied_mode: ScheduleMode::Off,
        is_manual_override: false,
        is_system_light_active: false,
        is_apps_light_active: false,
        is_night_light_active: false,
        last_evaluated_day: -1i32,
        last_tick_minutes: -1i32,
        effective_light_minutes: 0i32,
        effective_dark_minutes: 0i32,
    }
}

impl Default for LightSwitchState {
    fn default() -> (s: Self)
        ensures
            s == initial_state(),
    {
        LightSwitchState {
            last_applied_mode: ScheduleMode::Off,
            is_manual_override: false,
            is_system_light_active: false,
            is_apps_light_active: false,
            is_night_light_active: false,
            last_evaluated_day: -1,
            last_tick_minutes: -1,
            effective_light_minutes: 0,
            effective_dark_minutes: 0,
        }
    }
}

/// `v` clamped to the range of `i32`.
pub open spec fn clamp_i32(v: int) -> i32 {
    if v < i32::MIN {
        i32::MIN
    } else if v > i32::MAX {
        i32::MAX
    } else {
        v as i32
    }
}

fn clamped(v: i64) -> (r: i32)
    ensures
        r == clamp_i32(v as int),
{
    if v < i32::MIN as i64 {
        i32::MIN
    } else if v > i32::MAX as i64 {
        i32::MAX
    } else {
        v as i32
    }
}

/// The outcome of one evaluation: the new state, and the theme to set on
/// the system and on apps (`None`: leave alone). After a change the host's
/// themes are read back.
#[derive(Debug, Clone, Copy, PartialEq, Structural)]
pub struct Evaluation {
    pub state: LightSwitchState,
    pub set_system: Option<bool>,
    pub set_apps: Option<bool>,
}

pub open spec fn no_change(s: LightSwitchState) -> Evaluation {
    Evaluation { state: s, set_system: None, set_apps: None }
}

/// The light and dark boundaries for this evaluation. In sunset-to-sunrise
/// mode with a valid location, the sun times are taken on a new day or on
/// entering the mode (sums clamped to `i32`); otherwise the fixed times
/// plus the offsets are used. Fixed-hours mode uses the fixed times.
pub open spec fn with_boundaries(s: LightSwitchState, c: LightSwitchConfig, coords_valid: bool, current_day: i32, sun: Option<SunTimes>) -> LightSwitchState {
    if c.schedule_mode == ScheduleMode::SunsetToSunrise && coords_valid {
        if s.last_evaluated_day != current_day || s.last_applied_mode != ScheduleMode::SunsetToSunrise {
            let s1 = match sun {
                Some(t) => LightSwitchState {
                    effective_light_minutes: clamp_i32(clamp_i32(t.sunrise()) + c.sunrise_offset),
                    effective_dark_minutes: clamp_i32(clamp_i32(t.sunset()) + c.sunset_offset),
                    ..s
                },
                None => s,
            };
            LightSwitchState { last_evaluated_day: current_day, ..s1 }
        } else {
            LightSwitchState {
                effective_light_minutes: clamp_i32(c.light_time + c.sunrise_offset),
                effective_dark_minutes: clamp_i32(c.dark_time + c.sunset_offset),
                ..s
            }
        }
    } else if c.schedule_mode == ScheduleMode::FixedHours {
        LightSwitchState { effective_light_minutes: c.light_time, effective_dark_minutes: c.dark_time, ..s }
    } else {
        s
    }
}

/// One evaluation at time `now`. `Off` only records the tick. A manual
/// override holds the current themes until a boundary is crossed. Otherwise
/// the target theme (the opposite of night light in follow-night-light mode,
/// the schedule elsewhere) is set wherever it is enabled and differs.
pub open spec fn evaluation(s: LightSwitchState, c: LightSwitchConfig, now: i32, coords_valid: bool, current_day: i32, sun: Option<SunTimes>) -> Evaluation {
    if c.schedule_mode == ScheduleMode::Off {
        no_change(LightSwitchState { last_tick_minutes: now, ..s })
    } else {
        let s1 = with_boundaries(s, c, coords_valid, current_day, sun);
        if s1.is_manual_override && (s1.last_tick_minutes == -1 || !crossed(
            s1.last_tick_minutes as int,
            now as int,
            s1.effective_light_minutes as int,
            s1.effective_dark_minutes as int,
        )) {
            no_change(LightSwitchState { last_tick_minutes: now, ..s1 })
        } else {
            let s2 = LightSwitchState { is_manual_override: false, last_applied_mode: c.schedule_mode, ..s1 };
            let light = if c.schedule_mode == ScheduleMode::FollowNightLight {
                !s2.is_night_light_active
            } else {
                light_at(now as int, s2.effective_light_minutes as int, s2.effective_dark_minutes as int)
            };
            let apps_change = c.change_apps && s2.is_apps_light_active != light;
            let system_change = c.change_system && s2.is_system_light_active != light;
            Evaluation {
                state: LightSwitchState { last_tick_minutes: now, ..s2 },
                set_system: if system_change {
                    Some(light)
                } else {
                    None
                },
                set_apps: if apps_change {
                    Some(light)
                } else {
                    None
                },
            }
        }
    }
}

/// The state after an evaluation once the themes were read back (only
/// when something was set).
pub open spec fn after_apply(e: Evaluation, system_now: bool, apps_now: bool) -> LightSwitchState {
    if e.set_system is Some || e.set_apps is Some {
        LightSwitchState { is_system_light_active: system_now, is_apps_light_active: apps_now, ..e.state }
    } else {
        e.state
    }
}

/// The themes requested so far from a provider: system, then apps.
pub open spec fn requests<P: ThemeProvider>(p: P) -> (Seq<bool>, Seq<bool>) {
    (p.system_theme_requests(), p.apps_theme_requests())
}

/// The requests after handing over a theme, if there is one to set.
pub open spec fn requested(prev: Seq<bool>, x: Option<bool>) -> Seq<bool> {
    match x {
        Some(b) => prev.push(b),
        None => prev,
    }
}

/// Whether an evaluation asks for the sun times: in sunset-to-sunrise mode
/// with a valid location, on a new day or on entering the mode.
pub open spec fn needs_sun_times(s: LightSwitchState, c: LightSwitchConfig, coords_valid: bool, day: i32) -> bool {
    &&& c.schedule_mode == ScheduleMode::SunsetToSunrise
    &&& coords_valid
    &&& (s.last_evaluated_day != day || s.last_applied_mode != ScheduleMode::SunsetToSunrise)
}

/// Whether the provider takes the configured location as usable; never
/// asked in `Off` mode.
pub open spec fn coords_of<P: ThemeProvider>(p: P, c: LightSwitchConfig) -> bool {
    c.schedule_mode != ScheduleMode::Off && p.coordinates_valid_of(c.latitude@, c.longitude@)
}

/// The sun times an evaluation uses: the provider's for the configured
/// location on the given date and bias when they are asked for, else none.
pub open spec fn sun_of<P: ThemeProvider>(
    p: P,
    s: LightSwitchState,
    c: LightSwitchConfig,
    day: i32,
    date: (i32, i32, i32),
    bias: i32,
) -> Option<SunTimes> {
    if needs_sun_times(s, c, coords_of(p, c), day) {
        p.sun_times_of(c.latitude@, c.longitude@, date.0, date.1, date.2, bias)
    } else {
        None
    }
}

/// An evaluation from state `s` with provider `p` ends in `result`, and
/// exactly the themes it calls for are handed to the provider, whose
/// requests end at `after`. The location is judged by the provider on the
/// configured latitude and longitude (outside `Off` mode), and the sun times
/// are the provider's for that location, on the date and time zone bias it
/// reports, whenever they are asked for. The readings of the clock (time,
/// day, date, bias) are ones the provider may give; which ones it gave, and
/// the themes read back, stay open.
pub open spec fn evaluates_to<P: ThemeProvider>(
    s: LightSwitchState,
    c: LightSwitchConfig,
    result: LightSwitchState,
    p: P,
    after: (Seq<bool>, Seq<bool>),
) -> bool {
    exists|now: i32, day: i32, date: (i32, i32, i32), bias: i32, system_now: bool, apps_now: bool|
        {
            &&& p.may_read_time(now)
            &&& (c.schedule_mode == ScheduleMode::SunsetToSunrise && coords_of(p, c)) ==> p.may_read_day(day)
            &&& needs_sun_times(s, c, coords_of(p, c), day) ==> p.may_read_date(date) && p.may_read_bias(bias)
            &&& result == #[trigger] after_apply(
                evaluation(s, c, now, coords_of(p, c), day, sun_of(p, s, c, day, date, bias)),
                system_now,
                apps_now,
            )
            &&& after.0 == requested(
                requests(p).0,
                evaluation(s, c, now, coords_of(p, c), day, sun_of(p, s, c, day, date, bias)).set_system,
            )
            &&& after.1 == requested(
                requests(p).1,
                evaluation(s, c, now, coords_of(p, c), day, sun_of(p, s, c, day, date, bias)).set_apps,
            )
        }
}

/// Computes one evaluation from the values read from the system.
pub fn evaluate(state: LightSwitchState, config: &LightSwitchConfig, now: i32, coords_valid: bool, current_day: i32, sun: Option<SunTimes>) -> (e: Evaluation)
    ensures
        e == evaluation(state, *config, now, coords_valid, current_day, sun),
{
    let mut s = state;
    if config.schedule_mode == ScheduleMode::Off {
        s.last_tick_minutes = now;
        return Evaluation { state: s, set_system: None, set_apps: None };
    }
    if config.schedule_mode == ScheduleMode::SunsetToSunrise && coords_valid {
        if s.last_evaluated_day != current_day || s.last_applied_mode != ScheduleMode::SunsetToSunrise {
            if let Some(t) = sun {
                let rise = clamped(t.sunrise_hour as i64 * 60 + t.sunrise_minute as i64);
                let set = clamped(t.sunset_hour as i64 * 60 + t.sunset_minute as i64);
                s.effective_light_minutes = clamped(rise as i64 + config.sunrise_offset as i64);
                s.effective_dark_minutes = clamped(set as i64 + config.sunset_offset as i64);
            }
            s.last_evaluated_day = current_day;
        } else {
            s.effective_light_minutes = clamped(config.light_time as i64 + config.sunrise_offset as i64);
            s.effective_dark_minutes = clamped(config.dark_time as i64 + config.sunset_offset as i64);
        }
    } else if config.schedule_mode == ScheduleMode::FixedHours {
        s.effective_light_minutes = config.light_time;
        s.effective_dark_minutes = config.dark_time;
    }
    if s.is_manual_override {
        if s.last_tick_minutes != -1 {
            let c = crossed_boundary(s.last_tick_minutes, now, s.effective_light_minutes, s.effective_dark_minutes);
            if c {
                s.is_manual_override = false;
            } else {
                s.last_tick_minutes = now;
                return Evaluation { state: s, set_system: None, set_apps: None };
            }
        } else {
            s.last_tick_minutes = now;
            return Evaluation { state: s, set_system: None, set_apps: None };
        }
    }
    s.last_applied_mode = config.schedule_mode;
    let light = if config.schedule_mode == ScheduleMode::FollowNightLight {
        !s.is_night_light_active
    } else {
        should_be_light(now, s.effective_light_minutes, s.effective_dark_minutes)
    };
    let apps_change = config.change_apps && (s.is_apps_light_active != light);
    let system_change = config.change_system && (s.is_system_light_active != light);
    s.last_tick_minutes = now;
    Evaluation {
        state: s,
        set_system: if system_change {
            Some(light)
        } else {
            None
        },
        set_apps: if apps_change {
            Some(light)
        } else {
            None
        },
    }
}

/// The state with the system's themes and night light taken in.
pub open spec fn synced(s: LightSwitchState, system: bool, apps: bool, night: bool) -> LightSwitchState {
    LightSwitchState { is_system_light_active: system, is_apps_light_active: apps, is_night_light_active: night, ..s }
}

/// The state with a manual override turned on and the current themes taken in.
pub open spec fn override_taken(s: LightSwitchState, system: bool, apps: bool) -> LightSwitchState {
    LightSwitchState { is_manual_override: true, is_system_light_active: system, is_apps_light_active: apps, ..s }
}

/// The state with a new night light value; an override ends if the last
/// applied mode follows night light.
pub open spec fn night_light_changed(s: LightSwitchState, night: bool) -> LightSwitchState {
    LightSwitchState {
        is_night_light_active: night,
        is_manual_override: s.is_manual_override && s.last_applied_mode != ScheduleMode::FollowNightLight,
        ..s
    }
}

/// Drives theme switching.
pub struct StateManager {
    state: LightSwitchState,
}

impl View for StateManager {
    type V = LightSwitchState;

    closed spec fn view(&self) -> LightSwitchState {
        self.state
    }
}

impl StateManager {
    pub fn new() -> (m: Self)
        ensures
            m@ == initial_state(),
    {
        StateManager { state: LightSwitchState::default() }
    }

    pub fn state(&self) -> (s: &LightSwitchState)
        ensures
            *s == self@,
    {
        &self.state
    }

    /// At startup: takes the current themes and night light from the system, then evaluates.
    pub fn sync_initial_theme_state<P: ThemeProvider>(&mut self, config: &LightSwitchConfig, provider: &mut P)
        ensures
            exists|system: bool, apps: bool, night: bool|
                #[trigger] evaluates_to(
                    synced(old(self)@, system, apps, night),
                    *config,
                    final(self)@,
                    *old(provider),
                    requests(*final(provider)),
                ),
    {
        self.state.is_system_light_active = provider.get_current_system_theme();
        self.state.is_apps_light_active = provider.get_current_apps_theme();
        self.state.is_night_light_active = provider.is_night_light_enabled();
        let ghost mid = self@;
        proof {
            assert(mid == synced(old(self)@, mid.is_system_light_active, mid.is_apps_light_active, mid.is_night_light_active));
        }
        self.evaluate_and_apply(config, provider);
        proof {
            assert(evaluates_to(synced(old(self)@, mid.is_system_light_active, mid.is_apps_light_active, mid.is_night_light_active), *config, self@, *old(provider), requests(*provider)));
        }
    }

    /// After the settings change: drops any manual override, then evaluates.
    pub fn on_settings_changed<P: ThemeProvider>(&mut self, config: &LightSwitchConfig, provider: &mut P)
        ensures
            evaluates_to(LightSwitchState { is_manual_override: false, ..old(self)@ }, *config, final(self)@, *old(provider), requests(*final(provider))),
    {
        if self.state.is_manual_override {
            self.state.is_manual_override = false;
        }
        self.evaluate_and_apply(config, provider);
    }

    /// Every minute: evaluates, unless the last applied mode follows night light.
    pub fn on_tick<P: ThemeProvider>(&mut self, config: &LightSwitchConfig, provider: &mut P)
        ensures
            old(self)@.last_applied_mode == ScheduleMode::FollowNightLight ==> final(self)@ == old(self)@ && requests(
                *final(provider),
            ) == requests(*old(provider)),
            old(self)@.last_applied_mode != ScheduleMode::FollowNightLight ==> evaluates_to(old(self)@, *config, final(self)@, *old(provider), requests(*final(provider))),
    {
        if self.state.last_applied_mode != ScheduleMode::FollowNightLight {
            self.evaluate_and_apply(config, provider);
        }
    }

    /// The user switched the theme by hand: toggles the override (taking the
    /// current themes when it turns on), then evaluates.
    pub fn on_manual_override<P: ThemeProvider>(&mut self, config: &LightSwitchConfig, provider: &mut P)
        ensures
            !old(self)@.is_manual_override ==> exists|system: bool, apps: bool|
                #[trigger] evaluates_to(
                    override_taken(old(self)@, system, apps),
                    *config,
                    final(self)@,
                    *old(provider),
                    requests(*final(provider)),
                ),
            old(self)@.is_manual_override ==> evaluates_to(LightSwitchState { is_manual_override: false, ..old(self)@ }, *config, final(self)@, *old(provider), requests(*final(provider))),
    {
        self.state.is_manual_override = !self.state.is_manual_override;
        if self.state.is_manual_override {
            self.state.is_system_light_active = provider.get_current_system_theme();
            self.state.is_apps_light_active = provider.get_current_apps_theme();
        }
        let ghost mid = self@;
        self.evaluate_and_apply(config, provider);
        proof {
            if !old(self)@.is_manual_override {
                assert(mid == override_taken(old(self)@, mid.is_system_light_active, mid.is_apps_light_active));
                assert(evaluates_to(override_taken(old(self)@, mid.is_system_light_active, mid.is_apps_light_active), *config, self@, *old(provider), requests(*provider)));
            }
        }
    }

    /// Night light changed: takes its new state (dropping an override in
    /// follow-night-light mode), then evaluates.
    pub fn on_night_light_change<P: ThemeProvider>(&mut self, config: &LightSwitchConfig, provider: &mut P)
        ensures
            exists|night: bool|
                #[trigger] evaluates_to(
                    night_light_changed(old(self)@, night),
                    *config,
                    final(self)@,
                    *old(provider),
                    requests(*final(provider)),
                ),
    {
        let new_state = provider.is_night_light_enabled();
        if self.state.last_applied_mode == ScheduleMode::FollowNightLight && self.state.is_manual_override {
            self.state.is_manual_override = false;
        }
        self.state.is_night_light_active = new_state;
        let ghost mid = self@;
        proof {
            assert(mid == night_light_changed(old(self)@, new_state));
        }
        self.evaluate_and_apply(config, provider);
        proof {
            assert(evaluates_to(night_light_changed(old(self)@, new_state), *config, self@, *old(provider), requests(*provider)));
        }
    }

    fn evaluate_and_apply<P: ThemeProvider>(&mut self, config: &LightSwitchConfig, provider: &mut P)
        ensures
            evaluates_to(old(self)@, *config, final(self)@, *old(provider), requests(*final(provider))),
    {
        let now = provider.get_now_minutes();
        let mut coords_valid = false;
        let mut current_day: i32 = 0;
        let mut sun: Option<SunTimes> = None;
        let mut date: (i32, i32, i32) = (0, 0, 0);
        let mut bias: i32 = 0;
        if config.schedule_mode != ScheduleMode::Off {
            coords_valid = provider.coordinates_are_valid(config.latitude.as_str(), config.longitude.as_str());
            if config.schedule_mode == ScheduleMode::SunsetToSunrise && coords_valid {
                current_day = provider.get_current_day();
                if self.state.last_evaluated_day != current_day || self.state.last_applied_mode
                    != ScheduleMode::SunsetToSunrise {
                    date = provider.get_current_date();
                    bias = provider.get_timezone_bias_minutes();
                    sun = provider.sunrise_sunset(
                        config.latitude.as_str(),
                        config.longitude.as_str(),
                        date.0,
                        date.1,
                        date.2,
                        bias,
                    );
                }
            }
        }
        proof {
            assert(coords_valid == coords_of(*old(provider), *config));
            assert(sun == sun_of(*old(provider), self@, *config, current_day, date, bias));
        }
        let e = evaluate(self.state, config, now, coords_valid, current_day, sun);
        let ghost start = requests(*provider);
        assert(start == requests(*old(provider)));
        let mut s = e.state;
        let mut system_now = false;
        let mut apps_now = false;
        if e.set_system.is_some() || e.set_apps.is_some() {
            if let Some(light) = e.set_system {
                provider.set_system_theme(light);
            }
            if let Some(light) = e.set_apps {
                provider.set_apps_theme(light);
            }
            system_now = provider.get_current_system_theme();
            apps_now = provider.get_current_apps_theme();
            s.is_system_light_active = system_now;
            s.is_apps_light_active = apps_now;
        }
        proof {
            let ev = evaluation(old(self)@, *config, now, coords_valid, current_day, sun);
            assert(s == after_apply(ev, system_now, apps_now));
            assert(requests(*provider).0 == requested(requests(*old(provider)).0, ev.set_system));
            assert(requests(*provider).1 == requested(requests(*old(provider)).1, ev.set_apps));
            assert(after_apply(
                evaluation(
                    old(self)@,
                    *config,
                    now,
                    coords_of(*old(provider), *config),
                    current_day,
                    sun_of(*old(provider), old(self)@, *config, current_day, date, bias),
                ),
                system_now,
                apps_now,
            ) == s);
        }
        self.state = s;
    }
}

/// While a manual override is on and no boundary is crossed, an evaluation
/// never changes a theme.
pub proof fn lemma_override_holds_themes(s: LightSwitchState, c: LightSwitchConfig, now: i32, coords_valid: bool, day: i32, sun: Option<SunTimes>)
    requires
        c.schedule_mode != ScheduleMode::Off,
        s.is_manual_override,
        s.last_tick_minutes == -1 || !crossed(
            s.last_tick_minutes as int,
            now as int,
            with_boundaries(s, c, coords_valid, day, sun).effective_light_minutes as int,
            with_boundaries(s, c, coords_valid, day, sun).effective_dark_minutes as int,
        ),
    ensures
        evaluation(s, c, now, coords_valid, day, sun).set_system is None,
        evaluation(s, c, now, coords_valid, day, sun).set_apps is None,
        evaluation(s, c, now, coords_valid, day, sun).state.is_manual_override,
{
}

/// A theme is only ever set to the target theme, and only where switching
/// is enabled and the current theme differs from it.
pub proof fn lemma_sets_only_differing_enabled(s: LightSwitchState, c: LightSwitchConfig, now: i32, coords_valid: bool, day: i32, sun: Option<SunTimes>)
    ensures
        evaluation(s, c, now, coords_valid, day, sun).set_system matches Some(l) ==> c.change_system
            && with_boundaries(s, c, coords_valid, day, sun).is_system_light_active != l,
        evaluation(s, c, now, coords_valid, day, sun).set_apps matches Some(l) ==> c.change_apps
            && with_boundaries(s, c, coords_valid, day, sun).is_apps_light_active != l,
        evaluation(s, c, now, coords_valid, day, sun).state.last_tick_minutes == now,
{
}

} // verus!

verus! {

/// The boundaries an evaluation works with. In sunset-to-sunrise mode with a
/// valid location, on a new day or on entering the mode, light begins at
/// sunrise plus the sunrise offset and dark at sunset plus the sunset offset
/// (in minutes, when these fit in `i32`), and the day is remembered; with no
/// sun times the previous boundaries stay. On a later evaluation the same
/// day, or without a valid location, the fixed times plus the offsets are
/// used. In fixed-hours mode the fixed times are used as they are.
pub proof fn lemma_boundaries(s: LightSwitchState, c: LightSwitchConfig, now: i32, coords_valid: bool, day: i32, sun: Option<SunTimes>)
    ensures
        ({
            let st = evaluation(s, c, now, coords_valid, day, sun).state;
            let new_day = s.last_evaluated_day != day || s.last_applied_mode != ScheduleMode::SunsetToSunrise;
            &&& c.schedule_mode == ScheduleMode::SunsetToSunrise && coords_valid && new_day ==> {
                &&& st.last_evaluated_day == day
                &&& sun matches Some(t) ==> {
                    let rise = t.sunrise_hour * 60 + t.sunrise_minute;
                    let set = t.sunset_hour * 60 + t.sunset_minute;
                    &&& i32::MIN <= rise <= i32::MAX && i32::MIN <= rise + c.sunrise_offset <= i32::MAX
                        ==> st.effective_light_minutes == rise + c.sunrise_offset
                    &&& i32::MIN <= set <= i32::MAX && i32::MIN <= set + c.sunset_offset <= i32::MAX
                        ==> st.effective_dark_minutes == set + c.sunset_offset
                }
                &&& sun is None ==> st.effective_light_minutes == s.effective_light_minutes
                    && st.effective_dark_minutes == s.effective_dark_minutes
            }
            &&& c.schedule_mode == ScheduleMode::SunsetToSunrise && coords_valid && !new_day ==> {
                &&& i32::MIN <= c.light_time + c.sunrise_offset <= i32::MAX ==> st.effective_light_minutes
                    == c.light_time + c.sunrise_offset
                &&& i32::MIN <= c.dark_time + c.sunset_offset <= i32::MAX ==> st.effective_dark_minutes
                    == c.dark_time + c.sunset_offset
            }
            &&& c.schedule_mode == ScheduleMode::FixedHours ==> st.effective_light_minutes == c.light_time
                && st.effective_dark_minutes == c.dark_time
        }),
{
}

} // verus!

verus! {

/// Without a manual override, an evaluation in a scheduled mode sets each
/// enabled theme that differs from the target to the target: light exactly
/// when the time of day lies in the light span from the light boundary up
/// to the dark boundary (wrapping past midnight when light starts later
/// than dark); in follow-night-light mode light exactly when night light is
/// off. The manual override is then off and the mode is remembered.
pub proof fn lemma_target_theme(s: LightSwitchState, c: LightSwitchConfig, now: i32, coords_valid: bool, day: i32, sun: Option<SunTimes>)
    requires
        c.schedule_mode != ScheduleMode::Off,
        !s.is_manual_override,
    ensures
        ({
            let e = evaluation(s, c, now, coords_valid, day, sun);
            let n = now as int % 1440;
            let l = e.state.effective_light_minutes as int % 1440;
            let d = e.state.effective_dark_minutes as int % 1440;
            let target = if c.schedule_mode == ScheduleMode::FollowNightLight {
                !s.is_night_light_active
            } else if l < d {
                l <= n && n < d
            } else {
                n >= l || n < d
            };
            &&& e.set_system == (if c.change_system && s.is_system_light_active != target {
                Some(target)
            } else {
                None
            })
            &&& e.set_apps == (if c.change_apps && s.is_apps_light_active != target {
                Some(target)
            } else {
                None
            })
            &&& !e.state.is_manual_override
            &&& e.state.last_applied_mode == c.schedule_mode
            &&& e.state.last_tick_minutes == now
        }),
{
}

} // verus!
