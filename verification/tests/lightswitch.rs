use std::cell::Cell;
use powertoys_core::lightswitch::schedule::{MINUTES_PER_DAY, crossed_boundary, get_now_minutes, minutes_of_day, should_be_light};
use powertoys_core::lightswitch::settings::{LightSwitchConfig, ScheduleMode};
use powertoys_core::lightswitch::state::{Evaluation, LightSwitchState, StateManager, ThemeProvider, evaluate};
use powertoys_core::lightswitch::sun::{SunTimes};

// ── should_be_light ──

#[test]
fn normal_range_morning() {
    // 08:00–20:00 light, at 10:00 → light
    assert!(should_be_light(600, 480, 1200));
}

#[test]
fn normal_range_evening() {
    // 08:00–20:00 light, at 21:00 → dark
    assert!(!should_be_light(1260, 480, 1200));
}

#[test]
fn normal_range_at_light_boundary() {
    // Exactly at light start → light
    assert!(should_be_light(480, 480, 1200));
}

#[test]
fn normal_range_at_dark_boundary() {
    // Exactly at dark start → dark
    assert!(!should_be_light(1200, 480, 1200));
}

#[test]
fn normal_range_midnight() {
    // At midnight (0) with 08:00-20:00 → dark
    assert!(!should_be_light(0, 480, 1200));
}

#[test]
fn wraparound_range_evening() {
    // Light from 20:00, dark from 08:00 (inverted)
    // At 21:00 → light
    assert!(should_be_light(1260, 1200, 480));
}

#[test]
fn wraparound_range_morning() {
    // Light from 20:00, dark from 08:00
    // At 03:00 → light (between midnight and dark)
    assert!(should_be_light(180, 1200, 480));
}

#[test]
fn wraparound_range_afternoon() {
    // Light from 20:00, dark from 08:00
    // At 12:00 → dark
    assert!(!should_be_light(720, 1200, 480));
}

#[test]
fn equal_times_always_dark() {
    // Same time for light and dark → wraparound case, always light
    // When light == dark, the `light < dark` branch is false,
    // so we hit wraparound: now >= light || now < dark → always true
    assert!(should_be_light(0, 480, 480));
    assert!(should_be_light(720, 480, 480));
}

#[test]
fn negative_normalization() {
    // Negative time values should normalize correctly
    assert!(should_be_light(-60, 1380, 480)); // -60 → 1380, should be light (1380–480 wrap)
}

#[test]
fn large_values_normalize() {
    // 1500 minutes = 25 hours → normalizes to 60 min = 01:00
    assert!(!should_be_light(1500, 480, 1200)); // 01:00, dark in 08:00–20:00
}

// ── crossed_boundary ──

#[test]
fn no_boundary_crossed() {
    assert!(!crossed_boundary(470, 475, 480, 1200));
}

#[test]
fn light_boundary_crossed() {
    assert!(crossed_boundary(479, 481, 480, 1200));
}

#[test]
fn dark_boundary_crossed() {
    assert!(crossed_boundary(1199, 1201, 480, 1200));
}

#[test]
fn midnight_wraparound_crosses_light() {
    // prev=1430 (23:50), now=10 (00:10), light at 0 (00:00)
    assert!(crossed_boundary(1430, 10, 0, 1200));
}

#[test]
fn no_crossing_same_time() {
    assert!(!crossed_boundary(480, 480, 480, 1200));
}

// ── coordinates_are_valid ──











// ── get_now_minutes ──

#[test]
fn now_minutes_in_range() {
    let m = get_now_minutes();
    assert!(m >= 0 && m < 1440);
}


#[test]
fn schedule_mode_from_str() {
    assert_eq!(ScheduleMode::from_str("FixedHours"), ScheduleMode::FixedHours);
    assert_eq!(ScheduleMode::from_str("SunsetToSunrise"), ScheduleMode::SunsetToSunrise);
    assert_eq!(ScheduleMode::from_str("FollowNightLight"), ScheduleMode::FollowNightLight);
    assert_eq!(ScheduleMode::from_str("Off"), ScheduleMode::Off);
    assert_eq!(ScheduleMode::from_str("invalid"), ScheduleMode::Off);
    assert_eq!(ScheduleMode::from_str(""), ScheduleMode::Off);
}

#[test]
fn schedule_mode_roundtrip() {
    for mode in [ScheduleMode::Off, ScheduleMode::FixedHours, ScheduleMode::SunsetToSunrise, ScheduleMode::FollowNightLight] {
        assert_eq!(ScheduleMode::from_str(mode.as_str()), mode);
    }
}

#[test]
fn default_config() {
    let c = LightSwitchConfig::default();
    assert_eq!(c.schedule_mode, ScheduleMode::FixedHours);
    assert_eq!(c.light_time, 480);
    assert_eq!(c.dark_time, 1200);
    assert_eq!(c.latitude, "0.0");
    assert_eq!(c.longitude, "0.0");
    assert!(!c.change_system);
    assert!(!c.change_apps);
}

/// Mock theme provider for testing.
struct MockProvider {
    system_light: Cell<bool>,
    apps_light: Cell<bool>,
    night_light: bool,
    now_minutes: i32,
    current_day: i32,
    timezone_bias: i32,
    date: (i32, i32, i32),
}

impl MockProvider {
    fn new(now: i32) -> Self {
        Self {
            system_light: Cell::new(true),
            apps_light: Cell::new(true),
            night_light: false,
            now_minutes: now,
            current_day: 1,
            timezone_bias: 300, // EST (Windows convention: positive = minutes UTC ahead of local)
            date: (2024, 6, 21),
        }
    }
}

impl ThemeProvider for MockProvider {
    // These only describe the provider to the verifier; nothing calls them
    // when the program runs.
    fn system_theme_requests(&self) -> vstd::seq::Seq<bool> {
        unreachable!()
    }
    fn apps_theme_requests(&self) -> vstd::seq::Seq<bool> {
        unreachable!()
    }
    fn may_read_time(&self, _minutes: i32) -> bool {
        unreachable!()
    }
    fn may_read_day(&self, _day: i32) -> bool {
        unreachable!()
    }
    fn may_read_date(&self, _date: (i32, i32, i32)) -> bool {
        unreachable!()
    }
    fn may_read_bias(&self, _bias: i32) -> bool {
        unreachable!()
    }
    fn coordinates_valid_of(&self, _latitude: vstd::seq::Seq<char>, _longitude: vstd::seq::Seq<char>) -> bool {
        unreachable!()
    }
    fn sun_times_of(
        &self,
        _latitude: vstd::seq::Seq<char>,
        _longitude: vstd::seq::Seq<char>,
        _year: i32,
        _month: i32,
        _day: i32,
        _bias: i32,
    ) -> Option<SunTimes> {
        unreachable!()
    }
    fn get_current_system_theme(&self) -> bool {
        self.system_light.get()
    }
    fn get_current_apps_theme(&self) -> bool {
        self.apps_light.get()
    }
    fn is_night_light_enabled(&self) -> bool {
        self.night_light
    }
    fn set_system_theme(&mut self, is_light: bool) {
        self.system_light.set(is_light);
    }
    fn set_apps_theme(&mut self, is_light: bool) {
        self.apps_light.set(is_light);
    }
    fn get_now_minutes(&self) -> i32 {
        self.now_minutes
    }
    fn get_current_day(&self) -> i32 {
        self.current_day
    }
    fn get_timezone_bias_minutes(&self) -> i32 {
        self.timezone_bias
    }
    fn get_current_date(&self) -> (i32, i32, i32) {
        self.date
    }
    fn coordinates_are_valid(&self, _latitude: &str, _longitude: &str) -> bool {
        false
    }
    fn sunrise_sunset(&self, _latitude: &str, _longitude: &str, _year: i32, _month: i32, _day: i32, _bias: i32) -> Option<SunTimes> {
        None
    }
}

fn fixed_hours_config(change_system: bool, change_apps: bool) -> LightSwitchConfig {
    LightSwitchConfig {
        schedule_mode: ScheduleMode::FixedHours,
        light_time: 480,  // 08:00
        dark_time: 1200,  // 20:00
        change_system,
        change_apps,
        ..LightSwitchConfig::default()
    }
}

#[test]
fn initial_state_is_default() {
    let sm = StateManager::new();
    assert_eq!(sm.state().last_applied_mode, ScheduleMode::Off);
    assert!(!sm.state().is_manual_override);
}

#[test]
fn off_mode_does_nothing() {
    let mut sm = StateManager::new();
    let config = LightSwitchConfig {
        schedule_mode: ScheduleMode::Off,
        ..LightSwitchConfig::default()
    };
    let mut provider = MockProvider::new(600);
    provider.system_light.set(false);

    sm.on_tick(&config, &mut provider);
    // Theme should not change.
    assert!(!provider.get_current_system_theme());
}

#[test]
fn fixed_hours_applies_light_during_day() {
    let mut sm = StateManager::new();
    let config = fixed_hours_config(true, false);
    let mut provider = MockProvider::new(600); // 10:00 → should be light
    provider.system_light.set(false); // Currently dark

    sm.on_tick(&config, &mut provider);
    assert!(provider.get_current_system_theme()); // Changed to light
}

#[test]
fn fixed_hours_applies_dark_at_night() {
    let mut sm = StateManager::new();
    let config = fixed_hours_config(true, false);
    let mut provider = MockProvider::new(1300); // 21:40 → should be dark
    provider.system_light.set(true); // Currently light

    sm.sync_initial_theme_state(&config, &mut provider);
    // sync_initial already applies, but let's verify:
    assert!(!provider.get_current_system_theme()); // Changed to dark
}

#[test]
fn follow_night_light_mode() {
    let mut sm = StateManager::new();
    let config = LightSwitchConfig {
        schedule_mode: ScheduleMode::FollowNightLight,
        change_system: true,
        ..LightSwitchConfig::default()
    };
    let mut provider = MockProvider {
        night_light: true, // Night Light ON → dark mode
        ..MockProvider::new(600)
    };
    provider.system_light.set(true); // Currently light

    sm.sync_initial_theme_state(&config, &mut provider);
    assert!(!provider.get_current_system_theme()); // Changed to dark
}

#[test]
fn manual_override_blocks_changes() {
    let mut sm = StateManager::new();
    let config = fixed_hours_config(true, false);

    // Set up: it's daytime (10:00), system is dark.
    let mut provider = MockProvider::new(600);
    provider.system_light.set(false);

    // First tick applies light theme.
    sm.on_tick(&config, &mut provider);
    assert!(provider.get_current_system_theme());

    // User triggers manual override (toggles to dark).
    provider.system_light.set(false);
    sm.on_manual_override(&config, &mut provider);
    assert!(sm.state().is_manual_override);

    // Next tick should NOT change theme back.
    sm.on_tick(&config, &mut provider);
    assert!(!provider.get_current_system_theme()); // Still dark
}

#[test]
fn settings_changed_clears_override() {
    let mut sm = StateManager::new();
    let config = fixed_hours_config(true, false);
    let mut provider = MockProvider::new(600);
    provider.system_light.set(true);

    sm.on_tick(&config, &mut provider);
    sm.on_manual_override(&config, &mut provider);
    assert!(sm.state().is_manual_override);

    sm.on_settings_changed(&config, &mut provider);
    assert!(!sm.state().is_manual_override);
}

#[test]
fn change_apps_only() {
    let mut sm = StateManager::new();
    let config = fixed_hours_config(false, true); // apps only
    let mut provider = MockProvider::new(600); // daytime
    provider.system_light.set(false);
    provider.apps_light.set(false);

    sm.on_tick(&config, &mut provider);
    // System should NOT change (change_system = false).
    assert!(!provider.system_light.get());
    // Apps should change to light.
    assert!(provider.apps_light.get());
}

#[test]
fn no_change_when_already_correct() {
    let mut sm = StateManager::new();
    let config = fixed_hours_config(true, true);
    let mut provider = MockProvider::new(600); // daytime → light
    provider.system_light.set(true);
    provider.apps_light.set(true);

    sm.on_tick(&config, &mut provider);
    // Already light, should stay light (no unnecessary writes).
    assert!(provider.system_light.get());
    assert!(provider.apps_light.get());
}

#[test]
fn night_light_change_clears_override_in_follow_mode() {
    let mut sm = StateManager::new();
    let config = LightSwitchConfig {
        schedule_mode: ScheduleMode::FollowNightLight,
        change_system: true,
        ..LightSwitchConfig::default()
    };
    let mut provider = MockProvider::new(600);
    provider.night_light = false;
    provider.system_light.set(true);

    sm.sync_initial_theme_state(&config, &mut provider);
    sm.on_manual_override(&config, &mut provider);
    assert!(sm.state().is_manual_override);

    // Night light toggles.
    provider.night_light = true;
    sm.on_night_light_change(&config, &mut provider);
    assert!(!sm.state().is_manual_override);
}












#[test]
fn minutes_helpers() {
    let t = SunTimes {
        sunrise_hour: 6,
        sunrise_minute: 30,
        sunset_hour: 20,
        sunset_minute: 15,
    };
    assert_eq!(t.sunrise_minutes(), 390);
    assert_eq!(t.sunset_minutes(), 1215);
}




#[test]
fn minutes_of_day_from_epoch_seconds() {
    assert_eq!(minutes_of_day(0), 0);
    assert_eq!(minutes_of_day(59), 0);
    assert_eq!(minutes_of_day(1_718_960_645), 544);
    assert_eq!(minutes_of_day(86_399), 1439);
    assert_eq!(minutes_of_day(86_400), 0);
}
