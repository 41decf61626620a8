//! Theme switching settings.

use vstd::prelude::*;
use crate::findmymouse::settings::prop;
use crate::json::{as_bool, as_whole_i32, as_str, bool_or, json_get, json_of_text, parse_json, str_or, JsonValue};
use crate::text::str_eq;

verus! {

/// How the theme is switched.
#[derive(Debug, Clone, Copy, PartialEq, Eq, Structural)]
pub enum ScheduleMode {
    Off,
    FixedHours,
    SunsetToSunrise,
    FollowNightLight,
}

/// The mode a settings string names; anything unknown means `Off`.
pub open spec fn schedule_mode_of(s: Seq<char>) -> ScheduleMode {
    if s == "FixedHours"@ {
        ScheduleMode::FixedHours
    } else if s == "SunsetToSunrise"@ {
        ScheduleMode::SunsetToSunrise
    } else if s == "FollowNightLight"@ {
        ScheduleMode::FollowNightLight
    } else {
        ScheduleMode::Off
    }
}

/// The settings string of a mode.
pub open spec fn schedule_mode_name(m: ScheduleMode) -> Seq<char> {
    match m {
        ScheduleMode::Off => "Off"@,
        ScheduleMode::FixedHours => "FixedHours"@,
        ScheduleMode::SunsetToSunrise => "SunsetToSunrise"@,
        ScheduleMode::FollowNightLight => "FollowNightLight"@,
    }
}

impl ScheduleMode {
    pub fn from_str(s: &str) -> (m: Self)
        ensures
            m == schedule_mode_of(s@),
    {
        if str_eq(s, "FixedHours") {
            Self::FixedHours
        } else if str_eq(s, "SunsetToSunrise") {
            Self::SunsetToSunrise
        } else if str_eq(s, "FollowNightLight") {
            Self::FollowNightLight
        } else {
            Self::Off
        }
    }

    pub fn as_str(&self) -> (s: &'static str)
        ensures
            s@ == schedule_mode_name(*self),
    {
        match self {
            Self::Off => "Off",
            Self::FixedHours => "FixedHours",
            Self::SunsetToSunrise => "SunsetToSunrise",
            Self::FollowNightLight => "FollowNightLight",
        }
    }
}

/// Reading back the name of a mode gives the same mode.
pub proof fn lemma_schedule_mode_roundtrip(m: ScheduleMode)
    ensures
        schedule_mode_of(schedule_mode_name(m)) == m,
{
    reveal_strlit("Off");
    reveal_strlit("FixedHours");
    reveal_strlit("SunsetToSunrise");
    reveal_strlit("FollowNightLight");
    assert("Off"@.len() != "FixedHours"@.len());
    assert("Off"@.len() != "SunsetToSunrise"@.len());
    assert("Off"@.len() != "FollowNightLight"@.len());
    assert("FixedHours"@.len() != "SunsetToSunrise"@.len());
    assert("FixedHours"@.len() != "FollowNightLight"@.len());
    assert("SunsetToSunrise"@[1] != "FollowNightLight"@[1]);
}

/// Theme switching configuration.
#[derive(Debug, Clone, PartialEq)]
pub struct LightSwitchConfig {
    pub schedule_mode: ScheduleMode,
    pub latitude: String,
    pub longitude: String,
    /// Start of light mode in minutes since midnight.
    pub light_time: i32,
    /// Start of dark mode in minutes since midnight.
    pub dark_time: i32,
    pub sunrise_offset: i32,
    pub sunset_offset: i32,
    pub change_system: bool,
    pub change_apps: bool,
    pub enable_dark_mode_profile: bool,
    pub enable_light_mode_profile: bool,
    pub dark_mode_profile: String,
    pub light_mode_profile: String,
}

impl Default for LightSwitchConfig {
    fn default() -> (c: Self)
        ensures
            c.schedule_mode == ScheduleMode::FixedHours,
            c.latitude@ == "0.0"@,
            c.longitude@ == "0.0"@,
            c.light_time == 480,
            c.dark_time == 1200,
            c.sunrise_offset == 0,
            c.sunset_offset == 0,
            !c.change_system,
            !c.change_apps,
            !c.enable_dark_mode_profile,
            !c.enable_light_mode_profile,
            c.dark_mode_profile@.len() == 0,
            c.light_mode_profile@.len() == 0,
    {
        LightSwitchConfig {
            schedule_mode: ScheduleMode::FixedHours,
            latitude: String::from_str("0.0"),
            longitude: String::from_str("0.0"),
            light_time: 8 * 60,
            dark_time: 20 * 60,
            sunrise_offset: 0,
            sunset_offset: 0,
            change_system: false,
            change_apps: false,
            enable_dark_mode_profile: false,
            enable_light_mode_profile: false,
            dark_mode_profile: String::new(),
            light_mode_profile: String::new(),
        }
    }
}

} // verus!

verus! {

/// The member `key` of a settings document: under `properties` as
/// `{ "value": .. }` when the document has a `properties` object, else at
/// the top level.
pub open spec fn setting(root: JsonValue, key: Seq<char>) -> Option<JsonValue> {
    let props = json_get(root, "properties"@);
    if props matches Some(JsonValue::Object(_)) {
        prop(props->0, key)
    } else {
        json_get(root, key)
    }
}

/// A numeric setting cast to `i32` the way a float is, or the default.
pub open spec fn int_setting(v: Option<JsonValue>, d: i32) -> i32 {
    match as_whole_i32(v) {
        Some(n) => n,
        None => d,
    }
}

/// The configuration a settings document gives; each missing or mistyped
/// member keeps its default.
pub open spec fn config_from_document(root: JsonValue, c: LightSwitchConfig) -> bool {
    &&& c.schedule_mode == match as_str(setting(root, "scheduleMode"@)) {
        Some(v) => schedule_mode_of(v@),
        None => ScheduleMode::FixedHours,
    }
    &&& c.latitude@ == str_or(as_str(setting(root, "latitude"@)), "0.0"@)
    &&& c.longitude@ == str_or(as_str(setting(root, "longitude"@)), "0.0"@)
    &&& c.light_time == int_setting(setting(root, "lightTime"@), 480)
    &&& c.dark_time == int_setting(setting(root, "darkTime"@), 1200)
    &&& c.sunrise_offset == int_setting(setting(root, "sunrise_offset"@), 0)
    &&& c.sunset_offset == int_setting(setting(root, "sunset_offset"@), 0)
    &&& c.change_system == bool_or(as_bool(setting(root, "changeSystem"@)), false)
    &&& c.change_apps == bool_or(as_bool(setting(root, "changeApps"@)), false)
    &&& c.enable_dark_mode_profile == bool_or(as_bool(setting(root, "enableDarkModeProfile"@)), false)
    &&& c.enable_light_mode_profile == bool_or(as_bool(setting(root, "enableLightModeProfile"@)), false)
    &&& c.dark_mode_profile@ == str_or(as_str(setting(root, "darkModeProfile"@)), ""@)
    &&& c.light_mode_profile@ == str_or(as_str(setting(root, "lightModeProfile"@)), ""@)
}

/// Where the members are read from: the `properties` object, or the
/// document itself.
fn setting_value<'a>(root: &'a JsonValue, wrapped: Option<&'a JsonValue>, key: &str) -> (r: Option<&'a JsonValue>)
    requires
        match wrapped {
            Some(p) => json_get(*root, "properties"@) == Some(*p) && *p is Object,
            None => !(json_get(*root, "properties"@) matches Some(JsonValue::Object(_))),
        },
    ensures
        match r {
            Some(x) => setting(*root, key@) == Some(*x),
            None => setting(*root, key@) is None,
        },
{
    match wrapped {
        Some(p) => match p.get(key) {
            Some(m) => m.get("value"),
            None => None,
        },
        None => root.get(key),
    }
}

fn str_setting(root: &JsonValue, wrapped: Option<&JsonValue>, key: &str, d: String) -> (s: String)
    requires
        match wrapped {
            Some(p) => json_get(*root, "properties"@) == Some(*p) && *p is Object,
            None => !(json_get(*root, "properties"@) matches Some(JsonValue::Object(_))),
        },
    ensures
        s@ == str_or(as_str(setting(*root, key@)), d@),
{
    match setting_value(root, wrapped, key) {
        Some(v) => match v.as_str() {
            Some(x) => x.clone(),
            None => d,
        },
        None => d,
    }
}

fn int_setting_value(root: &JsonValue, wrapped: Option<&JsonValue>, key: &str, d: i32) -> (r: i32)
    requires
        match wrapped {
            Some(p) => json_get(*root, "properties"@) == Some(*p) && *p is Object,
            None => !(json_get(*root, "properties"@) matches Some(JsonValue::Object(_))),
        },
    ensures
        r == int_setting(setting(*root, key@), d),
{
    match setting_value(root, wrapped, key) {
        Some(v) => match v.as_whole_i32() {
            Some(n) => n,
            None => d,
        },
        None => d,
    }
}

fn bool_setting(root: &JsonValue, wrapped: Option<&JsonValue>, key: &str, d: bool) -> (b: bool)
    requires
        match wrapped {
            Some(p) => json_get(*root, "properties"@) == Some(*p) && *p is Object,
            None => !(json_get(*root, "properties"@) matches Some(JsonValue::Object(_))),
        },
    ensures
        b == bool_or(as_bool(setting(*root, key@)), d),
{
    match setting_value(root, wrapped, key) {
        Some(v) => match v.as_bool() {
            Some(b) => b,
            None => d,
        },
        None => d,
    }
}

/// Reads the configuration from a settings document: from `{ "value": .. }`
/// members of its `properties` object, or, without one, from members at its
/// top level.
pub fn config_from_json(root: &JsonValue) -> (c: LightSwitchConfig)
    ensures
        config_from_document(*root, c),
{
    let d = LightSwitchConfig::default();
    proof {
        reveal_strlit("");
        assert(d.dark_mode_profile@ =~= ""@);
        assert(d.light_mode_profile@ =~= ""@);
    }
    let wrapped = match root.get("properties") {
        Some(p) => match p {
            JsonValue::Object(_) => Some(p),
            _ => None,
        },
        None => None,
    };
    let schedule_mode = match setting_value(root, wrapped, "scheduleMode") {
        Some(v) => match v.as_str() {
            Some(m) => ScheduleMode::from_str(m.as_str()),
            None => d.schedule_mode,
        },
        None => d.schedule_mode,
    };
    LightSwitchConfig {
        schedule_mode,
        latitude: str_setting(root, wrapped, "latitude", d.latitude),
        longitude: str_setting(root, wrapped, "longitude", d.longitude),
        light_time: int_setting_value(root, wrapped, "lightTime", d.light_time),
        dark_time: int_setting_value(root, wrapped, "darkTime", d.dark_time),
        sunrise_offset: int_setting_value(root, wrapped, "sunrise_offset", d.sunrise_offset),
        sunset_offset: int_setting_value(root, wrapped, "sunset_offset", d.sunset_offset),
        change_system: bool_setting(root, wrapped, "changeSystem", d.change_system),
        change_apps: bool_setting(root, wrapped, "changeApps", d.change_apps),
        enable_dark_mode_profile: bool_setting(root, wrapped, "enableDarkModeProfile", d.enable_dark_mode_profile),
        enable_light_mode_profile: bool_setting(root, wrapped, "enableLightModeProfile", d.enable_light_mode_profile),
        dark_mode_profile: str_setting(root, wrapped, "darkModeProfile", d.dark_mode_profile),
        light_mode_profile: str_setting(root, wrapped, "lightModeProfile", d.light_mode_profile),
    }
}

} // verus!

verus! {

/// Reads the configuration from a settings file's text; text that is no
/// JSON reads as a null document, which gives the defaults.
pub fn parse_settings_json(json_str: &str) -> (c: LightSwitchConfig)
    ensures
        match json_of_text(json_str@) {
            Some(root) => config_from_document(root, c),
            None => config_from_document(JsonValue::Null, c),
        },
{
    match parse_json(json_str) {
        Ok(root) => config_from_json(&root),
        Err(_) => config_from_json(&JsonValue::Null),
    }
}

} // verus!
