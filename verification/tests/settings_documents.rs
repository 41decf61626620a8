use powertoys_core::crosshairs::settings::parse_settings;
use powertoys_core::crosshairs::types::{Color as CrossColor, CrosshairsOrientation, Settings as CrossSettings};
use powertoys_core::findmymouse::settings::{excluded_apps_from, parse_settings_json};
use powertoys_core::findmymouse::types::{ActivationMethod, Settings as FindSettings};
use powertoys_core::highlighter::settings::load_settings_from_json;
use powertoys_core::highlighter::types::{Color as HlColor, Settings as HlSettings};
use powertoys_core::lightswitch::settings::{parse_settings_json as parse_light, LightSwitchConfig, ScheduleMode};

// ---- find my mouse ----

#[test]
fn settings_defaults_match_cpp() {
    let s = FindSettings::default();
    assert_eq!(s.activation_method, ActivationMethod::DoubleLeftCtrl);
    assert!(!s.include_win_key);
    assert!(s.do_not_activate_on_game_mode);
    assert_eq!(s.spotlight_radius, 100);
    assert_eq!(s.animation_duration_ms, 500);
    assert_eq!(s.spotlight_initial_zoom, 9);
    assert_eq!(s.background_color, (128, 0, 0, 0));
    assert_eq!(s.spotlight_color, (128, 255, 255, 255));
    assert_eq!(s.shake_minimum_distance, 1000);
    assert_eq!(s.shake_interval_ms, 1000);
    assert_eq!(s.shake_factor, 400);
    assert!(s.excluded_apps.is_empty());
}

#[test]
fn parse_default_settings_from_empty_json() {
    let s = parse_settings_json("{}");
    assert_eq!(s, FindSettings::default());
}

#[test]
fn settings_parse_invalid_json_returns_defaults() {
    let s = parse_settings_json("not json at all");
    assert_eq!(s, FindSettings::default());
}

#[test]
fn parse_complete_settings() {
    let json = r##"{
        "name": "Find My Mouse",
        "version": "2.0",
        "properties": {
            "activation_method": { "value": 2 },
            "include_win_key": { "value": true },
            "do_not_activate_on_game_mode": { "value": false },
            "background_color": { "value": "#FF112233" },
            "spotlight_color": { "value": "#80AABBCC" },
            "spotlight_radius": { "value": 200 },
            "animation_duration_ms": { "value": 300 },
            "spotlight_initial_zoom": { "value": 5 },
            "shaking_minimum_distance": { "value": 2000 },
            "shaking_interval_ms": { "value": 500 },
            "shaking_factor": { "value": 300 },
            "excluded_apps": { "value": "notepad.exe\r\ncalc.exe" }
        }
    }"##;

    let s = parse_settings_json(json);
    assert_eq!(s.activation_method, ActivationMethod::ShakeMouse);
    assert!(s.include_win_key);
    assert!(!s.do_not_activate_on_game_mode);
    assert_eq!(s.background_color, (255, 17, 34, 51));
    assert_eq!(s.spotlight_color, (128, 170, 187, 204));
    assert_eq!(s.spotlight_radius, 200);
    assert_eq!(s.animation_duration_ms, 300);
    assert_eq!(s.spotlight_initial_zoom, 5);
    assert_eq!(s.shake_minimum_distance, 2000);
    assert_eq!(s.shake_interval_ms, 500);
    assert_eq!(s.shake_factor, 300);
    assert_eq!(s.excluded_apps, vec!["NOTEPAD.EXE", "CALC.EXE"]);
}

#[test]
fn legacy_v1_activation_method_1_maps_to_shake() {
    let json = r##"{
        "version": "1.0",
        "properties": {
            "activation_method": { "value": 1 }
        }
    }"##;

    let s = parse_settings_json(json);
    assert_eq!(s.activation_method, ActivationMethod::ShakeMouse);
}

#[test]
fn v2_activation_method_1_maps_to_double_right_ctrl() {
    let json = r##"{
        "version": "2.0",
        "properties": {
            "activation_method": { "value": 1 }
        }
    }"##;

    let s = parse_settings_json(json);
    assert_eq!(s.activation_method, ActivationMethod::DoubleRightCtrl);
}

#[test]
fn legacy_rgb_color_with_opacity_migration() {
    let json = r##"{
        "properties": {
            "overlay_opacity": { "value": 50 },
            "background_color": { "value": "#000000" },
            "spotlight_color": { "value": "#FFFFFF" }
        }
    }"##;

    let s = parse_settings_json(json);
    // 50% opacity → alpha = (50*255+50)/100 = 128
    assert_eq!(s.background_color, (128, 0, 0, 0));
    assert_eq!(s.spotlight_color, (128, 255, 255, 255));
}

#[test]
fn argb_color_ignores_legacy_opacity() {
    let json = r##"{
        "properties": {
            "overlay_opacity": { "value": 50 },
            "background_color": { "value": "#FF112233" }
        }
    }"##;

    let s = parse_settings_json(json);
    // ARGB parsed → overlay_opacity is ignored.
    assert_eq!(s.background_color, (255, 17, 34, 51));
}

#[test]
fn excluded_apps_trimmed_and_uppercased() {
    let json = r##"{
        "properties": {
            "excluded_apps": { "value": "  notepad.exe  \n  calc.EXE  \r\n  " }
        }
    }"##;

    let s = parse_settings_json(json);
    assert_eq!(s.excluded_apps, vec!["NOTEPAD.EXE", "CALC.EXE"]);
}

#[test]
fn excluded_apps_empty_string() {
    let json = r##"{
        "properties": {
            "excluded_apps": { "value": "" }
        }
    }"##;

    let s = parse_settings_json(json);
    assert!(s.excluded_apps.is_empty());
}

#[test]
fn partial_settings_use_defaults() {
    let json = r##"{
        "properties": {
            "spotlight_radius": { "value": 250 }
        }
    }"##;

    let s = parse_settings_json(json);
    assert_eq!(s.spotlight_radius, 250);
    // Everything else should be default.
    assert_eq!(s.activation_method, ActivationMethod::DoubleLeftCtrl);
    assert_eq!(s.animation_duration_ms, 500);
}

#[test]
fn invalid_activation_method_uses_default() {
    let json = r##"{
        "properties": {
            "activation_method": { "value": 99 }
        }
    }"##;

    let s = parse_settings_json(json);
    assert_eq!(s.activation_method, ActivationMethod::DoubleLeftCtrl);
}

#[test]
fn negative_radius_uses_default() {
    let json = r##"{
        "properties": {
            "spotlight_radius": { "value": -5 }
        }
    }"##;

    let s = parse_settings_json(json);
    assert_eq!(s.spotlight_radius, 100); // default
}

#[test]
fn large_values_saturate_and_bad_opacity_is_ignored() {
    let json = r##"{
        "properties": {
            "spotlight_radius": { "value": 5000000000 },
            "overlay_opacity": { "value": 150 },
            "background_color": { "value": "#102030" },
            "properties_not_object": 1
        }
    }"##;
    let s = parse_settings_json(json);
    assert_eq!(s.spotlight_radius, i32::MAX);
    // An opacity outside 0..=100 leaves the color opaque.
    assert_eq!(s.background_color, (255, 16, 32, 48));
    let s = parse_settings_json(r#"{ "properties": 3 }"#);
    assert_eq!(s, FindSettings::default());
}

#[test]
fn excluded_apps_split_at_carriage_returns() {
    assert_eq!(excluded_apps_from("a\rb\n\nc d "), vec!["A", "B", "C D"]);
    assert!(excluded_apps_from(" \r\n ").is_empty());
}

// ---- light switch ----

#[test]
fn parse_empty_json_returns_defaults() {
    let c = parse_light("{}");
    assert_eq!(c, LightSwitchConfig::default());
}

#[test]
fn light_settings_parse_invalid_json_returns_defaults() {
    let c = parse_light("not json");
    assert_eq!(c, LightSwitchConfig::default());
}

#[test]
fn parse_powertoys_format() {
    let json = r#"{
        "properties": {
            "scheduleMode": { "value": "SunsetToSunrise" },
            "latitude": { "value": "40.7128" },
            "longitude": { "value": "-74.0060" },
            "lightTime": { "value": 420 },
            "darkTime": { "value": 1140 },
            "sunrise_offset": { "value": 15 },
            "sunset_offset": { "value": -30 },
            "changeSystem": { "value": true },
            "changeApps": { "value": true },
            "enableDarkModeProfile": { "value": true },
            "darkModeProfile": { "value": "Night" }
        }
    }"#;
    let c = parse_light(json);
    assert_eq!(c.schedule_mode, ScheduleMode::SunsetToSunrise);
    assert_eq!(c.latitude, "40.7128");
    assert_eq!(c.longitude, "-74.0060");
    assert_eq!(c.light_time, 420);
    assert_eq!(c.dark_time, 1140);
    assert_eq!(c.sunrise_offset, 15);
    assert_eq!(c.sunset_offset, -30);
    assert!(c.change_system);
    assert!(c.change_apps);
    assert!(c.enable_dark_mode_profile);
    assert_eq!(c.dark_mode_profile, "Night");
}

#[test]
fn parse_flat_format() {
    let json = r#"{
        "scheduleMode": "FollowNightLight",
        "changeSystem": true,
        "changeApps": false,
        "lightTime": 360,
        "darkTime": 1080
    }"#;
    let c = parse_light(json);
    assert_eq!(c.schedule_mode, ScheduleMode::FollowNightLight);
    assert!(c.change_system);
    assert!(!c.change_apps);
    assert_eq!(c.light_time, 360);
    assert_eq!(c.dark_time, 1080);
}

#[test]
fn parse_partial_settings_uses_defaults() {
    let json = r#"{
        "properties": {
            "scheduleMode": { "value": "FixedHours" }
        }
    }"#;
    let c = parse_light(json);
    assert_eq!(c.schedule_mode, ScheduleMode::FixedHours);
    assert_eq!(c.light_time, 480);
    assert_eq!(c.dark_time, 1200);
}

#[test]
fn light_properties_not_object_reads_flat() {
    let json = r#"{ "properties": 5, "scheduleMode": "Off", "latitude": "1.5", "lightTime": "x" }"#;
    let c = parse_light(json);
    assert_eq!(c.schedule_mode, ScheduleMode::Off);
    assert_eq!(c.latitude, "1.5");
    assert_eq!(c.light_time, 480);
}

// ---- crosshairs ----

#[test]
fn parse_full_json() {
    let json = r##"{
        "properties": {
            "crosshairs_color": { "value": "#00FF00" },
            "crosshairs_border_color": { "value": "#0000FF" },
            "crosshairs_opacity": { "value": 50 },
            "crosshairs_radius": { "value": 30 },
            "crosshairs_thickness": { "value": 8 },
            "crosshairs_border_size": { "value": 2 },
            "crosshairs_auto_hide": { "value": true },
            "crosshairs_is_fixed_length_enabled": { "value": true },
            "crosshairs_fixed_length": { "value": 200 },
            "crosshairs_orientation": { "value": 1 }
        }
    }"##;
    let s = parse_settings(json).unwrap();
    assert_eq!(s.color, CrossColor { a: 255, r: 0, g: 255, b: 0 });
    assert_eq!(s.border_color, CrossColor { a: 255, r: 0, g: 0, b: 255 });
    assert_eq!(s.opacity, 50);
    assert_eq!(s.radius, 30);
    assert_eq!(s.thickness, 8);
    assert_eq!(s.border_size, 2);
    assert!(s.auto_hide);
    assert!(s.is_fixed_length_enabled);
    assert_eq!(s.fixed_length, 200);
    assert_eq!(s.orientation, CrosshairsOrientation::VerticalOnly);
}

#[test]
fn parse_partial_opacity_only() {
    let json = r#"{ "properties": { "crosshairs_opacity": { "value": 42 } } }"#;
    let s = parse_settings(json).unwrap();
    assert_eq!(s.opacity, 42);
    assert_eq!(s.radius, 20); // default
}

#[test]
fn parse_partial_radius_only() {
    let json = r#"{ "properties": { "crosshairs_radius": { "value": 50 } } }"#;
    let s = parse_settings(json).unwrap();
    assert_eq!(s.radius, 50);
    assert_eq!(s.thickness, 5); // default
}

#[test]
fn parse_partial_bool() {
    let json = r#"{ "properties": { "crosshairs_auto_hide": { "value": true } } }"#;
    let s = parse_settings(json).unwrap();
    assert!(s.auto_hide);
    assert!(!s.is_fixed_length_enabled); // default
}

#[test]
fn parse_invalid_json() {
    let result = parse_settings("not json {");
    assert!(result.is_err());
}

#[test]
fn parse_missing_properties() {
    let s = parse_settings("{}").unwrap();
    assert_eq!(s, CrossSettings::default());
}

#[test]
fn color_parsing_red() {
    let json = r##"{ "properties": { "crosshairs_color": { "value": "#FF0000" } } }"##;
    let s = parse_settings(json).unwrap();
    assert_eq!(s.color, CrossColor { a: 255, r: 255, g: 0, b: 0 });
}

#[test]
fn color_parsing_blue() {
    let json = r##"{ "properties": { "crosshairs_color": { "value": "#0000FF" } } }"##;
    let s = parse_settings(json).unwrap();
    assert_eq!(s.color, CrossColor { a: 255, r: 0, g: 0, b: 255 });
}

#[test]
fn parse_external_control_true() {
    let json = r#"{ "properties": { "crosshairs_external_control": { "value": true } } }"#;
    let s = parse_settings(json).unwrap();
    assert!(s.external_control);
}

#[test]
fn parse_external_control_default_false() {
    let json = r#"{ "properties": {} }"#;
    let s = parse_settings(json).unwrap();
    assert!(!s.external_control);
}

#[test]
fn crosshairs_unknown_orientation_and_bad_color_keep_defaults() {
    let json = r##"{ "properties": {
        "crosshairs_orientation": { "value": 7 },
        "crosshairs_color": { "value": "#12345" },
        "crosshairs_radius": { "value": 4294967297 }
    } }"##;
    let s = parse_settings(json).unwrap();
    assert_eq!(s.orientation, CrosshairsOrientation::Both);
    assert_eq!(s.color, CrossColor { a: 255, r: 255, g: 0, b: 0 });
    // The value is cast to `i32`, keeping its low 32 bits.
    assert_eq!(s.radius, 1);
    let s = parse_settings(r#"{ "properties": { "crosshairs_orientation": { "value": 2 } } }"#).unwrap();
    assert_eq!(s.orientation, CrosshairsOrientation::HorizontalOnly);
}

// ---- highlighter ----

#[test]
fn load_empty_json_returns_defaults() {
    let s = load_settings_from_json("{}");
    let d = HlSettings::default();
    assert_eq!(s.left_button_color, d.left_button_color);
    assert_eq!(s.right_button_color, d.right_button_color);
    assert_eq!(s.always_color, d.always_color);
    assert_eq!(s.radius, d.radius);
    assert_eq!(s.fade_delay_ms, d.fade_delay_ms);
    assert_eq!(s.fade_duration_ms, d.fade_duration_ms);
    assert_eq!(s.auto_activate, d.auto_activate);
    assert_eq!(s.spotlight_mode, d.spotlight_mode);
}

#[test]
fn load_invalid_json_returns_defaults() {
    let s = load_settings_from_json("not valid json");
    assert_eq!(s.radius, HlSettings::default().radius);
}

#[test]
fn load_full_settings() {
    let json = r##"{
        "properties": {
            "left_button_click_color": { "value": "#FF00FF00" },
            "right_button_click_color": { "value": "#80FF0000" },
            "always_color": { "value": "#400000FF" },
            "highlight_radius": { "value": 30 },
            "highlight_fade_delay_ms": { "value": 1000 },
            "highlight_fade_duration_ms": { "value": 500 },
            "auto_activate": { "value": true },
            "spotlight_mode": { "value": true }
        }
    }"##;
    let s = load_settings_from_json(json);
    assert_eq!(s.left_button_color, HlColor::new(0xFF, 0x00, 0xFF, 0x00));
    assert_eq!(s.right_button_color, HlColor::new(0x80, 0xFF, 0x00, 0x00));
    assert_eq!(s.always_color, HlColor::new(0x40, 0x00, 0x00, 0xFF));
    assert_eq!(s.radius, 30);
    assert_eq!(s.fade_delay_ms, 1000);
    assert_eq!(s.fade_duration_ms, 500);
    assert!(s.auto_activate);
    assert!(s.spotlight_mode);
}

#[test]
fn load_partial_settings_keeps_defaults() {
    let json = r#"{
        "properties": {
            "highlight_radius": { "value": 50 }
        }
    }"#;
    let s = load_settings_from_json(json);
    assert_eq!(s.radius, 50);
    // Others remain default
    assert_eq!(s.left_button_color, HlSettings::default().left_button_color);
    assert_eq!(s.fade_delay_ms, 500);
    assert!(!s.auto_activate);
}

#[test]
fn load_negative_radius_ignored() {
    let json = r#"{
        "properties": {
            "highlight_radius": { "value": -5 }
        }
    }"#;
    let s = load_settings_from_json(json);
    assert_eq!(s.radius, HlSettings::default().radius);
}

#[test]
fn load_invalid_color_ignored() {
    let json = r#"{
        "properties": {
            "left_button_click_color": { "value": "not-a-color" }
        }
    }"#;
    let s = load_settings_from_json(json);
    assert_eq!(s.left_button_color, HlSettings::default().left_button_color);
}

#[test]
fn highlighter_out_of_range_counts_keep_defaults() {
    let json = r#"{ "properties": {
        "highlight_radius": { "value": 4294967296 },
        "highlight_fade_delay_ms": { "value": 2147483648 },
        "highlight_fade_duration_ms": { "value": 2147483647 }
    } }"#;
    let s = load_settings_from_json(json);
    assert_eq!(s.radius, 20);
    assert_eq!(s.fade_delay_ms, 500);
    assert_eq!(s.fade_duration_ms, 2147483647);
}

#[test]
fn crosshairs_text_that_is_no_json_is_an_error() {
    assert!(parse_settings("").is_err());
    assert!(parse_settings("{}").is_ok());
}

#[test]
fn findmymouse_fractional_numbers_truncate() {
    let json = r#"{"properties":{
        "spotlight_radius": {"value": 150.0},
        "animation_duration_ms": {"value": 250.9},
        "shaking_factor": {"value": -3.7},
        "shaking_interval_ms": {"value": 1e20}
    }}"#;
    let s = parse_settings_json(json);
    assert_eq!(s.spotlight_radius, 150);
    assert_eq!(s.animation_duration_ms, 250);
    // -3.7 truncates to -3, which is negative: the default stays.
    assert_eq!(s.shake_factor, 400);
    assert_eq!(s.shake_interval_ms, i32::MAX);
}

#[test]
fn lightswitch_fractional_numbers_truncate() {
    let c = parse_light(r#"{"lightTime": 480.5, "darkTime": -1e20, "sunrise_offset": -30.9, "sunset_offset": 7.25e1}"#);
    assert_eq!(c.light_time, 480);
    assert_eq!(c.dark_time, i32::MIN);
    assert_eq!(c.sunrise_offset, -30);
    assert_eq!(c.sunset_offset, 72);
}
