//! Reading highlighter colors.

use vstd::prelude::*;
use vstd::string::StringSliceAdditionalSpecFns;
use crate::findmymouse::settings::{argb_of, parse_argb};
use crate::findmymouse::settings::prop;
use crate::highlighter::types::{Color, Settings};
use crate::json::{as_bool, as_i64, as_str, bool_or, json_get, json_of_text, parse_json, JsonValue};
use vstd::utf8::encode_utf8;

verus! {

/// The color an `#AARRGGBB` string gives.
pub open spec fn argb_color_of(b: Seq<u8>) -> Option<Color> {
    match argb_of(b) {
        Some((a, r, g, bl)) => Some(Color { a, r, g, b: bl }),
        None => None,
    }
}

/// Parses `#AARRGGBB`.
pub fn parse_argb_color(s: &str) -> (c: Option<Color>)
    ensures
        c == argb_color_of(s.spec_bytes()),
{
    match parse_argb(s) {
        Some((a, r, g, b)) => Some(Color::new(a, r, g, b)),
        None => None,
    }
}

} // verus!

verus! {

/// A color property, or the default when missing or unreadable.
pub open spec fn argb_prop_or(props: JsonValue, key: Seq<char>, d: Color) -> Color {
    match as_str(prop(props, key)) {
        Some(s) => match argb_color_of(encode_utf8(s@)) {
            Some(c) => c,
            None => d,
        },
        None => d,
    }
}

/// An integer property from 0 to `i32::MAX`, or the default for any other
/// value.
pub open spec fn count_prop_or(props: JsonValue, key: Seq<char>, d: i32) -> i32 {
    match as_i64(prop(props, key)) {
        Some(n) => if 0 <= n <= i32::MAX {
            n as i32
        } else {
            d
        },
        None => d,
    }
}

/// The settings a document gives: members of its `properties` as
/// `{ "value": .. }`, each missing or invalid one keeping its default.
pub open spec fn settings_from_document(root: JsonValue) -> Settings {
    let d = Settings {
        left_button_color: Color { a: 166, r: 255, g: 255, b: 0 },
        right_button_color: Color { a: 166, r: 0, g: 0, b: 255 },
        always_color: Color { a: 0, r: 255, g: 0, b: 0 },
        radius: 20,
        fade_delay_ms: 500,
        fade_duration_ms: 250,
        auto_activate: false,
        spotlight_mode: false,
    };
    match json_get(root, "properties"@) {
        None => d,
        Some(p) => Settings {
            left_button_color: argb_prop_or(p, "left_button_click_color"@, d.left_button_color),
            right_button_color: argb_prop_or(p, "right_button_click_color"@, d.right_button_color),
            always_color: argb_prop_or(p, "always_color"@, d.always_color),
            radius: count_prop_or(p, "highlight_radius"@, d.radius),
            fade_delay_ms: count_prop_or(p, "highlight_fade_delay_ms"@, d.fade_delay_ms),
            fade_duration_ms: count_prop_or(p, "highlight_fade_duration_ms"@, d.fade_duration_ms),
            auto_activate: bool_or(as_bool(prop(p, "auto_activate"@)), d.auto_activate),
            spotlight_mode: bool_or(as_bool(prop(p, "spotlight_mode"@)), d.spotlight_mode),
        },
    }
}

fn value_of<'a>(props: &'a JsonValue, key: &str) -> (r: Option<&'a JsonValue>)
    ensures
        match r {
            Some(x) => prop(*props, key@) == Some(*x),
            None => prop(*props, key@) is None,
        },
{
    match props.get(key) {
        Some(p) => p.get("value"),
        None => None,
    }
}

fn color_or(props: &JsonValue, key: &str, d: Color) -> (c: Color)
    ensures
        c == argb_prop_or(*props, key@, d),
{
    match value_of(props, key) {
        Some(v) => match v.as_str() {
            Some(s) => match parse_argb_color(s.as_str()) {
                Some(c) => c,
                None => d,
            },
            None => d,
        },
        None => d,
    }
}

fn count_or(props: &JsonValue, key: &str, d: i32) -> (r: i32)
    ensures
        r == count_prop_or(*props, key@, d),
{
    match value_of(props, key) {
        Some(v) => match v.as_i64() {
            Some(n) => if 0 <= n && n <= i32::MAX as i64 {
                n as i32
            } else {
                d
            },
            None => d,
        },
        None => d,
    }
}

fn flag_or(props: &JsonValue, key: &str, d: bool) -> (b: bool)
    ensures
        b == bool_or(as_bool(prop(*props, key@)), d),
{
    match value_of(props, key) {
        Some(v) => match v.as_bool() {
            Some(b) => b,
            None => d,
        },
        None => d,
    }
}

/// Reads the settings from a settings document; without `properties` the
/// defaults.
pub fn settings_from_json(root: &JsonValue) -> (s: Settings)
    ensures
        s == settings_from_document(*root),
{
    let d = Settings::default();
    let props = match root.get("properties") {
        Some(p) => p,
        None => {
            return d;
        },
    };
    Settings {
        left_button_color: color_or(props, "left_button_click_color", d.left_button_color),
        right_button_color: color_or(props, "right_button_click_color", d.right_button_color),
        always_color: color_or(props, "always_color", d.always_color),
        radius: count_or(props, "highlight_radius", d.radius),
        fade_delay_ms: count_or(props, "highlight_fade_delay_ms", d.fade_delay_ms),
        fade_duration_ms: count_or(props, "highlight_fade_duration_ms", d.fade_duration_ms),
        auto_activate: flag_or(props, "auto_activate", d.auto_activate),
        spotlight_mode: flag_or(props, "spotlight_mode", d.spotlight_mode),
    }
}

} // verus!

verus! {

/// Reads the settings from a settings file's text; text that is no JSON,
/// and any missing or invalid field, gives the defaults.
pub fn load_settings_from_json(json: &str) -> (s: Settings)
    ensures
        match json_of_text(json@) {
            Some(root) => s == settings_from_document(root),
            None => s == settings_from_document(JsonValue::Null),
        },
{
    match parse_json(json) {
        Ok(root) => settings_from_json(&root),
        Err(_) => settings_from_json(&JsonValue::Null),
    }
}

} // verus!
