//! Reading the crosshair settings document.

use vstd::prelude::*;
use vstd::utf8::encode_utf8;
use crate::crosshairs::types::{Color, CrosshairsOrientation, Settings};
use crate::findmymouse::settings::{parse_rgb, prop, rgb_of};
use crate::json::{as_bool, as_i64, as_str, bool_or, json_get, json_of_text, parse_json, JsonValue};

verus! {

/// The color of a `#RRGGBB` string, opaque.
pub open spec fn rgb_color_of(b: Seq<u8>) -> Option<Color> {
    match rgb_of(b) {
        Some((r, g, bl)) => Some(Color { a: 255, r, g, b: bl }),
        None => None,
    }
}

/// Parses `#RRGGBB` into an opaque color.
pub fn parse_color(s: &str) -> (c: Option<Color>)
    ensures
        c == rgb_color_of(encode_utf8(s@)),
{
    match parse_rgb(s) {
        Some((r, g, b)) => Some(Color { a: 255, r, g, b }),
        None => None,
    }
}

/// An integer property cast to `i32`, or the default.
pub open spec fn int_prop_or(props: JsonValue, key: Seq<char>, d: i32) -> i32 {
    match as_i64(prop(props, key)) {
        Some(n) => n as i32,
        None => d,
    }
}

/// A color property, or the default when missing or unreadable.
pub open spec fn color_prop_or(props: JsonValue, key: Seq<char>, d: Color) -> Color {
    match as_str(prop(props, key)) {
        Some(s) => match rgb_color_of(encode_utf8(s@)) {
            Some(c) => c,
            None => d,
        },
        None => d,
    }
}

/// The orientation of a code, if it names one.
pub open spec fn orientation_of_code(n: i64) -> Option<CrosshairsOrientation> {
    if n == 0 {
        Some(CrosshairsOrientation::Both)
    } else if n == 1 {
        Some(CrosshairsOrientation::VerticalOnly)
    } else if n == 2 {
        Some(CrosshairsOrientation::HorizontalOnly)
    } else {
        None
    }
}

/// The settings a document gives: members of its `properties` as
/// `{ "value": .. }`, each missing or invalid one keeping its default.
pub open spec fn settings_from_document(root: JsonValue) -> Settings {
    match json_get(root, "properties"@) {
        None => Settings {
            color: Color { a: 255, r: 255, g: 0, b: 0 },
            border_color: Color { a: 255, r: 255, g: 255, b: 255 },
            radius: 20,
            thickness: 5,
            opacity: 75,
            border_size: 1,
            auto_hide: false,
            is_fixed_length_enabled: false,
            fixed_length: 1,
            orientation: CrosshairsOrientation::Both,
            external_control: false,
        },
        Some(p) => Settings {
            color: color_prop_or(p, "crosshairs_color"@, Color { a: 255, r: 255, g: 0, b: 0 }),
            border_color: color_prop_or(p, "crosshairs_border_color"@, Color { a: 255, r: 255, g: 255, b: 255 }),
            radius: int_prop_or(p, "crosshairs_radius"@, 20),
            thickness: int_prop_or(p, "crosshairs_thickness"@, 5),
            opacity: int_prop_or(p, "crosshairs_opacity"@, 75),
            border_size: int_prop_or(p, "crosshairs_border_size"@, 1),
            auto_hide: bool_or(as_bool(prop(p, "crosshairs_auto_hide"@)), false),
            is_fixed_length_enabled: bool_or(as_bool(prop(p, "crosshairs_is_fixed_length_enabled"@)), false),
            fixed_length: int_prop_or(p, "crosshairs_fixed_length"@, 1),
            orientation: match as_i64(prop(p, "crosshairs_orientation"@)) {
                Some(n) => match orientation_of_code(n) {
                    Some(o) => o,
                    None => CrosshairsOrientation::Both,
                },
                None => CrosshairsOrientation::Both,
            },
            external_control: bool_or(as_bool(prop(p, "crosshairs_external_control"@)), false),
        },
    }
}

fn value_of<'a>(props: &'a JsonValue, key: &str) -> (r: Option<&'a JsonValue>)
    ensures
        match r {
            Some(x) => prop(*props, key@) == Some(*x),
            None => prop(*props, key@) is None,
        },
{
    match props.get(key) {
        Some(p) => p.get("value"),
        None => None,
    }
}

fn int_or(props: &JsonValue, key: &str, d: i32) -> (r: i32)
    ensures
        r == int_prop_or(*props, key@, d),
{
    match value_of(props, key) {
        Some(v) => match v.as_i64() {
            Some(n) => n as i32,
            None => d,
        },
        None => d,
    }
}

fn bool_prop(props: &JsonValue, key: &str, d: bool) -> (b: bool)
    ensures
        b == bool_or(as_bool(prop(*props, key@)), d),
{
    match value_of(props, key) {
        Some(v) => match v.as_bool() {
            Some(b) => b,
            None => d,
        },
        None => d,
    }
}

fn color_or(props: &JsonValue, key: &str, d: Color) -> (c: Color)
    ensures
        c == color_prop_or(*props, key@, d),
{
    match value_of(props, key) {
        Some(v) => match v.as_str() {
            Some(s) => match parse_color(s.as_str()) {
                Some(c) => c,
                None => d,
            },
            None => d,
        },
        None => d,
    }
}

/// Reads the settings from a parsed settings document; a document that
/// could not be parsed gives its error back.
pub fn settings_from_parsed(doc: Result<JsonValue, String>) -> (r: Result<Settings, String>)
    ensures
        match doc {
            Ok(root) => r == Ok::<Settings, String>(settings_from_document(root)),
            Err(e) => r matches Err(e2) && e2@ == e@,
        },
{
    let root = match doc {
        Ok(v) => v,
        Err(e) => {
            return Err(e);
        },
    };
    let d = Settings::default();
    let props = match root.get("properties") {
        Some(p) => p,
        None => {
            return Ok(d);
        },
    };
    let orientation = match value_of(props, "crosshairs_orientation") {
        Some(v) => match v.as_i64() {
            Some(0) => CrosshairsOrientation::Both,
            Some(1) => CrosshairsOrientation::VerticalOnly,
            Some(2) => CrosshairsOrientation::HorizontalOnly,
            _ => d.orientation,
        },
        None => d.orientation,
    };
    Ok(
        Settings {
            color: color_or(props, "crosshairs_color", d.color),
            border_color: color_or(props, "crosshairs_border_color", d.border_color),
            radius: int_or(props, "crosshairs_radius", d.radius),
            thickness: int_or(props, "crosshairs_thickness", d.thickness),
            opacity: int_or(props, "crosshairs_opacity", d.opacity),
            border_size: int_or(props, "crosshairs_border_size", d.border_size),
            auto_hide: bool_prop(props, "crosshairs_auto_hide", d.auto_hide),
            is_fixed_length_enabled: bool_prop(props, "crosshairs_is_fixed_length_enabled", d.is_fixed_length_enabled),
            fixed_length: int_or(props, "crosshairs_fixed_length", d.fixed_length),
            orientation,
            external_control: bool_prop(props, "crosshairs_external_control", d.external_control),
        },
    )
}

} // verus!

verus! {

/// Reads the settings from a settings file's text; text that is no JSON
/// gives the parse error.
pub fn parse_settings(json: &str) -> (r: Result<Settings, String>)
    ensures
        r is Ok <==> json_of_text(json@) is Some,
        match json_of_text(json@) {
            Some(root) => r == Ok::<Settings, String>(settings_from_document(root)),
            None => r is Err,
        },
{
    settings_from_parsed(parse_json(json))
}

} // verus!
