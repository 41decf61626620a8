//! Color and opacity parsing for the find-my-mouse settings.

use vstd::prelude::*;
use vstd::string::StringSliceAdditionalSpecFns;
use crate::findmymouse::types::{activation_method_of_code, default_fields, ActivationMethod, Settings};
use crate::json::{as_bool, as_whole_i32, as_str, bool_or, get_str, json_get, json_of_text, parse_json, str_or, JsonValue};
use crate::text::{
    bytes_of, chars_of, hex_pair, hex_pair_value, split_chars, split_seq, str_eq, string_of, to_uppercase, trim_str,
    trimmed, uppercase_of,
};
use vstd::utf8::encode_utf8;

verus! {

/// An ARGB color as (alpha, red, green, blue).
pub type Color = (u8, u8, u8, u8);

/// The color of `#AARRGGBB` given as bytes.
pub open spec fn argb_of(b: Seq<u8>) -> Option<Color> {
    if b.len() != 9 || b[0] != 0x23 {
        None
    } else {
        match (hex_pair(b[1], b[2]), hex_pair(b[3], b[4]), hex_pair(b[5], b[6]), hex_pair(b[7], b[8])) {
            (Some(a), Some(r), Some(g), Some(bl)) => Some((a, r, g, bl)),
            _ => None,
        }
    }
}

/// The color of `#RRGGBB` given as bytes.
pub open spec fn rgb_of(b: Seq<u8>) -> Option<(u8, u8, u8)> {
    if b.len() != 7 || b[0] != 0x23 {
        None
    } else {
        match (hex_pair(b[1], b[2]), hex_pair(b[3], b[4]), hex_pair(b[5], b[6])) {
            (Some(r), Some(g), Some(bl)) => Some((r, g, bl)),
            _ => None,
        }
    }
}

/// Parses an ARGB color string like `#80FF00FF`.
pub fn parse_argb(s: &str) -> (c: Option<Color>)
    ensures
        c == argb_of(s.spec_bytes()),
{
    let b = bytes_of(s);
    if b.len() != 9 || b[0] != 0x23 {
        return None;
    }
    let a = hex_pair_value(b[1], b[2]);
    let r = hex_pair_value(b[3], b[4]);
    let g = hex_pair_value(b[5], b[6]);
    let bl = hex_pair_value(b[7], b[8]);
    match (a, r, g, bl) {
        (Some(a), Some(r), Some(g), Some(bl)) => Some((a, r, g, bl)),
        _ => None,
    }
}

/// Parses an RGB color string like `#FF00FF` (no alpha).
pub fn parse_rgb(s: &str) -> (c: Option<(u8, u8, u8)>)
    ensures
        c == rgb_of(s.spec_bytes()),
{
    let b = bytes_of(s);
    if b.len() != 7 || b[0] != 0x23 {
        return None;
    }
    let r = hex_pair_value(b[1], b[2]);
    let g = hex_pair_value(b[3], b[4]);
    let bl = hex_pair_value(b[5], b[6]);
    match (r, g, bl) {
        (Some(r), Some(g), Some(bl)) => Some((r, g, bl)),
        _ => None,
    }
}

/// The alpha byte of an opacity percentage: negative means opaque, values
/// above 100 count as 100, and the result is rounded to nearest.
pub open spec fn alpha_of_percent(percent: int) -> u8 {
    if percent < 0 {
        255
    } else {
        let c = if percent < 100 {
            percent
        } else {
            100
        };
        ((c * 255 + 50) / 100) as u8
    }
}

/// Converts a legacy overlay opacity percentage (0 to 100) to an alpha byte.
pub fn legacy_opacity_to_alpha(percent: i32) -> (a: u8)
    ensures
        a == alpha_of_percent(percent as int),
{
    if percent < 0 {
        return 255;
    }
    let clamped = if percent < 100 {
        percent
    } else {
        100
    };
    ((clamped * 255 + 50) / 100) as u8
}

/// The color of a settings value: ARGB first, else RGB with the alpha of the
/// legacy opacity (opaque without one).
pub open spec fn color_of(b: Seq<u8>, legacy_opacity: Option<i32>) -> Option<Color> {
    match argb_of(b) {
        Some(c) => Some(c),
        None => match rgb_of(b) {
            Some((r, g, bl)) => Some(
                (
                    match legacy_opacity {
                        Some(p) => alpha_of_percent(p as int),
                        None => 255u8,
                    },
                    r,
                    g,
                    bl,
                ),
            ),
            None => None,
        },
    }
}

/// Parses a color value of the settings, in the new ARGB form or the legacy
/// RGB form with a separate opacity.
pub fn parse_color(value_str: &str, legacy_opacity: Option<i32>) -> (c: Option<Color>)
    ensures
        c == color_of(value_str.spec_bytes(), legacy_opacity),
{
    if let Some(color) = parse_argb(value_str) {
        return Some(color);
    }
    if let Some((r, g, b)) = parse_rgb(value_str) {
        let alpha = match legacy_opacity {
            Some(p) => legacy_opacity_to_alpha(p),
            None => 255,
        };
        return Some((alpha, r, g, b));
    }
    None
}

/// Full opacity gives an opaque alpha, and the alpha never decreases as the
/// percentage grows.
pub proof fn lemma_alpha_monotonic(p: int, q: int)
    requires
        0 <= p <= q,
    ensures
        alpha_of_percent(p) <= alpha_of_percent(q),
        alpha_of_percent(100) == 255,
        alpha_of_percent(0) == 0,
{
    let cp = if p < 100 { p } else { 100 };
    let cq = if q < 100 { q } else { 100 };
    assert((cp * 255 + 50) / 100 <= (cq * 255 + 50) / 100) by (nonlinear_arith)
        requires
            0 <= cp <= cq <= 100,
    ;
    assert(0 <= (cq * 255 + 50) / 100 <= 255) by (nonlinear_arith)
        requires
            0 <= cq <= 100,
    ;
    assert(0 <= (cp * 255 + 50) / 100 <= 255) by (nonlinear_arith)
        requires
            0 <= cp <= 100,
    ;
}

} // verus!

verus! {

/// The `value` of the property `key`.
pub open spec fn prop(props: JsonValue, key: Seq<char>) -> Option<JsonValue> {
    match json_get(props, key) {
        Some(p) => json_get(p, "value"@),
        None => None,
    }
}

/// A numeric property cast to `i32` the way a float is.
pub open spec fn prop_int(props: JsonValue, key: Seq<char>) -> Option<i32> {
    as_whole_i32(prop(props, key))
}

/// The value when present and not negative, else the default.
pub open spec fn nonneg_or(v: Option<i32>, d: i32) -> i32 {
    match v {
        Some(x) => if x >= 0 {
            x
        } else {
            d
        },
        None => d,
    }
}

/// The legacy overlay opacity, when it is a percentage.
pub open spec fn legacy_opacity_of(props: JsonValue) -> Option<i32> {
    match prop_int(props, "overlay_opacity"@) {
        Some(v) => if 0 <= v <= 100 {
            Some(v)
        } else {
            None
        },
        None => None,
    }
}

/// A color property, or the default when missing or unreadable.
pub open spec fn color_setting(props: JsonValue, key: Seq<char>, legacy: Option<i32>, d: Color) -> Color {
    match as_str(prop(props, key)) {
        Some(cs) => match color_of(encode_utf8(cs@), legacy) {
            Some(c) => c,
            None => d,
        },
        None => d,
    }
}

/// The activation method: code 1 of a version "1.0" document meant the
/// shake; an unknown code keeps the default.
pub open spec fn method_setting(root: JsonValue, props: JsonValue) -> ActivationMethod {
    match prop_int(props, "activation_method"@) {
        Some(v) => {
            let m = if str_or(as_str(json_get(root, "version"@)), ""@) == "1.0"@ && v == 1 {
                Some(ActivationMethod::ShakeMouse)
            } else {
                activation_method_of_code(v as int)
            };
            match m {
                Some(m) => m,
                None => ActivationMethod::DoubleLeftCtrl,
            }
        },
        None => ActivationMethod::DoubleLeftCtrl,
    }
}

/// The non-empty trimmed pieces.
pub open spec fn apps_of_pieces(ps: Seq<Seq<char>>) -> Seq<Seq<char>>
    decreases ps.len(),
{
    if ps.len() == 0 {
        Seq::empty()
    } else {
        let prev = apps_of_pieces(ps.drop_last());
        let t = trimmed(ps.last());
        if t.len() > 0 {
            prev.push(t)
        } else {
            prev
        }
    }
}

/// The apps of the lines, each line split further at carriage returns.
pub open spec fn apps_of_lines(ls: Seq<Seq<char>>) -> Seq<Seq<char>>
    decreases ls.len(),
{
    if ls.len() == 0 {
        Seq::empty()
    } else {
        apps_of_lines(ls.drop_last()) + apps_of_pieces(split_seq(ls.last(), '\r'))
    }
}

/// The excluded apps of a text: upper-cased, split at line feeds and
/// carriage returns, trimmed, empty pieces dropped.
pub open spec fn excluded_apps_list(text: Seq<char>) -> Seq<Seq<char>> {
    apps_of_lines(split_seq(uppercase_of(text), '\n'))
}

pub open spec fn strings_view(v: Seq<String>) -> Seq<Seq<char>> {
    v.map_values(|s: String| s@)
}

/// The settings a document gives: its `properties` object read member by
/// member, each missing or invalid member keeping its default; all
/// defaults when there is no such object.
pub open spec fn settings_from_document(root: JsonValue, s: Settings) -> bool {
    let props = json_get(root, "properties"@);
    if props matches Some(JsonValue::Object(_)) {
        let p = props->0;
        let legacy = legacy_opacity_of(p);
        &&& s.activation_method == method_setting(root, p)
        &&& s.include_win_key == bool_or(as_bool(prop(p, "include_win_key"@)), false)
        &&& s.do_not_activate_on_game_mode == bool_or(as_bool(prop(p, "do_not_activate_on_game_mode"@)), true)
        &&& s.background_color == color_setting(p, "background_color"@, legacy, (128u8, 0u8, 0u8, 0u8))
        &&& s.spotlight_color == color_setting(p, "spotlight_color"@, legacy, (128u8, 255u8, 255u8, 255u8))
        &&& s.spotlight_radius == nonneg_or(prop_int(p, "spotlight_radius"@), 100)
        &&& s.animation_duration_ms == nonneg_or(prop_int(p, "animation_duration_ms"@), 500)
        &&& s.spotlight_initial_zoom == nonneg_or(prop_int(p, "spotlight_initial_zoom"@), 9)
        &&& s.shake_minimum_distance == nonneg_or(prop_int(p, "shaking_minimum_distance"@), 1000)
        &&& s.shake_interval_ms == nonneg_or(prop_int(p, "shaking_interval_ms"@), 1000)
        &&& s.shake_factor == nonneg_or(prop_int(p, "shaking_factor"@), 400)
        &&& strings_view(s.excluded_apps@) == match as_str(prop(p, "excluded_apps"@)) {
            Some(t) => excluded_apps_list(t@),
            None => Seq::empty(),
        }
    } else {
        default_fields(s) && s.excluded_apps@.len() == 0
    }
}

fn prop_value<'a>(props: &'a JsonValue, key: &str) -> (r: Option<&'a JsonValue>)
    ensures
        match r {
            Some(x) => prop(*props, key@) == Some(*x),
            None => prop(*props, key@) is None,
        },
{
    match props.get(key) {
        Some(p) => p.get("value"),
        None => None,
    }
}

fn prop_int_value(props: &JsonValue, key: &str) -> (r: Option<i32>)
    ensures
        r == prop_int(*props, key@),
{
    match prop_value(props, key) {
        Some(v) => v.as_whole_i32(),
        None => None,
    }
}

fn prop_bool_value(props: &JsonValue, key: &str, d: bool) -> (b: bool)
    ensures
        b == bool_or(as_bool(prop(*props, key@)), d),
{
    match prop_value(props, key) {
        Some(v) => match v.as_bool() {
            Some(b) => b,
            None => d,
        },
        None => d,
    }
}

fn nonneg_value(props: &JsonValue, key: &str, d: i32) -> (r: i32)
    ensures
        r == nonneg_or(prop_int(*props, key@), d),
{
    match prop_int_value(props, key) {
        Some(v) => if v >= 0 {
            v
        } else {
            d
        },
        None => d,
    }
}

fn color_value(props: &JsonValue, key: &str, legacy: Option<i32>, d: Color) -> (c: Color)
    ensures
        c == color_setting(*props, key@, legacy, d),
{
    match prop_value(props, key) {
        Some(v) => match v.as_str() {
            Some(cs) => match parse_color(cs.as_str(), legacy) {
                Some(c) => c,
                None => d,
            },
            None => d,
        },
        None => d,
    }
}

/// The excluded apps of a text.
pub fn excluded_apps_from(text: &str) -> (v: Vec<String>)
    ensures
        strings_view(v@) == excluded_apps_list(text@),
{
    let up = to_uppercase(text);
    let cs = chars_of(up.as_str());
    let ls = split_chars(&cs, '\n');
    let ghost lv = split_seq(up@, '\n');
    let mut v: Vec<String> = Vec::new();
    let mut i: usize = 0;
    proof {
        assert(strings_view(v@) =~= Seq::<Seq<char>>::empty());
    }
    while i < ls.len()
        invariant
            i <= ls@.len() == lv.len(),
            lv == split_seq(uppercase_of(text@), '\n'),
            forall|k: int| 0 <= k < ls@.len() ==> #[trigger] ls@[k]@ == lv[k],
            strings_view(v@) == apps_of_lines(lv.take(i as int)),
        decreases ls@.len() - i,
    {
        proof {
            assert(lv.take(i + 1).drop_last() =~= lv.take(i as int));
            assert(lv.take(i + 1).last() == ls@[i as int]@);
        }
        let parts = split_chars(&ls[i], '\r');
        let ghost pv = split_seq(ls@[i as int]@, '\r');
        let ghost base = strings_view(v@);
        let mut j: usize = 0;
        proof {
            assert(base + apps_of_pieces(pv.take(0)) =~= base);
        }
        while j < parts.len()
            invariant
                j <= parts@.len() == pv.len(),
                forall|k: int| 0 <= k < parts@.len() ==> #[trigger] parts@[k]@ == pv[k],
                strings_view(v@) == base + apps_of_pieces(pv.take(j as int)),
            decreases parts@.len() - j,
        {
            proof {
                assert(pv.take(j + 1).drop_last() =~= pv.take(j as int));
                assert(pv.take(j + 1).last() == parts@[j as int]@);
            }
            let piece = string_of(&parts[j]);
            let t = trim_str(piece.as_str());
            if t.unicode_len() > 0 {
                let ghost before = v@;
                v.push(String::from_str(t));
                proof {
                    assert(strings_view(v@) =~= strings_view(before).push(t@));
                }
            }
            j = j + 1;
        }
        proof {
            assert(pv.take(j as int) =~= pv);
        }
        i = i + 1;
    }
    proof {
        assert(lv.take(i as int) =~= lv);
    }
    v
}

/// Reads the settings from a settings document (`properties` holding
/// `{ "value": .. }` members); a document without a `properties` object
/// gives the defaults.
pub fn settings_from_json(root: &JsonValue) -> (s: Settings)
    ensures
        settings_from_document(*root, s),
{
    let mut s = Settings::default();
    let props = match root.get("properties") {
        Some(p) => p,
        None => {
            return s;
        },
    };
    match props {
        JsonValue::Object(_) => {},
        _ => {
            return s;
        },
    }
    match prop_int_value(props, "activation_method") {
        Some(val) => {
            let is_v1 = match get_str(root, "version") {
                Some(v) => str_eq(v.as_str(), "1.0"),
                None => str_eq("", "1.0"),
            };
            let method = if is_v1 && val == 1 {
                Some(ActivationMethod::ShakeMouse)
            } else {
                ActivationMethod::from_i32(val)
            };
            match method {
                Some(m) => {
                    s.activation_method = m;
                },
                None => {},
            }
        },
        None => {},
    }
    s.include_win_key = prop_bool_value(props, "include_win_key", s.include_win_key);
    s.do_not_activate_on_game_mode = prop_bool_value(
        props,
        "do_not_activate_on_game_mode",
        s.do_not_activate_on_game_mode,
    );
    let legacy = match prop_int_value(props, "overlay_opacity") {
        Some(v) => if v >= 0 && v <= 100 {
            Some(v)
        } else {
            None
        },
        None => None,
    };
    s.background_color = color_value(props, "background_color", legacy, s.background_color);
    s.spotlight_color = color_value(props, "spotlight_color", legacy, s.spotlight_color);
    s.spotlight_radius = nonneg_value(props, "spotlight_radius", s.spotlight_radius);
    s.animation_duration_ms = nonneg_value(props, "animation_duration_ms", s.animation_duration_ms);
    s.spotlight_initial_zoom = nonneg_value(props, "spotlight_initial_zoom", s.spotlight_initial_zoom);
    s.shake_minimum_distance = nonneg_value(props, "shaking_minimum_distance", s.shake_minimum_distance);
    s.shake_interval_ms = nonneg_value(props, "shaking_interval_ms", s.shake_interval_ms);
    s.shake_factor = nonneg_value(props, "shaking_factor", s.shake_factor);
    match prop_value(props, "excluded_apps") {
        Some(v) => match v.as_str() {
            Some(t) => {
                s.excluded_apps = excluded_apps_from(t.as_str());
            },
            None => {},
        },
        None => {},
    }
    proof {
        if !(as_str(prop(*props, "excluded_apps"@)) is Some) {
            assert(strings_view(s.excluded_apps@) =~= Seq::<Seq<char>>::empty());
        }
    }
    s
}

} // verus!

verus! {

/// Reads the settings from a settings file's text; text that is no JSON
/// reads as a null document, which gives the defaults.
pub fn parse_settings_json(json_str: &str) -> (s: Settings)
    ensures
        match json_of_text(json_str@) {
            Some(root) => settings_from_document(root, s),
            None => settings_from_document(JsonValue::Null, s),
        },
{
    match parse_json(json_str) {
        Ok(root) => settings_from_json(&root),
        Err(_) => settings_from_json(&JsonValue::Null),
    }
}

} // verus!
