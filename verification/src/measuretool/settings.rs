//! Screen ruler settings.

use vstd::prelude::*;
use vstd::string::StringSliceAdditionalSpecFns;
use super::types::{unit_of_index, Color, MeasureUnit};
use vstd::utf8::{encode_utf8, is_ascii_chars, is_ascii_chars_encode_utf8};
use crate::text::{bytes_of, hex_char, hex_digit, hex_char_of, hex_pair, hex_pair_value, push_char};

verus! {

/// Screen ruler settings.
#[derive(Debug, Clone, Copy, PartialEq, Eq, Structural)]
pub struct MeasureToolSettings {
    /// Tolerance of the edge detection (0 to 255).
    pub pixel_tolerance: u8,
    /// Capture the screen continuously.
    pub continuous_capture: bool,
    /// Draw short perpendicular ends on the cross lines.
    pub draw_feet_on_cross: bool,
    /// Compare each color channel on its own instead of the summed difference.
    pub per_color_channel_edge_detection: bool,
    pub line_color: Color,
    pub units: MeasureUnit,
}

pub open spec fn default_settings() -> MeasureToolSettings {
    MeasureToolSettings {
        pixel_tolerance: 30,
        continuous_capture: false,
        draw_feet_on_cross: true,
        per_color_channel_edge_detection: false,
        line_color: Color { r: 255, g: 69, b: 0 },
        units: MeasureUnit::Pixel,
    }
}

impl Default for MeasureToolSettings {
    fn default() -> (s: Self)
        ensures
            s == default_settings(),
    {
        MeasureToolSettings {
            pixel_tolerance: 30,
            continuous_capture: false,
            draw_feet_on_cross: true,
            per_color_channel_edge_detection: false,
            line_color: Color::default(),
            units: MeasureUnit::Pixel,
        }
    }
}

/// The values read from a settings file; each is absent when the file does
/// not hold it.
#[derive(Debug, Clone)]
pub struct SettingsValues {
    pub continuous_capture: Option<bool>,
    pub draw_feet_on_cross: Option<bool>,
    pub pixel_tolerance: Option<u8>,
    pub measure_cross_color: Option<String>,
    pub per_color_channel_edge_detection: Option<bool>,
    pub units_of_measure: Option<i32>,
}

/// The bytes after all leading `#` characters.
pub open spec fn drop_hashes(b: Seq<u8>) -> Seq<u8>
    decreases b.len(),
{
    if b.len() > 0 && b[0] == 0x23 {
        drop_hashes(b.drop_first())
    } else {
        b
    }
}

/// The color of an `RRGGBB` string (leading `#` characters skipped).
pub open spec fn rgb_color_of(bytes: Seq<u8>) -> Option<Color> {
    let t = drop_hashes(bytes);
    if t.len() != 6 {
        None
    } else {
        match (hex_pair(t[0], t[1]), hex_pair(t[2], t[3]), hex_pair(t[4], t[5])) {
            (Some(r), Some(g), Some(b)) => Some(Color { r, g, b }),
            _ => None,
        }
    }
}

/// Parses an `#RRGGBB` color.
pub fn parse_rgb_color(s: &str) -> (c: Option<Color>)
    ensures
        c == rgb_color_of(s.spec_bytes()),
{
    let b = bytes_of(s);
    let mut i: usize = 0;
    proof {
        assert(b@.skip(0) =~= b@);
    }
    while i < b.len() && b[i] == 0x23
        invariant
            i <= b@.len(),
            drop_hashes(b@) == drop_hashes(b@.skip(i as int)),
        decreases b@.len() - i,
    {
        proof {
            assert(b@.skip(i as int).drop_first() =~= b@.skip(i + 1));
        }
        i = i + 1;
    }
    proof {
        assert(drop_hashes(b@.skip(i as int)) == b@.skip(i as int));
    }
    if b.len() - i != 6 {
        return None;
    }
    let r = hex_pair_value(b[i], b[i + 1]);
    let g = hex_pair_value(b[i + 2], b[i + 3]);
    let bl = hex_pair_value(b[i + 4], b[i + 5]);
    match (r, g, bl) {
        (Some(r), Some(g), Some(bl)) => Some(Color { r, g, b: bl }),
        _ => None,
    }
}

/// Settings over the defaults: each value present in the file replaces the
/// default; a color that does not parse and an unknown unit index leave the
/// default color and give pixels.
pub open spec fn settings_from(v: SettingsValues) -> MeasureToolSettings {
    let d = default_settings();
    MeasureToolSettings {
        continuous_capture: match v.continuous_capture {
            Some(x) => x,
            None => d.continuous_capture,
        },
        draw_feet_on_cross: match v.draw_feet_on_cross {
            Some(x) => x,
            None => d.draw_feet_on_cross,
        },
        pixel_tolerance: match v.pixel_tolerance {
            Some(x) => x,
            None => d.pixel_tolerance,
        },
        line_color: match v.measure_cross_color {
            Some(s) => match rgb_color_of(encode_utf8(s@)) {
                Some(c) => c,
                None => d.line_color,
            },
            None => d.line_color,
        },
        per_color_channel_edge_detection: match v.per_color_channel_edge_detection {
            Some(x) => x,
            None => d.per_color_channel_edge_detection,
        },
        units: match v.units_of_measure {
            Some(i) => unit_of_index(i as int),
            None => d.units,
        },
    }
}

impl MeasureToolSettings {
    /// Builds the settings from the values of a settings file.
    pub fn from_values(v: &SettingsValues) -> (s: Self)
        ensures
            s == settings_from(*v),
    {
        let mut s = MeasureToolSettings::default();
        if let Some(x) = v.continuous_capture {
            s.continuous_capture = x;
        }
        if let Some(x) = v.draw_feet_on_cross {
            s.draw_feet_on_cross = x;
        }
        if let Some(x) = v.pixel_tolerance {
            s.pixel_tolerance = x;
        }
        if let Some(c) = &v.measure_cross_color {
            if let Some(color) = parse_rgb_color(c.as_str()) {
                s.line_color = color;
            }
        }
        if let Some(x) = v.per_color_channel_edge_detection {
            s.per_color_channel_edge_detection = x;
        }
        if let Some(i) = v.units_of_measure {
            s.units = MeasureUnit::from_index(i);
        }
        s
    }

    /// The line color as `#RRGGBB` (upper-case hex), as the settings file stores it.
    pub fn color_hex(&self) -> (s: String)
        ensures
            s@ == color_hex_of(self.line_color),
    {
        let c = self.line_color;
        let mut s = String::new();
        push_char(&mut s, '#');
        push_char(&mut s, hex_char_of(c.r / 16));
        push_char(&mut s, hex_char_of(c.r % 16));
        push_char(&mut s, hex_char_of(c.g / 16));
        push_char(&mut s, hex_char_of(c.g % 16));
        push_char(&mut s, hex_char_of(c.b / 16));
        push_char(&mut s, hex_char_of(c.b % 16));
        proof {
            assert(s@ =~= color_hex_of(c));
        }
        s
    }
}

/// `#RRGGBB` in upper-case hex.
pub open spec fn color_hex_of(c: Color) -> Seq<char> {
    seq![
        '#',
        hex_char((c.r / 16) as int),
        hex_char((c.r % 16) as int),
        hex_char((c.g / 16) as int),
        hex_char((c.g % 16) as int),
        hex_char((c.b / 16) as int),
        hex_char((c.b % 16) as int),
    ]
}

/// Writing a color as hex and reading it back gives the same color.
pub proof fn lemma_color_hex_roundtrip(c: Color)
    ensures
        rgb_color_of(encode_utf8(color_hex_of(c))) == Some(c),
{
    let h = color_hex_of(c);
    assert(is_ascii_chars(h));
    is_ascii_chars_encode_utf8(h);
    let b = encode_utf8(h);
    assert(b[0] == 0x23);
    assert(b.drop_first()[0] != 0x23);
    assert(drop_hashes(b.drop_first()) == b.drop_first());
    assert(drop_hashes(b) == b.drop_first());
    lemma_hex_char_digit((c.r / 16) as int);
    lemma_hex_char_digit((c.r % 16) as int);
    lemma_hex_char_digit((c.g / 16) as int);
    lemma_hex_char_digit((c.g % 16) as int);
    lemma_hex_char_digit((c.b / 16) as int);
    lemma_hex_char_digit((c.b % 16) as int);
}

proof fn lemma_hex_char_digit(v: int)
    requires
        0 <= v < 16,
    ensures
        hex_digit(hex_char(v) as u8) == Some(v as u8),
        hex_char(v) as u8 != 0x23,
        hex_char(v) as u8 != 0x2B,
        '\0' <= hex_char(v) <= '\u{7f}',
{
}

} // verus!
