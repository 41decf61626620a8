//! Hotkey and color setting values.

use vstd::prelude::*;
use crate::json::JsonValue;
use crate::text::push_str;

verus! {

/// A hotkey: modifier flags, key code and key name.
#[derive(Debug, Clone, PartialEq, Eq)]
pub struct HotkeyObject {
    pub win: bool,
    pub ctrl: bool,
    pub alt: bool,
    pub shift: bool,
    pub code: u32,
    pub key: String,
}

/// "shift", "ctrl", "win", "alt" for the held modifiers, then the key, joined
/// with `+`.
pub open spec fn hotkey_text(h: HotkeyObject) -> Seq<char> {
    let s1 = if h.shift { "shift+"@ } else { Seq::empty() };
    let s2 = if h.ctrl { "ctrl+"@ } else { Seq::empty() };
    let s3 = if h.win { "win+"@ } else { Seq::empty() };
    let s4 = if h.alt { "alt+"@ } else { Seq::empty() };
    s1 + s2 + s3 + s4 + h.key@
}

impl HotkeyObject {
    pub fn new(win: bool, ctrl: bool, alt: bool, shift: bool, code: u32, key: &str) -> (h: Self)
        ensures
            h.win == win,
            h.ctrl == ctrl,
            h.alt == alt,
            h.shift == shift,
            h.code == code,
            h.key@ == key@,
    {
        HotkeyObject { win, ctrl, alt, shift, code, key: String::from_str(key) }
    }

    /// The hotkey as text, such as `shift+ctrl+win+alt+A`.
    pub fn to_display_string(&self) -> (s: String)
        ensures
            s@ == hotkey_text(*self),
    {
        let mut s = String::new();
        if self.shift {
            push_str(&mut s, "shift+");
        }
        let ghost s1 = s@;
        if self.ctrl {
            push_str(&mut s, "ctrl+");
        }
        let ghost s2 = s@;
        if self.win {
            push_str(&mut s, "win+");
        }
        let ghost s3 = s@;
        if self.alt {
            push_str(&mut s, "alt+");
        }
        let ghost s4 = s@;
        push_str(&mut s, self.key.as_str());
        proof {
            let e = Seq::<char>::empty();
            assert(s1 == (if self.shift { "shift+"@ } else { e })) by {
                if !self.shift {
                    assert(s1 =~= e);
                } else {
                    assert(s1 =~= e + "shift+"@);
                }
            }
            assert(s@ =~= hotkey_text(*self));
        }
        s
    }
}

impl Default for HotkeyObject {
    fn default() -> (h: Self)
        ensures
            !h.win && !h.ctrl && !h.alt && !h.shift && h.code == 0 && h.key@.len() == 0,
    {
        HotkeyObject { win: false, ctrl: false, alt: false, shift: false, code: 0, key: String::new() }
    }
}

/// A color value as its text.
#[derive(Debug, Clone, PartialEq, Eq)]
pub struct ColorObject {
    pub value: String,
}

impl ColorObject {
    pub fn new(value: &str) -> (c: Self)
        ensures
            c.value@ == value@,
    {
        ColorObject { value: String::from_str(value) }
    }
}

} // verus!

verus! {

/// A settings value: a boolean, an integer, a string, a hotkey, or another
/// JSON value.
#[derive(Debug)]
pub enum SettingsValue {
    Bool(bool),
    Int(i64),
    String(String),
    Hotkey(HotkeyObject),
    Object(JsonValue),
}

impl SettingsValue {
    pub fn as_bool(&self) -> (r: Option<bool>)
        ensures
            r == match *self {
                SettingsValue::Bool(b) => Some(b),
                _ => None,
            },
    {
        match self {
            SettingsValue::Bool(v) => Some(*v),
            _ => None,
        }
    }

    /// The integer: an `Int`, or a JSON number holding an integer.
    pub fn as_int(&self) -> (r: Option<i64>)
        ensures
            r == match *self {
                SettingsValue::Int(n) => Some(n),
                SettingsValue::Object(JsonValue::Number(n, _)) => n,
                _ => None,
            },
    {
        match self {
            SettingsValue::Int(v) => Some(*v),
            SettingsValue::Object(JsonValue::Number(n, _)) => *n,
            _ => None,
        }
    }

    pub fn as_string(&self) -> (r: Option<&str>)
        ensures
            match *self {
                SettingsValue::String(s) => r matches Some(t) && t@ == s@,
                _ => r is None,
            },
    {
        match self {
            SettingsValue::String(v) => Some(v.as_str()),
            _ => None,
        }
    }

    pub fn as_hotkey(&self) -> (r: Option<&HotkeyObject>)
        ensures
            match *self {
                SettingsValue::Hotkey(h) => r == Some(&h),
                _ => r is None,
            },
    {
        match self {
            SettingsValue::Hotkey(v) => Some(v),
            _ => None,
        }
    }
}

} // verus!
