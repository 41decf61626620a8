//! JSON values as plain data, and the reads the settings parsers make.

use vstd::prelude::*;
use crate::text::str_eq;
use crate::decimal::{number_text_i32, number_text_to_i32};

verus! {

/// A JSON value. A number holds its value when it is an integer that fits
/// in an `i64` (`None` for a fraction or a larger integer), and, when it was
/// read from text, the number as `serde_json` writes it.
#[derive(Debug)]
pub enum JsonValue {
    Null,
    Bool(bool),
    Number(Option<i64>, Option<String>),
    Str(String),
    Array(Vec<JsonValue>),
    Object(Vec<(String, JsonValue)>),
}

/// The value under the first entry with the key, in an object.
pub open spec fn entry_value(entries: Seq<(String, JsonValue)>, key: Seq<char>) -> Option<JsonValue>
    decreases entries.len(),
{
    if entries.len() == 0 {
        None
    } else if entries[0].0@ == key {
        Some(entries[0].1)
    } else {
        entry_value(entries.drop_first(), key)
    }
}

/// The member `key` of an object; `None` for a missing key or a value that
/// is no object.
pub open spec fn json_get(v: JsonValue, key: Seq<char>) -> Option<JsonValue> {
    match v {
        JsonValue::Object(entries) => entry_value(entries@, key),
        _ => None,
    }
}

pub open spec fn as_str(v: Option<JsonValue>) -> Option<String> {
    match v {
        Some(JsonValue::Str(s)) => Some(s),
        _ => None,
    }
}

pub open spec fn as_i64(v: Option<JsonValue>) -> Option<i64> {
    match v {
        Some(JsonValue::Number(Some(n), _)) => Some(n),
        _ => None,
    }
}

/// An integer saturated into `i32`, as a float-to-`i32` cast gives it.
pub open spec fn sat_i32(n: i64) -> i32 {
    if n > i32::MAX {
        i32::MAX
    } else if n < i32::MIN {
        i32::MIN
    } else {
        n as i32
    }
}

/// A number's value cast to `i32` the way a float is: truncated toward zero
/// and saturated. An integer gives it directly; another number gives it from
/// its written form, which names the float `serde_json` holds exactly.
pub open spec fn as_whole_i32(v: Option<JsonValue>) -> Option<i32> {
    match v {
        Some(JsonValue::Number(Some(n), _)) => Some(sat_i32(n)),
        Some(JsonValue::Number(None, Some(t))) => Some(number_text_i32(t@)),
        _ => None,
    }
}

pub open spec fn as_bool(v: Option<JsonValue>) -> Option<bool> {
    match v {
        Some(JsonValue::Bool(b)) => Some(b),
        _ => None,
    }
}

pub open spec fn as_array(v: Option<JsonValue>) -> Option<Seq<JsonValue>> {
    match v {
        Some(JsonValue::Array(items)) => Some(items@),
        _ => None,
    }
}

/// The string's characters, or the default.
pub open spec fn str_or(v: Option<String>, d: Seq<char>) -> Seq<char> {
    match v {
        Some(s) => s@,
        None => d,
    }
}

/// The boolean, or the default.
pub open spec fn bool_or(v: Option<bool>, d: bool) -> bool {
    match v {
        Some(b) => b,
        None => d,
    }
}

impl JsonValue {
    /// The member `key` of an object.
    pub fn get(&self, key: &str) -> (r: Option<&JsonValue>)
        ensures
            match r {
                Some(x) => json_get(*self, key@) == Some(*x),
                None => json_get(*self, key@) is None,
            },
    {
        match self {
            JsonValue::Object(entries) => {
                let mut i: usize = 0;
                proof {
                    assert(entries@.skip(0) =~= entries@);
                }
                while i < entries.len()
                    invariant
                        json_get(*self, key@) == entry_value(entries@, key@),
                        i <= entries@.len(),
                        entry_value(entries@, key@) == entry_value(entries@.skip(i as int), key@),
                    decreases entries@.len() - i,
                {
                    proof {
                        assert(entries@.skip(i as int).drop_first() =~= entries@.skip(i + 1));
                        assert(entries@.skip(i as int)[0] == entries@[i as int]);
                    }
                    if str_eq(entries[i].0.as_str(), key) {
                        return Some(&entries[i].1);
                    }
                    i = i + 1;
                }
                None
            },
            _ => None,
        }
    }

    pub fn as_str(&self) -> (r: Option<&String>)
        ensures
            match r {
                Some(s) => as_str(Some(*self)) == Some(*s),
                None => as_str(Some(*self)) is None,
            },
    {
        match self {
            JsonValue::Str(s) => Some(s),
            _ => None,
        }
    }

    pub fn as_i64(&self) -> (r: Option<i64>)
        ensures
            r == as_i64(Some(*self)),
    {
        match self {
            JsonValue::Number(n, _) => *n,
            _ => None,
        }
    }

    /// The number's value cast to `i32` the way a float is.
    pub fn as_whole_i32(&self) -> (r: Option<i32>)
        ensures
            r == as_whole_i32(Some(*self)),
    {
        match self {
            JsonValue::Number(Some(n), _) => Some(
                if *n > i32::MAX as i64 {
                    i32::MAX
                } else if *n < i32::MIN as i64 {
                    i32::MIN
                } else {
                    *n as i32
                },
            ),
            JsonValue::Number(None, Some(t)) => Some(number_text_to_i32(t.as_str())),
            _ => None,
        }
    }

    pub fn as_bool(&self) -> (r: Option<bool>)
        ensures
            r == as_bool(Some(*self)),
    {
        match self {
            JsonValue::Bool(b) => Some(*b),
            _ => None,
        }
    }

    pub fn as_array(&self) -> (r: Option<&Vec<JsonValue>>)
        ensures
            match r {
                Some(a) => as_array(Some(*self)) == Some(a@),
                None => as_array(Some(*self)) is None,
            },
    {
        match self {
            JsonValue::Array(a) => Some(a),
            _ => None,
        }
    }
}

/// The string member `key`, if there is one.
pub fn get_str<'a>(v: &'a JsonValue, key: &str) -> (r: Option<&'a String>)
    ensures
        match r {
            Some(s) => as_str(json_get(*v, key@)) == Some(*s),
            None => as_str(json_get(*v, key@)) is None,
        },
{
    match v.get(key) {
        Some(x) => x.as_str(),
        None => None,
    }
}

/// The integer member `key`, if there is one.
pub fn get_i64(v: &JsonValue, key: &str) -> (r: Option<i64>)
    ensures
        r == as_i64(json_get(*v, key@)),
{
    match v.get(key) {
        Some(x) => x.as_i64(),
        None => None,
    }
}

/// The boolean member `key`, if there is one.
pub fn get_bool(v: &JsonValue, key: &str) -> (r: Option<bool>)
    ensures
        r == as_bool(json_get(*v, key@)),
{
    match v.get(key) {
        Some(x) => x.as_bool(),
        None => None,
    }
}

/// The array member `key`, if there is one.
pub fn get_array<'a>(v: &'a JsonValue, key: &str) -> (r: Option<&'a Vec<JsonValue>>)
    ensures
        match r {
            Some(a) => as_array(json_get(*v, key@)) == Some(a@),
            None => as_array(json_get(*v, key@)) is None,
        },
{
    match v.get(key) {
        Some(x) => x.as_array(),
        None => None,
    }
}

} // verus!

verus! {

/// A JSON document as `serde_json` holds it.
#[verifier::external_type_specification]
#[verifier::external_body]
pub struct ExSerdeJsonValue(serde_json::Value);

/// What `serde_json::from_str::<serde_json::Value>` makes of a text, as a
/// `JsonValue` (each number with `as_i64` and its written form):
/// `None` where the text is no JSON document. It depends on the text alone.
pub uninterp spec fn json_of_text(text: Seq<char>) -> Option<JsonValue>;

/// The `JsonValue` of a `serde_json` value, taken apart variant by variant
/// and member by member, in the order `serde_json` keeps them.
#[verifier::external_body]
fn json_value_of(v: &serde_json::Value) -> JsonValue {
    match v {
        serde_json::Value::Null => JsonValue::Null,
        serde_json::Value::Bool(b) => JsonValue::Bool(*b),
        serde_json::Value::Number(n) => JsonValue::Number(n.as_i64(), Some(n.to_string())),
        serde_json::Value::String(s) => JsonValue::Str(s.clone()),
        serde_json::Value::Array(a) => JsonValue::Array(a.iter().map(json_value_of).collect()),
        serde_json::Value::Object(o) => JsonValue::Object(o.iter().map(|(k, x)| (k.clone(), json_value_of(x))).collect()),
    }
}

/// Parses JSON text with `serde_json::from_str::<serde_json::Value>`. The
/// document it gives is named `json_of_text`; on a parse error the result
/// is the error's message, and `json_of_text` is `None` for the text.
#[verifier::external_body]
pub fn parse_json(text: &str) -> (r: Result<JsonValue, String>)
    ensures
        match r {
            Ok(v) => json_of_text(text@) == Some(v),
            Err(_) => json_of_text(text@) is None,
        },
{
    match serde_json::from_str::<serde_json::Value>(text) {
        Ok(v) => Ok(json_value_of(&v)),
        Err(e) => Err(e.to_string()),
    }
}

} // verus!
