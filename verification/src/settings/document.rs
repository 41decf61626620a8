//! A module's settings document: named properties, each holding a value
//! (and whatever other fields the document gives it), read and written by
//! key.

use vstd::prelude::*;
use crate::json::{as_bool, as_i64, as_str, JsonValue};
use crate::text::str_eq;

verus! {

/// The version a document is saved with, whatever it was read with.
pub const SAVED_VERSION: &'static str = "1.0";

/// A property: its value, and its other fields kept as they came.
#[derive(Debug)]
pub struct PropertyEntry {
    pub value: JsonValue,
    pub extra: Vec<(String, JsonValue)>,
}

/// A settings document: `name`, `version`, the properties, and other
/// top-level fields kept as they came.
#[derive(Debug)]
pub struct SettingsDocument {
    pub name: String,
    pub version: String,
    pub properties: Vec<(String, PropertyEntry)>,
    pub extra: Vec<(String, JsonValue)>,
}

impl Default for SettingsDocument {
    fn default() -> (d: Self)
        ensures
            d.name@.len() == 0,
            d.version@ == "1.0"@,
            d.properties@.len() == 0,
            d.extra@.len() == 0,
    {
        SettingsDocument {
            name: String::new(),
            version: String::from_str("1.0"),
            properties: Vec::new(),
            extra: Vec::new(),
        }
    }
}

/// The properties as (key, value) pairs.
pub open spec fn props_view(p: Seq<(String, PropertyEntry)>) -> Seq<(Seq<char>, JsonValue)> {
    p.map_values(|e: (String, PropertyEntry)| (e.0@, e.1.value))
}

/// Position `i` holds key `k`.
pub open spec fn key_at(p: Seq<(Seq<char>, JsonValue)>, k: Seq<char>, i: int) -> bool {
    0 <= i < p.len() && p[i].0 == k
}

/// The first position holding key `k`, or -1.
pub open spec fn first_at(p: Seq<(Seq<char>, JsonValue)>, k: Seq<char>) -> int {
    if exists|i: int| #[trigger] key_at(p, k, i) && (forall|j: int| 0 <= j < i ==> !#[trigger] key_at(p, k, j)) {
        choose|i: int| #[trigger] key_at(p, k, i) && (forall|j: int| 0 <= j < i ==> !#[trigger] key_at(p, k, j))
    } else {
        -1
    }
}

/// The value under key `k` (its first occurrence).
pub open spec fn lookup(p: Seq<(Seq<char>, JsonValue)>, k: Seq<char>) -> Option<JsonValue> {
    let i = first_at(p, k);
    if i >= 0 {
        Some(p[i].1)
    } else {
        None
    }
}

/// The pairs after writing `v` under `k`: the first occurrence gets the
/// value, or the pair is appended.
pub open spec fn put(p: Seq<(Seq<char>, JsonValue)>, k: Seq<char>, v: JsonValue) -> Seq<(Seq<char>, JsonValue)> {
    let i = first_at(p, k);
    if i >= 0 {
        p.update(i, (k, v))
    } else {
        p.push((k, v))
    }
}

proof fn lemma_first_at_found(p: Seq<(Seq<char>, JsonValue)>, k: Seq<char>, i: int)
    requires
        key_at(p, k, i),
        forall|j: int| 0 <= j < i ==> !#[trigger] key_at(p, k, j),
    ensures
        first_at(p, k) == i,
{
    let c = first_at(p, k);
    assert(key_at(p, k, c));
    if c < i {
        assert(!key_at(p, k, c));
    } else if c > i {
        assert(!key_at(p, k, i));
    }
}

proof fn lemma_first_at_none(p: Seq<(Seq<char>, JsonValue)>, k: Seq<char>)
    requires
        forall|j: int| !#[trigger] key_at(p, k, j),
    ensures
        first_at(p, k) == -1,
{
}

proof fn lemma_first_at_props(p: Seq<(Seq<char>, JsonValue)>, k: Seq<char>)
    ensures
        -1 <= first_at(p, k) < p.len(),
        first_at(p, k) >= 0 ==> key_at(p, k, first_at(p, k)),
        first_at(p, k) >= 0 ==> forall|j: int| 0 <= j < first_at(p, k) ==> !#[trigger] key_at(p, k, j),
        first_at(p, k) == -1 ==> forall|j: int| !#[trigger] key_at(p, k, j),
{
    if first_at(p, k) == -1 {
        assert forall|j: int| !#[trigger] key_at(p, k, j) by {
            if key_at(p, k, j) {
                lemma_least_key(p, k, j);
            }
        }
    }
}

proof fn lemma_least_key(p: Seq<(Seq<char>, JsonValue)>, k: Seq<char>, j: int)
    requires
        key_at(p, k, j),
    ensures
        exists|i: int| #[trigger] key_at(p, k, i) && (forall|m: int| 0 <= m < i ==> !#[trigger] key_at(p, k, m)),
    decreases j,
{
    if exists|m: int| 0 <= m < j && #[trigger] key_at(p, k, m) {
        let m = choose|m: int| 0 <= m < j && #[trigger] key_at(p, k, m);
        lemma_least_key(p, k, m);
    } else {
        assert(key_at(p, k, j) && (forall|m: int| 0 <= m < j ==> !#[trigger] key_at(p, k, m)));
    }
}

/// Writing a key and reading it back gives the value written; the other
/// keys read as before.
pub proof fn lemma_put_then_lookup(p: Seq<(Seq<char>, JsonValue)>, k: Seq<char>, v: JsonValue, other: Seq<char>)
    ensures
        lookup(put(p, k, v), k) == Some(v),
        other != k ==> lookup(put(p, k, v), other) == lookup(p, other),
{
    lemma_first_at_props(p, k);
    let q = put(p, k, v);
    let i = first_at(p, k);
    if i >= 0 {
        assert forall|j: int| 0 <= j < i implies !#[trigger] key_at(q, k, j) by {
            assert(q[j] == p[j]);
            assert(!key_at(p, k, j));
        }
        assert(key_at(q, k, i));
        lemma_first_at_found(q, k, i);
    } else {
        assert forall|j: int| 0 <= j < p.len() implies !#[trigger] key_at(q, k, j) by {
            assert(q[j] == p[j]);
            assert(!key_at(p, k, j));
        }
        assert(key_at(q, k, p.len() as int));
        lemma_first_at_found(q, k, p.len() as int);
    }
    if other != k {
        lemma_first_at_props(p, other);
        let a = first_at(p, other);
        assert forall|j: int| key_at(q, other, j) <==> #[trigger] key_at(p, other, j) by {
            if 0 <= j < p.len() && j != i {
                assert(q[j] == p[j]);
            }
        }
        if a >= 0 {
            assert forall|j: int| 0 <= j < a implies !#[trigger] key_at(q, other, j) by {
                assert(!key_at(p, other, j));
            }
            assert(key_at(q, other, a));
            lemma_first_at_found(q, other, a);
            assert(q[a] == p[a]);
        } else {
            assert forall|j: int| !#[trigger] key_at(q, other, j) by {
                assert(!key_at(p, other, j));
            }
            lemma_first_at_none(q, other);
        }
    }
}

/// The first position of a key among the properties.
fn find_property(props: &Vec<(String, PropertyEntry)>, key: &str) -> (r: Option<usize>)
    ensures
        match r {
            Some(i) => i == first_at(props_view(props@), key@) && i < props@.len(),
            None => first_at(props_view(props@), key@) == -1,
        },
{
    let ghost pv = props_view(props@);
    let mut i: usize = 0;
    while i < props.len()
        invariant
            i <= props@.len(),
            pv == props_view(props@),
            forall|j: int| 0 <= j < i ==> !#[trigger] key_at(pv, key@, j),
        decreases props@.len() - i,
    {
        if str_eq(props[i].0.as_str(), key) {
            proof {
                assert(key_at(pv, key@, i as int));
                lemma_first_at_found(pv, key@, i as int);
            }
            return Some(i);
        }
        proof {
            assert(!key_at(pv, key@, i as int));
        }
        i = i + 1;
    }
    proof {
        assert forall|j: int| !#[trigger] key_at(pv, key@, j) by {
            if 0 <= j < pv.len() {
                assert(j < i);
            }
        }
        lemma_first_at_none(pv, key@);
    }
    None
}

/// A module's settings: its document and the key of the module.
#[derive(Debug)]
pub struct Settings {
    pub doc: SettingsDocument,
    pub module_key: String,
}

impl Settings {
    /// Empty settings for a module, version "1.0".
    pub fn new(module_key: &str, module_name: &str) -> (s: Self)
        ensures
            s.module_key@ == module_key@,
            s.doc.name@ == module_name@,
            s.doc.version@ == "1.0"@,
            s.doc.properties@.len() == 0,
            s.doc.extra@.len() == 0,
    {
        Settings {
            doc: SettingsDocument {
                name: String::from_str(module_name),
                version: String::from_str("1.0"),
                properties: Vec::new(),
                extra: Vec::new(),
            },
            module_key: String::from_str(module_key),
        }
    }

    /// The value of a property.
    pub fn get_json_value(&self, key: &str) -> (r: Option<&JsonValue>)
        ensures
            match r {
                Some(v) => lookup(props_view(self.doc.properties@), key@) == Some(*v),
                None => lookup(props_view(self.doc.properties@), key@) is None,
            },
    {
        match find_property(&self.doc.properties, key) {
            Some(i) => Some(&self.doc.properties[i].1.value),
            None => None,
        }
    }

    /// A boolean property.
    pub fn get_bool(&self, key: &str) -> (r: Option<bool>)
        ensures
            r == as_bool(lookup(props_view(self.doc.properties@), key@)),
    {
        match self.get_json_value(key) {
            Some(v) => v.as_bool(),
            None => None,
        }
    }

    /// An integer property.
    pub fn get_int(&self, key: &str) -> (r: Option<i64>)
        ensures
            r == as_i64(lookup(props_view(self.doc.properties@), key@)),
    {
        match self.get_json_value(key) {
            Some(v) => v.as_i64(),
            None => None,
        }
    }

    /// A string property.
    pub fn get_string(&self, key: &str) -> (r: Option<String>)
        ensures
            match r {
                Some(s) => as_str(lookup(props_view(self.doc.properties@), key@)) matches Some(t) && t@ == s@,
                None => as_str(lookup(props_view(self.doc.properties@), key@)) is None,
            },
    {
        match self.get_json_value(key) {
            Some(v) => match v.as_str() {
                Some(s) => Some(s.clone()),
                None => None,
            },
            None => None,
        }
    }

    /// Writes a property's value: the property keeps its other fields, or
    /// is added with none.
    pub fn set_value(&mut self, key: &str, value: JsonValue)
        ensures
            props_view(final(self).doc.properties@) == put(props_view(old(self).doc.properties@), key@, value),
            ({
                let i = first_at(props_view(old(self).doc.properties@), key@);
                if i >= 0 {
                    final(self).doc.properties@[i].1.extra == old(self).doc.properties@[i].1.extra
                } else {
                    final(self).doc.properties@.last().1.extra@.len() == 0
                }
            }),
            final(self).doc.name == old(self).doc.name,
            final(self).doc.version == old(self).doc.version,
            final(self).doc.extra == old(self).doc.extra,
            final(self).module_key == old(self).module_key,
    {
        let ghost before = self.doc.properties@;
        proof {
            lemma_first_at_props(props_view(before), key@);
        }
        match find_property(&self.doc.properties, key) {
            Some(i) => {
                let (k, entry) = self.doc.properties.remove(i);
                let updated = PropertyEntry { value, extra: entry.extra };
                self.doc.properties.insert(i, (k, updated));
                proof {
                    assert(before[i as int].0@ == key@);
                    assert(props_view(self.doc.properties@) =~= put(props_view(before), key@, value));
                }
            },
            None => {
                self.doc.properties.push((String::from_str(key), PropertyEntry { value, extra: Vec::new() }));
                proof {
                    assert(props_view(self.doc.properties@) =~= put(props_view(before), key@, value));
                }
            },
        }
    }

    pub fn set_bool(&mut self, key: &str, value: bool)
        ensures
            props_view(final(self).doc.properties@) == put(
                props_view(old(self).doc.properties@),
                key@,
                JsonValue::Bool(value),
            ),
            final(self).doc.name == old(self).doc.name,
            final(self).doc.version == old(self).doc.version,
            final(self).module_key == old(self).module_key,
    {
        self.set_value(key, JsonValue::Bool(value));
    }

    pub fn set_int(&mut self, key: &str, value: i64)
        ensures
            props_view(final(self).doc.properties@) == put(
                props_view(old(self).doc.properties@),
                key@,
                JsonValue::Number(Some(value), None),
            ),
            final(self).doc.name == old(self).doc.name,
            final(self).doc.version == old(self).doc.version,
            final(self).module_key == old(self).module_key,
    {
        self.set_value(key, JsonValue::Number(Some(value), None));
    }

    pub fn set_string(&mut self, key: &str, value: &str)
        ensures
            ({
                let v = lookup(props_view(final(self).doc.properties@), key@);
                v matches Some(JsonValue::Str(s)) && s@ == value@
            }),
            forall|other: Seq<char>|
                other != key@ ==> #[trigger] lookup(props_view(final(self).doc.properties@), other) == lookup(
                    props_view(old(self).doc.properties@),
                    other,
                ),
            final(self).doc.name == old(self).doc.name,
            final(self).doc.version == old(self).doc.version,
            final(self).module_key == old(self).module_key,
    {
        let s = String::from_str(value);
        let ghost v = JsonValue::Str(s);
        self.set_value(key, JsonValue::Str(s));
        proof {
            let p = props_view(old(self).doc.properties@);
            lemma_put_then_lookup(p, key@, v, key@);
            assert forall|other: Seq<char>|
                other != key@ implies #[trigger] lookup(props_view(self.doc.properties@), other) == lookup(p, other) by {
                lemma_put_then_lookup(p, key@, v, other);
            }
        }
    }
}

} // verus!
