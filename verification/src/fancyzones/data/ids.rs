//! Identities of devices, monitors and work areas, and the legacy device id
//! strings.

use vstd::prelude::*;
use crate::text::{
    chars_of, find_char, first_index, parse_i32, parse_i32_spec, split_chars, split_seq,
    str_eq, string_of, sub_chars,
};

verus! {

/// A display device.
#[derive(Debug, Clone, PartialEq, Eq, Hash, Default)]
pub struct DeviceId {
    pub id: String,
    pub instance_id: String,
    pub number: i32,
}

/// Two devices are the same when their ids match and, where the instance ids
/// differ, their numbers match.
pub open spec fn same_device(a: DeviceId, b: DeviceId) -> bool {
    a.id@ == b.id@ && (a.instance_id@ != b.instance_id@ ==> a.number == b.number)
}

impl DeviceId {
    pub fn is_default(&self) -> (b: bool)
        ensures
            b == (self.id@ == "Default_Monitor"@),
    {
        str_eq(self.id.as_str(), "Default_Monitor")
    }

    pub fn eq_cpp(&self, other: &DeviceId) -> (b: bool)
        ensures
            b == same_device(*self, *other),
    {
        if !str_eq(self.id.as_str(), other.id.as_str()) {
            return false;
        }
        if !str_eq(self.instance_id.as_str(), other.instance_id.as_str()) {
            return self.number == other.number;
        }
        true
    }
}

/// A monitor: its handle (0 when unknown), device and serial number.
#[derive(Debug, Clone, PartialEq, Eq, Hash, Default)]
pub struct MonitorId {
    pub monitor: u64,
    pub device_id: DeviceId,
    pub serial_number: String,
}

/// Two known handles decide alone; otherwise two differing serial numbers
/// tell the monitors apart, and else the devices are compared.
pub open spec fn same_monitor(a: MonitorId, b: MonitorId) -> bool {
    if a.monitor != 0 && b.monitor != 0 {
        a.monitor == b.monitor
    } else if a.serial_number@.len() > 0 && b.serial_number@.len() > 0
        && a.serial_number@ != b.serial_number@ {
        false
    } else {
        same_device(a.device_id, b.device_id)
    }
}

impl MonitorId {
    pub fn eq_cpp(&self, other: &MonitorId) -> (b: bool)
        ensures
            b == same_monitor(*self, *other),
    {
        if self.monitor != 0 && other.monitor != 0 {
            return self.monitor == other.monitor;
        }
        if self.serial_number.unicode_len() > 0 && other.serial_number.unicode_len() > 0 {
            if !str_eq(self.serial_number.as_str(), other.serial_number.as_str()) {
                return false;
            }
        }
        self.device_id.eq_cpp(&other.device_id)
    }
}

/// A work area: a monitor on a virtual desktop.
#[derive(Debug, Clone, PartialEq, Eq, Hash, Default)]
pub struct WorkAreaId {
    pub monitor_id: MonitorId,
    pub virtual_desktop_id: String,
}

pub open spec fn same_work_area(a: WorkAreaId, b: WorkAreaId) -> bool {
    a.virtual_desktop_id@ == b.virtual_desktop_id@ && same_monitor(a.monitor_id, b.monitor_id)
}

impl WorkAreaId {
    pub fn eq_cpp(&self, other: &WorkAreaId) -> (b: bool)
        ensures
            b == same_work_area(*self, *other),
    {
        str_eq(self.virtual_desktop_id.as_str(), other.virtual_desktop_id.as_str())
            && self.monitor_id.eq_cpp(&other.monitor_id)
    }
}

/// Comparing work areas is reflexive and symmetric.
pub proof fn lemma_same_work_area_reflexive_symmetric(a: WorkAreaId, b: WorkAreaId)
    ensures
        same_work_area(a, a),
        same_work_area(a, b) == same_work_area(b, a),
{
}

pub open spec fn is_hex_char(c: char) -> bool {
    ('0' <= c <= '9') || ('a' <= c <= 'f') || ('A' <= c <= 'F')
}

/// The form `{xxxxxxxx-xxxx-xxxx-xxxx-xxxxxxxxxxxx}` with hex digits.
pub open spec fn guid_ok(s: Seq<char>) -> bool {
    &&& s.len() == 38
    &&& s[0] == '{'
    &&& s[37] == '}'
    &&& s[9] == '-' && s[14] == '-' && s[19] == '-' && s[24] == '-'
    &&& forall|i: int| 0 < i < 37 && i != 9 && i != 14 && i != 19 && i != 24 ==> is_hex_char(#[trigger] s[i])
}

fn guid_chars_ok(s: &Vec<char>) -> (b: bool)
    ensures
        b == guid_ok(s@),
{
    if s.len() != 38 {
        return false;
    }
    if s[0] != '{' || s[37] != '}' {
        return false;
    }
    if s[9] != '-' || s[14] != '-' || s[19] != '-' || s[24] != '-' {
        return false;
    }
    let mut i: usize = 1;
    while i < 37
        invariant
            1 <= i <= 37,
            s@.len() == 38,
            forall|k: int| 0 < k < i && k != 9 && k != 14 && k != 19 && k != 24 ==> is_hex_char(#[trigger] s@[k]),
        decreases 37 - i,
    {
        if i != 9 && i != 14 && i != 19 && i != 24 {
            let c = s[i];
            if !(('0' <= c && c <= '9') || ('a' <= c && c <= 'f') || ('A' <= c && c <= 'F')) {
                assert(!is_hex_char(s@[i as int]));
                return false;
            }
        }
        i = i + 1;
    }
    true
}

/// Whether a string has the form of a braced GUID.
pub fn is_valid_guid(s: &str) -> (b: bool)
    ensures
        b == guid_ok(s@),
{
    let v = chars_of(s);
    guid_chars_ok(&v)
}

/// The fields of a device id string.
#[derive(Debug, Clone, PartialEq, Eq)]
pub struct DeviceIdData {
    pub device_name: String,
    pub width: i32,
    pub height: i32,
    pub virtual_desktop_id: String,
    pub monitor_id: String,
}

/// The device name and what follows it: with a `#`, the name runs to the
/// first `_` after the `#`; without, to the first `_`.
pub open spec fn name_and_rest(s: Seq<char>) -> Option<(Seq<char>, Seq<char>)> {
    let h = first_index(s, '#');
    if h >= 0 {
        let after = s.skip(h + 1);
        let u = first_index(after, '_');
        if u >= 0 {
            Some((s.take(h) + seq!['#'] + after.take(u), after.skip(u + 1)))
        } else {
            None
        }
    } else {
        let u = first_index(s, '_');
        if u >= 0 {
            Some((s.take(u), s.skip(u + 1)))
        } else {
            None
        }
    }
}

/// The pieces joined again with `_`.
pub open spec fn join_underscore(p: Seq<Seq<char>>) -> Seq<char>
    decreases p.len(),
{
    if p.len() == 0 {
        Seq::empty()
    } else if p.len() == 1 {
        p[0]
    } else {
        p[0] + seq!['_'] + join_underscore(p.drop_first())
    }
}

/// What a device id string `name_width_height_{guid}[_monitor]` holds:
/// (name, width, height, guid, monitor id).
pub open spec fn device_id_fields(s: Seq<char>) -> Option<(Seq<char>, i32, i32, Seq<char>, Seq<char>)> {
    match name_and_rest(s) {
        None => None,
        Some((name, rest)) => {
            let parts = split_seq(rest, '_');
            if first_index(s, '#') < 0 && name.len() == 0 {
                None
            } else if parts.len() < 3 {
                None
            } else {
                match (parse_i32_spec(parts[0]), parse_i32_spec(parts[1])) {
                    (Some(w), Some(h)) => {
                        if guid_ok(parts[2]) {
                            Some((name, w, h, parts[2], join_underscore(parts.skip(3))))
                        } else {
                            None
                        }
                    },
                    _ => None,
                }
            }
        },
    }
}

/// Whether a device id string has exactly the four parts name, width,
/// height and GUID, with a non-empty name and numeric sizes.
pub open spec fn device_id_valid(s: Seq<char>) -> bool {
    let h = first_index(s, '#');
    let parts: Option<Seq<Seq<char>>> = if h >= 0 {
        match name_and_rest(s) {
            Some((name, rest)) => Some(seq![name] + split_seq(rest, '_')),
            None => None,
        }
    } else {
        Some(split_seq(s, '_'))
    };
    match parts {
        None => false,
        Some(p) => p.len() == 4 && p[0].len() > 0 && parse_i32_spec(p[1]) is Some
            && parse_i32_spec(p[2]) is Some && guid_ok(p[3]),
    }
}

/// Joins pieces with `_`.
fn join_pieces(p: &Vec<Vec<char>>, from: usize) -> (r: Vec<char>)
    requires
        from <= p@.len(),
    ensures
        r@ == join_underscore(p@.skip(from as int).map_values(|v: Vec<char>| v@)),
    decreases p@.len() - from,
{
    let ghost views = p@.skip(from as int).map_values(|v: Vec<char>| v@);
    if from == p.len() {
        proof {
            assert(views.len() == 0);
        }
        return Vec::new();
    }
    let head = sub_chars(&p[from], 0, p[from].len());
    proof {
        assert(head@ =~= p@[from as int]@);
        assert(views[0] == p@[from as int]@);
    }
    if from + 1 == p.len() {
        proof {
            assert(views.len() == 1);
        }
        return head;
    }
    let tail = join_pieces(p, from + 1);
    proof {
        assert(views.drop_first() =~= p@.skip(from + 1).map_values(|v: Vec<char>| v@));
    }
    let mut r = head;
    r.push('_');
    let mut k: usize = 0;
    let ghost start = r@;
    while k < tail.len()
        invariant
            k <= tail@.len(),
            r@ == start + tail@.take(k as int),
        decreases tail@.len() - k,
    {
        r.push(tail[k]);
        k = k + 1;
        proof {
            assert(r@ =~= start + tail@.take(k as int));
        }
    }
    proof {
        assert(tail@.take(k as int) =~= tail@);
        assert(start =~= views[0] + seq!['_']);
    }
    r
}

/// Splits off the device name, following `name_and_rest`.
fn split_name(v: &Vec<char>) -> (r: Option<(Vec<char>, Vec<char>)>)
    ensures
        match r {
            Some((name, rest)) => name_and_rest(v@) == Some((name@, rest@)),
            None => name_and_rest(v@) is None,
        },
{
    let n = v.len();
    match find_char(v, '#') {
        Some(h) => {
            let after = sub_chars(v, h + 1, n);
            proof {
                assert(after@ =~= v@.skip(h + 1));
            }
            match find_char(&after, '_') {
                Some(u) => {
                    let mut name = sub_chars(v, 0, h);
                    name.push('#');
                    let part = sub_chars(&after, 0, u);
                    let ghost start = name@;
                    let mut k: usize = 0;
                    while k < part.len()
                        invariant
                            k <= part@.len(),
                            name@ == start + part@.take(k as int),
                        decreases part@.len() - k,
                    {
                        name.push(part[k]);
                        k = k + 1;
                        proof {
                            assert(name@ =~= start + part@.take(k as int));
                        }
                    }
                    let rest = sub_chars(&after, u + 1, after.len());
                    proof {
                        assert(part@.take(k as int) =~= part@);
                        assert(name@ =~= v@.take(h as int) + seq!['#'] + after@.take(u as int));
                        assert(rest@ =~= after@.skip(u + 1));
                    }
                    Some((name, rest))
                },
                None => None,
            }
        },
        None => match find_char(v, '_') {
            Some(u) => {
                let name = sub_chars(v, 0, u);
                let rest = sub_chars(v, u + 1, n);
                proof {
                    assert(name@ =~= v@.take(u as int));
                    assert(rest@ =~= v@.skip(u + 1));
                }
                Some((name, rest))
            },
            None => None,
        },
    }
}

impl DeviceIdData {
    /// Parses `name_width_height_{guid}[_monitor]`, where the name may hold a
    /// `#` followed by one `_`-free part.
    pub fn parse_device_id(input: &str) -> (r: Option<Self>)
        ensures
            match r {
                Some(d) => device_id_fields(input@) == Some(
                    (d.device_name@, d.width, d.height, d.virtual_desktop_id@, d.monitor_id@),
                ),
                None => device_id_fields(input@) is None,
            },
    {
        let v = chars_of(input);
        let (name, rest) = match split_name(&v) {
            Some(p) => p,
            None => return None,
        };
        let has_hash = find_char(&v, '#').is_some();
        if !has_hash && name.len() == 0 {
            return None;
        }
        let parts = split_chars(&rest, '_');
        if parts.len() < 3 {
            return None;
        }
        let width = match parse_i32(&parts[0]) {
            Some(w) => w,
            None => return None,
        };
        let height = match parse_i32(&parts[1]) {
            Some(h) => h,
            None => return None,
        };
        if !guid_chars_ok(&parts[2]) {
            return None;
        }
        let monitor = join_pieces(&parts, 3);
        proof {
            assert(parts@.skip(3).map_values(|v: Vec<char>| v@) =~= split_seq(rest@, '_').skip(3));
        }
        Some(DeviceIdData {
            device_name: string_of(&name),
            width,
            height,
            virtual_desktop_id: string_of(&parts[2]),
            monitor_id: string_of(&monitor),
        })
    }

    /// Whether a device id string has the four parts name, width, height and
    /// GUID.
    pub fn is_valid_device_id(input: &str) -> (b: bool)
        ensures
            b == device_id_valid(input@),
    {
        let v = chars_of(input);
        let mut parts: Vec<Vec<char>> = Vec::new();
        let ghost pieces: Seq<Seq<char>>;
        if find_char(&v, '#').is_some() {
            match split_name(&v) {
                Some((name, rest)) => {
                    let tail = split_chars(&rest, '_');
                    parts.push(name);
                    let mut k: usize = 0;
                    while k < tail.len()
                        invariant
                            k <= tail@.len(),
                            parts@.len() == k + 1,
                            forall|j: int| 0 <= j < k ==> #[trigger] parts@[j + 1]@ == tail@[j]@,
                            parts@[0]@ == name@,
                        decreases tail@.len() - k,
                    {
                        let piece = sub_chars(&tail[k], 0, tail[k].len());
                        proof {
                            assert(piece@ =~= tail@[k as int]@);
                        }
                        parts.push(piece);
                        k = k + 1;
                    }
                    proof {
                        pieces = seq![name@] + split_seq(rest@, '_');
                        assert forall|j: int| 0 <= j < parts@.len() implies #[trigger] parts@[j]@ == pieces[j] by {
                            if j > 0 {
                                assert(parts@[(j - 1) + 1]@ == tail@[j - 1]@);
                            }
                        }
                    }
                },
                None => {
                    return false;
                },
            }
        } else {
            parts = split_chars(&v, '_');
            proof {
                pieces = split_seq(v@, '_');
            }
        }
        if parts.len() != 4 {
            return false;
        }
        if parts[0].len() == 0 {
            return false;
        }
        if parse_i32(&parts[1]).is_none() {
            return false;
        }
        if parse_i32(&parts[2]).is_none() {
            return false;
        }
        guid_chars_ok(&parts[3])
    }
}

} // verus!
