//! Which zones each application was last snapped to, per device and layout.
//!
//! Applications are keyed by their lowercased executable path; each holds a
//! list of entries, one per device and layout it was snapped on.

use vstd::prelude::*;
use crate::fancyzones::data::keyed::{
    entries_view, find_str_key, lemma_get_view, lemma_put_view, lemma_str_put_get, lemma_view_unique, lemma_vput_vget, put_str_key,
    str_keys_unique, vget, vkeys_unique, vpos, vput,
};
use crate::fancyzones::data::loading::{array_member, str_or_exec};
use crate::fancyzones::data::stores::copy_zones;
use crate::json::{as_array, as_i64, as_str, entry_value, get_array, get_str, json_get, json_of_text, parse_json, str_or, JsonValue};
use vstd::utf8::is_ascii_chars;
use crate::text::{ascii_lowercase, chars_of, lowercase_of, str_eq, to_lowercase};

verus! {

/// Where an application was snapped on one device under one layout.
pub struct HistoryEntry {
    pub device_key: String,
    pub layout_id: String,
    pub zone_index_set: Vec<i64>,
}

/// An entry as plain values: device key, layout id, zone indices.
pub type EntryView = (Seq<char>, Seq<char>, Seq<i64>);

pub open spec fn entry_view(e: HistoryEntry) -> EntryView {
    (e.device_key@, e.layout_id@, e.zone_index_set@)
}

pub open spec fn list_view(l: Seq<HistoryEntry>) -> Seq<EntryView> {
    l.map_values(|e: HistoryEntry| entry_view(e))
}

pub open spec fn list_view_fn() -> spec_fn(Vec<HistoryEntry>) -> Seq<EntryView> {
    |l: Vec<HistoryEntry>| list_view(l@)
}

/// The entry is the one for this device and layout.
pub open spec fn is_match(e: EntryView, device: Seq<char>, layout: Seq<char>) -> bool {
    e.0 == device && e.1 == layout
}

/// The position of the first entry for the device and layout, or -1.
pub open spec fn first_match(l: Seq<EntryView>, device: Seq<char>, layout: Seq<char>) -> int {
    if exists|i: int|
        #![trigger l[i]]
        0 <= i < l.len() && is_match(l[i], device, layout) && (forall|j: int|
            0 <= j < i ==> !is_match(#[trigger] l[j], device, layout)) {
        choose|i: int|
            #![trigger l[i]]
            0 <= i < l.len() && is_match(l[i], device, layout) && (forall|j: int|
                0 <= j < i ==> !is_match(#[trigger] l[j], device, layout))
    } else {
        -1
    }
}

/// A list after recording zones for a device and layout: the first entry
/// for them is replaced, and the entry with the new zones goes last, as the
/// most recent.
pub open spec fn record_in_list(l: Seq<EntryView>, device: Seq<char>, layout: Seq<char>, zones: Seq<i64>) -> Seq<
    EntryView,
> {
    let p = first_match(l, device, layout);
    if p >= 0 {
        l.remove(p).push((device, layout, zones))
    } else {
        l.push((device, layout, zones))
    }
}

/// The zones of the last entry for the device, if any.
pub open spec fn last_for_device(l: Seq<EntryView>, device: Seq<char>) -> Option<Seq<i64>>
    decreases l.len(),
{
    if l.len() == 0 {
        None
    } else if l.last().0 == device {
        Some(l.last().2)
    } else {
        last_for_device(l.drop_last(), device)
    }
}

pub open spec fn list_or_empty(l: Option<Seq<EntryView>>) -> Seq<EntryView> {
    match l {
        Some(x) => x,
        None => Seq::empty(),
    }
}

/// The history after recording zones for an application key.
pub open spec fn history_record(
    h: Seq<(Seq<char>, Seq<EntryView>)>,
    app: Seq<char>,
    device: Seq<char>,
    layout: Seq<char>,
    zones: Seq<i64>,
) -> Seq<(Seq<char>, Seq<EntryView>)> {
    vput(h, app, record_in_list(list_or_empty(vget(h, app)), device, layout, zones))
}

/// The zones last recorded for an application key on a device.
pub open spec fn history_lookup(h: Seq<(Seq<char>, Seq<EntryView>)>, app: Seq<char>, device: Seq<char>) -> Option<
    Seq<i64>,
> {
    match vget(h, app) {
        Some(l) => last_for_device(l, device),
        None => None,
    }
}

/// The integers of a JSON array, skipping other values.
pub open spec fn ints64_of(items: Seq<JsonValue>) -> Seq<i64>
    decreases items.len(),
{
    if items.len() == 0 {
        Seq::empty()
    } else {
        let prev = ints64_of(items.drop_last());
        match as_i64(Some(items.last())) {
            Some(v) => prev.push(v),
            None => prev,
        }
    }
}

/// The entry a history item describes; one without a layout id is skipped.
pub open spec fn entry_of(e: JsonValue) -> Option<EntryView> {
    match as_str(json_get(e, "layout-id"@)) {
        Some(layout) => Some(
            (
                str_or(as_str(json_get(e, "device-id"@)), ""@),
                layout@,
                match as_array(json_get(e, "zone-index-set"@)) {
                    Some(a) => ints64_of(a),
                    None => Seq::empty(),
                },
            ),
        ),
        None => None,
    }
}

pub open spec fn entries_of(items: Seq<JsonValue>) -> Seq<EntryView>
    decreases items.len(),
{
    if items.len() == 0 {
        Seq::empty()
    } else {
        let prev = entries_of(items.drop_last());
        match entry_of(items.last()) {
            Some(e) => prev.push(e),
            None => prev,
        }
    }
}

/// The application key and entries an item gives: none for an empty path
/// or an empty list.
pub open spec fn history_item_of(item: JsonValue) -> Option<(Seq<char>, Seq<EntryView>)> {
    let key = lowercase_of(str_or(as_str(json_get(item, "app-path"@)), ""@));
    if key.len() == 0 {
        None
    } else {
        match as_array(json_get(item, "history"@)) {
            Some(es) => {
                let l = entries_of(es);
                if l.len() > 0 {
                    Some((key, l))
                } else {
                    None
                }
            },
            None => None,
        }
    }
}

/// The history the items give, later items for a key replacing earlier
/// ones.
pub open spec fn history_of(items: Seq<JsonValue>) -> Seq<(Seq<char>, Seq<EntryView>)>
    decreases items.len(),
{
    if items.len() == 0 {
        Seq::empty()
    } else {
        let prev = history_of(items.drop_last());
        match history_item_of(items.last()) {
            Some((k, l)) => vput(prev, k, l),
            None => prev,
        }
    }
}

/// A member `name` holding the string `val`.
pub open spec fn str_member(f: (String, JsonValue), name: Seq<char>, val: Seq<char>) -> bool {
    f.0@ == name && match f.1 {
        JsonValue::Str(s) => s@ == val,
        _ => false,
    }
}

/// An array of the integers `z`.
pub open spec fn ints_json(j: JsonValue, z: Seq<i64>) -> bool {
    match j {
        JsonValue::Array(a) => a@.len() == z.len() && forall|k: int|
            0 <= k < z.len() ==> #[trigger] a@[k] == JsonValue::Number(Some(z[k]), None),
        _ => false,
    }
}

/// The object for one entry: `device-id`, `layout-id`, `zone-index-set`.
pub open spec fn entry_json(j: JsonValue, e: EntryView) -> bool {
    match j {
        JsonValue::Object(f) => f@.len() == 3 && str_member(f@[0], "device-id"@, e.0) && str_member(
            f@[1],
            "layout-id"@,
            e.1,
        ) && f@[2].0@ == "zone-index-set"@ && ints_json(f@[2].1, e.2),
        _ => false,
    }
}

/// The object for one application: `app-path` and its `history`.
pub open spec fn item_json(j: JsonValue, item: (Seq<char>, Seq<EntryView>)) -> bool {
    match j {
        JsonValue::Object(f) => f@.len() == 2 && str_member(f@[0], "app-path"@, item.0) && f@[1].0@
            == "history"@ && match f@[1].1 {
            JsonValue::Array(es) => es@.len() == item.1.len() && forall|k: int|
                0 <= k < es@.len() ==> entry_json(#[trigger] es@[k], item.1[k]),
            _ => false,
        },
        _ => false,
    }
}

/// The document for a history: an object whose `app-zone-history` member
/// lists one object per application.
pub open spec fn history_json(j: JsonValue, h: Seq<(Seq<char>, Seq<EntryView>)>) -> bool {
    match j {
        JsonValue::Object(f) => f@.len() == 1 && f@[0].0@ == "app-zone-history"@ && match f@[0].1 {
            JsonValue::Array(items) => items@.len() == h.len() && forall|k: int|
                0 <= k < h.len() ==> item_json(#[trigger] items@[k], h[k]),
            _ => false,
        },
        _ => false,
    }
}

/// Taking out an entry for another device leaves what a device looks up.
proof fn lemma_last_remove_other(s: Seq<EntryView>, device: Seq<char>, p: int)
    requires
        0 <= p < s.len(),
        s[p].0 != device,
    ensures
        last_for_device(s.remove(p), device) == last_for_device(s, device),
    decreases s.len(),
{
    let r = s.remove(p);
    if p == s.len() - 1 {
        assert(r =~= s.drop_last());
    } else {
        assert(r.last() == s.last());
        assert(r.drop_last() =~= s.drop_last().remove(p));
        if s.last().0 != device {
            lemma_last_remove_other(s.drop_last(), device, p);
        }
    }
}

/// After zones are recorded for an application, device and layout, looking
/// the application up on that device gives those zones: the most recent
/// assignment wins.
pub proof fn lemma_record_then_lookup(
    h: Seq<(Seq<char>, Seq<EntryView>)>,
    app: Seq<char>,
    device: Seq<char>,
    layout: Seq<char>,
    zones: Seq<i64>,
)
    requires
        vkeys_unique(h),
    ensures
        history_lookup(history_record(h, app, device, layout, zones), app, device) == Some(zones),
{
    let l = list_or_empty(vget(h, app));
    let l2 = record_in_list(l, device, layout, zones);
    lemma_vput_vget(h, app, l2, app);
    assert(l2.last() == (device, layout, zones));
}

/// Recording zones for an application on a device leaves what other
/// applications, and the same application on other devices, look up.
pub proof fn lemma_record_keeps_others(
    h: Seq<(Seq<char>, Seq<EntryView>)>,
    app: Seq<char>,
    device: Seq<char>,
    layout: Seq<char>,
    zones: Seq<i64>,
    other_app: Seq<char>,
    other_device: Seq<char>,
)
    requires
        vkeys_unique(h),
    ensures
        other_app != app ==> history_lookup(history_record(h, app, device, layout, zones), other_app, other_device)
            == history_lookup(h, other_app, other_device),
        other_device != device ==> history_lookup(history_record(h, app, device, layout, zones), app, other_device)
            == history_lookup(h, app, other_device),
{
    let l = list_or_empty(vget(h, app));
    let l2 = record_in_list(l, device, layout, zones);
    lemma_vput_vget(h, app, l2, other_app);
    if other_device != device {
        let p = first_match(l, device, layout);
        if p >= 0 {
            assert(0 <= p < l.len() && is_match(l[p], device, layout));
            assert(l2.drop_last() =~= l.remove(p));
            lemma_last_remove_other(l, other_device, p);
        } else {
            assert(l2.drop_last() =~= l);
        }
        if vget(h, app) is None {
            assert(last_for_device(l, other_device) is None);
        }
    }
}

proof fn lemma_ints_read_back(a: Seq<JsonValue>, z: Seq<i64>)
    requires
        a.len() == z.len(),
        forall|k: int| 0 <= k < z.len() ==> #[trigger] a[k] == JsonValue::Number(Some(z[k]), None),
    ensures
        ints64_of(a) == z,
    decreases a.len(),
{
    if a.len() > 0 {
        let a2 = a.drop_last();
        let z2 = z.drop_last();
        assert forall|k: int| 0 <= k < z2.len() implies #[trigger] a2[k] == JsonValue::Number(Some(z2[k]), None) by {
            assert(a2[k] == a[k] && z2[k] == z[k]);
        }
        lemma_ints_read_back(a2, z2);
        assert(a.last() == a[a.len() - 1]);
        assert(z2.push(z.last()) =~= z);
    }
}

proof fn lemma_entry_read_back(j: JsonValue, e: EntryView)
    requires
        entry_json(j, e),
    ensures
        entry_of(j) == Some(e),
{
    reveal_strlit("device-id");
    reveal_strlit("layout-id");
    reveal_strlit("zone-index-set");
    let f = j->Object_0@;
    assert("device-id"@[0] != "layout-id"@[0]);
    assert("device-id"@[0] != "zone-index-set"@[0]);
    assert("layout-id"@[0] != "zone-index-set"@[0]);
    assert(f.drop_first()[0] == f[1]);
    assert(f.drop_first().drop_first()[0] == f[2]);
    assert(entry_value(f, "layout-id"@) == entry_value(f.drop_first(), "layout-id"@));
    assert(json_get(j, "layout-id"@) == Some(f[1].1));
    assert(json_get(j, "device-id"@) == Some(f[0].1));
    assert(entry_value(f.drop_first(), "zone-index-set"@) == entry_value(f.drop_first().drop_first(), "zone-index-set"@));
    assert(json_get(j, "zone-index-set"@) == Some(f[2].1));
    let a = f[2].1->Array_0@;
    lemma_ints_read_back(a, e.2);
}

proof fn lemma_entries_read_back(es: Seq<JsonValue>, l: Seq<EntryView>)
    requires
        es.len() == l.len(),
        forall|k: int| 0 <= k < es.len() ==> entry_json(#[trigger] es[k], l[k]),
    ensures
        entries_of(es) == l,
    decreases es.len(),
{
    if es.len() > 0 {
        let es2 = es.drop_last();
        let l2 = l.drop_last();
        assert forall|k: int| 0 <= k < es2.len() implies entry_json(#[trigger] es2[k], l2[k]) by {
            assert(es2[k] == es[k] && l2[k] == l[k]);
        }
        lemma_entries_read_back(es2, l2);
        assert(es.last() == es[es.len() - 1]);
        lemma_entry_read_back(es.last(), l.last());
        assert(l2.push(l.last()) =~= l);
    }
}

/// Keys already lowercase and non-empty, and no empty list.
pub open spec fn plain_keys(h: Seq<(Seq<char>, Seq<EntryView>)>) -> bool {
    forall|k: int|
        0 <= k < h.len() ==> lowercase_of(#[trigger] h[k].0) == h[k].0 && h[k].0.len() > 0 && h[k].1.len() > 0
}

proof fn lemma_item_read_back(j: JsonValue, item: (Seq<char>, Seq<EntryView>))
    requires
        item_json(j, item),
        lowercase_of(item.0) == item.0,
        item.0.len() > 0,
        item.1.len() > 0,
    ensures
        history_item_of(j) == Some(item),
{
    reveal_strlit("app-path");
    reveal_strlit("history");
    let f = j->Object_0@;
    assert("app-path"@[0] != "history"@[0]);
    assert(f.drop_first()[0] == f[1]);
    assert(json_get(j, "app-path"@) == Some(f[0].1));
    assert(entry_value(f, "history"@) == entry_value(f.drop_first(), "history"@));
    assert(json_get(j, "history"@) == Some(f[1].1));
    let es = f[1].1->Array_0@;
    lemma_entries_read_back(es, item.1);
}

proof fn lemma_items_read_back(items: Seq<JsonValue>, h: Seq<(Seq<char>, Seq<EntryView>)>)
    requires
        items.len() == h.len(),
        forall|k: int| 0 <= k < h.len() ==> item_json(#[trigger] items[k], h[k]),
        vkeys_unique(h),
        plain_keys(h),
    ensures
        history_of(items) == h,
    decreases items.len(),
{
    if items.len() > 0 {
        let i2 = items.drop_last();
        let h2 = h.drop_last();
        assert forall|k: int| 0 <= k < h2.len() implies item_json(#[trigger] i2[k], h2[k]) by {
            assert(i2[k] == items[k] && h2[k] == h[k]);
        }
        assert forall|k: int| 0 <= k < h2.len() implies lowercase_of(#[trigger] h2[k].0) == h2[k].0 && h2[k].0.len()
            > 0 && h2[k].1.len() > 0 by {
            assert(h2[k] == h[k]);
        }
        lemma_items_read_back(i2, h2);
        let n = h.len() - 1;
        assert(items.last() == items[n] && h.last() == h[n]);
        assert(lowercase_of(h[n].0) == h[n].0 && h[n].0.len() > 0 && h[n].1.len() > 0);
        lemma_item_read_back(items.last(), h.last());
        assert(vpos(h2, h[n].0) == -1) by {
            if exists|i: int| 0 <= i < h2.len() && h2[i].0 == h[n].0 {
                let i = choose|i: int| 0 <= i < h2.len() && h2[i].0 == h[n].0;
                assert(h[i].0 != h[n].0);
            }
        }
        assert(h2.push(h.last()) =~= h);
    }
}

/// Reading back the document written for a history gives that history,
/// when its application keys are non-empty and already lowercase and no
/// application has an empty list.
pub proof fn lemma_json_round_trip(h: Seq<(Seq<char>, Seq<EntryView>)>, j: JsonValue)
    requires
        vkeys_unique(h),
        plain_keys(h),
        history_json(j, h),
    ensures
        history_of(array_member(j, "app-zone-history"@)) == h,
{
    reveal_strlit("app-zone-history");
    let f = j->Object_0@;
    assert(json_get(j, "app-zone-history"@) == Some(f[0].1));
    lemma_items_read_back(f[0].1->Array_0@, h);
}

/// Zone history per application.
pub struct AppZoneHistory {
    history: Vec<(String, Vec<HistoryEntry>)>,
}

impl View for AppZoneHistory {
    type V = Seq<(Seq<char>, Seq<EntryView>)>;

    closed spec fn view(&self) -> Seq<(Seq<char>, Seq<EntryView>)> {
        entries_view(self.history@, list_view_fn())
    }
}

/// Records zones in a list of entries.
fn record_into(list: &mut Vec<HistoryEntry>, device_key: &str, layout_id: &str, zones: Vec<i64>)
    ensures
        list_view(final(list)@) == record_in_list(list_view(old(list)@), device_key@, layout_id@, zones@),
{
    let ghost lv = list_view(list@);
    let mut i: usize = 0;
    while i < list.len()
        invariant
            i <= list@.len(),
            list_view(list@) == lv,
            lv == list_view(old(list)@),
            forall|j: int| 0 <= j < i ==> !is_match(#[trigger] lv[j], device_key@, layout_id@),
        decreases list@.len() - i,
    {
        if str_eq(list[i].device_key.as_str(), device_key) && str_eq(list[i].layout_id.as_str(), layout_id) {
            proof {
                assert(lv[i as int] == entry_view(list@[i as int]));
                assert(is_match(lv[i as int], device_key@, layout_id@));
                let c = first_match(lv, device_key@, layout_id@);
                assert(c == i) by {
                    assert(0 <= c < lv.len() && is_match(lv[c], device_key@, layout_id@));
                    if c < i {
                        assert(!is_match(lv[c], device_key@, layout_id@));
                    } else if c > i {
                        assert(!is_match(lv[i as int], device_key@, layout_id@));
                    }
                }
            }
            let old_entry = list.remove(i);
            list.push(
                HistoryEntry {
                    device_key: old_entry.device_key,
                    layout_id: old_entry.layout_id,
                    zone_index_set: zones,
                },
            );
            proof {
                assert(list_view(list@) =~= lv.remove(i as int).push((device_key@, layout_id@, zones@)));
            }
            return ;
        }
        proof {
            assert(lv[i as int] == entry_view(list@[i as int]));
        }
        i = i + 1;
    }
    proof {
        assert(first_match(lv, device_key@, layout_id@) == -1) by {
            if exists|c: int|
                #![trigger lv[c]]
                0 <= c < lv.len() && is_match(lv[c], device_key@, layout_id@) && (forall|j: int|
                    0 <= j < c ==> !is_match(#[trigger] lv[j], device_key@, layout_id@)) {
                let c = choose|c: int|
                    #![trigger lv[c]]
                    0 <= c < lv.len() && is_match(lv[c], device_key@, layout_id@) && (forall|j: int|
                        0 <= j < c ==> !is_match(#[trigger] lv[j], device_key@, layout_id@));
                assert(!is_match(lv[c], device_key@, layout_id@));
            }
        }
    }
    list.push(
        HistoryEntry {
            device_key: String::from_str(device_key),
            layout_id: String::from_str(layout_id),
            zone_index_set: zones,
        },
    );
    proof {
        assert(list_view(list@) =~= lv.push((device_key@, layout_id@, zones@)));
    }
}

/// The zones of the last entry for a device.
fn last_in_list(list: &Vec<HistoryEntry>, device_key: &str) -> (r: Option<Vec<i64>>)
    ensures
        match r {
            Some(v) => last_for_device(list_view(list@), device_key@) == Some(v@),
            None => last_for_device(list_view(list@), device_key@) is None,
        },
{
    let ghost lv = list_view(list@);
    let mut i: usize = list.len();
    proof {
        assert(lv.take(i as int) =~= lv);
    }
    while i > 0
        invariant
            i <= list@.len(),
            lv == list_view(list@),
            last_for_device(lv, device_key@) == last_for_device(lv.take(i as int), device_key@),
        decreases i,
    {
        proof {
            assert(lv.take(i as int).drop_last() =~= lv.take(i - 1));
            assert(lv.take(i as int).last() == entry_view(list@[i - 1]));
        }
        if str_eq(list[i - 1].device_key.as_str(), device_key) {
            return Some(copy_zones(&list[i - 1].zone_index_set));
        }
        i = i - 1;
    }
    None
}

fn ints64_exec(items: &Vec<JsonValue>) -> (v: Vec<i64>)
    ensures
        v@ == ints64_of(items@),
{
    let mut v: Vec<i64> = Vec::new();
    let mut i: usize = 0;
    while i < items.len()
        invariant
            i <= items@.len(),
            v@ == ints64_of(items@.take(i as int)),
        decreases items@.len() - i,
    {
        proof {
            assert(items@.take(i + 1).drop_last() =~= items@.take(i as int));
        }
        match items[i].as_i64() {
            Some(x) => v.push(x),
            None => {},
        }
        i = i + 1;
    }
    proof {
        assert(items@.take(i as int) =~= items@);
    }
    v
}

fn entries_exec(items: &Vec<JsonValue>) -> (l: Vec<HistoryEntry>)
    ensures
        list_view(l@) == entries_of(items@),
{
    let mut l: Vec<HistoryEntry> = Vec::new();
    let mut i: usize = 0;
    proof {
        assert(list_view(l@) =~= Seq::<EntryView>::empty());
    }
    while i < items.len()
        invariant
            i <= items@.len(),
            list_view(l@) == entries_of(items@.take(i as int)),
        decreases items@.len() - i,
    {
        proof {
            assert(items@.take(i + 1).drop_last() =~= items@.take(i as int));
        }
        let e = &items[i];
        match get_str(e, "layout-id") {
            Some(layout) => {
                let device = str_or_exec(get_str(e, "device-id"), "");
                let zones = match get_array(e, "zone-index-set") {
                    Some(a) => ints64_exec(a),
                    None => Vec::new(),
                };
                let ghost prev = l@;
                l.push(HistoryEntry { device_key: device, layout_id: layout.clone(), zone_index_set: zones });
                proof {
                    assert(list_view(l@) =~= list_view(prev).push(entry_view(l@.last())));
                }
            },
            None => {},
        }
        i = i + 1;
    }
    proof {
        assert(items@.take(i as int) =~= items@);
    }
    l
}

fn ints_to_json(z: &Vec<i64>) -> (j: JsonValue)
    ensures
        ints_json(j, z@),
{
    let mut a: Vec<JsonValue> = Vec::new();
    let mut i: usize = 0;
    while i < z.len()
        invariant
            i <= z@.len(),
            a@.len() == i,
            forall|k: int| 0 <= k < i ==> #[trigger] a@[k] == JsonValue::Number(Some(z@[k]), None),
        decreases z@.len() - i,
    {
        a.push(JsonValue::Number(Some(z[i]), None));
        i = i + 1;
    }
    JsonValue::Array(a)
}

fn entry_to_json(e: &HistoryEntry) -> (j: JsonValue)
    ensures
        entry_json(j, entry_view(*e)),
{
    let mut f: Vec<(String, JsonValue)> = Vec::new();
    f.push((String::from_str("device-id"), JsonValue::Str(e.device_key.clone())));
    f.push((String::from_str("layout-id"), JsonValue::Str(e.layout_id.clone())));
    f.push((String::from_str("zone-index-set"), ints_to_json(&e.zone_index_set)));
    JsonValue::Object(f)
}

fn item_to_json(path: &String, list: &Vec<HistoryEntry>) -> (j: JsonValue)
    ensures
        item_json(j, (path@, list_view(list@))),
{
    let mut es: Vec<JsonValue> = Vec::new();
    let mut i: usize = 0;
    while i < list.len()
        invariant
            i <= list@.len(),
            es@.len() == i,
            forall|k: int| 0 <= k < i ==> entry_json(#[trigger] es@[k], entry_view(list@[k])),
        decreases list@.len() - i,
    {
        es.push(entry_to_json(&list[i]));
        i = i + 1;
    }
    let mut f: Vec<(String, JsonValue)> = Vec::new();
    f.push((String::from_str("app-path"), JsonValue::Str(path.clone())));
    f.push((String::from_str("history"), JsonValue::Array(es)));
    let j = JsonValue::Object(f);
    proof {
        let lv = list_view(list@);
        assert forall|k: int| 0 <= k < es@.len() implies entry_json(#[trigger] es@[k], lv[k]) by {
            assert(lv[k] == entry_view(list@[k]));
        }
    }
    j
}

impl AppZoneHistory {
    #[verifier::type_invariant]
    spec fn keys_distinct(self) -> bool {
        str_keys_unique(self.history@)
    }

    /// An empty history.
    pub fn new() -> (h: Self)
        ensures
            h@ == Seq::<(Seq<char>, Seq<EntryView>)>::empty(),
    {
        let h = AppZoneHistory { history: Vec::new() };
        proof {
            assert(h@ =~= Seq::<(Seq<char>, Seq<EntryView>)>::empty());
        }
        h
    }

    /// Records a snap for an application (by lowercased path): an earlier
    /// entry for the same device and layout is dropped, and the new entry
    /// becomes the application's most recent.
    pub fn record(&mut self, app_path: &str, device_key: &str, layout_id: &str, zones: Vec<i64>)
        ensures
            final(self)@ == history_record(old(self)@, lowercase_of(app_path@), device_key@, layout_id@, zones@),
            is_ascii_chars(app_path@) ==> final(self)@ == history_record(
                old(self)@,
                ascii_lowercase(app_path@),
                device_key@,
                layout_id@,
                zones@,
            ),
            vkeys_unique(final(self)@),
    {
        proof {
            use_type_invariant(&*self);
        }
        let key = to_lowercase(app_path);
        let mut hist: Vec<(String, Vec<HistoryEntry>)> = Vec::new();
        std::mem::swap(&mut hist, &mut self.history);
        let ghost before = hist@;
        proof {
            lemma_get_view(before, key@, list_view_fn());
        }
        match find_str_key(&hist, key.as_str()) {
            Some(i) => {
                let (k, mut list) = hist.remove(i);
                record_into(&mut list, device_key, layout_id, zones);
                hist.insert(i, (k, list));
                proof {
                    assert(hist@ =~= before.update(i as int, (before[i as int].0, list)));
                    lemma_put_view(before, key, list, list_view_fn());
                    lemma_str_put_get(before, key, list, key@);
                }
            },
            None => {
                let mut list: Vec<HistoryEntry> = Vec::new();
                proof {
                    assert(list_view(list@) =~= Seq::<EntryView>::empty());
                }
                record_into(&mut list, device_key, layout_id, zones);
                proof {
                    lemma_put_view(before, key, list, list_view_fn());
                    lemma_str_put_get(before, key, list, key@);
                }
                hist.push((key, list));
            },
        }
        proof {
            lemma_view_unique(hist@, list_view_fn());
        }
        self.history = hist;
    }

    /// The zones last recorded for an application (by lowercased path) on a
    /// device: the last entry for that device.
    pub fn lookup(&self, app_path: &str, device_key: &str) -> (r: Option<Vec<i64>>)
        ensures
            match r {
                Some(v) => history_lookup(self@, lowercase_of(app_path@), device_key@) == Some(v@),
                None => history_lookup(self@, lowercase_of(app_path@), device_key@) is None,
            },
            is_ascii_chars(app_path@) ==> match r {
                Some(v) => history_lookup(self@, ascii_lowercase(app_path@), device_key@) == Some(v@),
                None => history_lookup(self@, ascii_lowercase(app_path@), device_key@) is None,
            },
    {
        proof {
            use_type_invariant(self);
        }
        let key = to_lowercase(app_path);
        proof {
            lemma_get_view(self.history@, key@, list_view_fn());
        }
        match find_str_key(&self.history, key.as_str()) {
            Some(i) => last_in_list(&self.history[i].1, device_key),
            None => None,
        }
    }

    /// Reads a history from a history file's text; text that is no JSON
    /// gives an empty history.
    pub fn load_from_text(text: &str) -> (h: Self)
        ensures
            match json_of_text(text@) {
                Some(json) => h@ == history_of(array_member(json, "app-zone-history"@)),
                None => h@ == Seq::<(Seq<char>, Seq<EntryView>)>::empty(),
            },
    {
        match parse_json(text) {
            Ok(json) => AppZoneHistory::load_from_json(&json),
            Err(_) => AppZoneHistory::new(),
        }
    }

    /// Reads a history from its document: the `app-zone-history` array of
    /// items, each with an `app-path` and a `history` of entries.
    pub fn load_from_json(json: &JsonValue) -> (h: Self)
        ensures
            h@ == history_of(array_member(*json, "app-zone-history"@)),
            vkeys_unique(h@),
    {
        let mut hist: Vec<(String, Vec<HistoryEntry>)> = Vec::new();
        proof {
            assert(entries_view(hist@, list_view_fn()) =~= Seq::<(Seq<char>, Seq<EntryView>)>::empty());
        }
        match get_array(json, "app-zone-history") {
            Some(arr) => {
                let mut i: usize = 0;
                while i < arr.len()
                    invariant
                        i <= arr@.len(),
                        arr@ == array_member(*json, "app-zone-history"@),
                        str_keys_unique(hist@),
                        entries_view(hist@, list_view_fn()) == history_of(arr@.take(i as int)),
                    decreases arr@.len() - i,
                {
                    proof {
                        assert(arr@.take(i + 1).drop_last() =~= arr@.take(i as int));
                    }
                    let item = &arr[i];
                    let path = str_or_exec(get_str(item, "app-path"), "");
                    let key = to_lowercase(path.as_str());
                    if chars_of(key.as_str()).len() > 0 {
                        match get_array(item, "history") {
                            Some(es) => {
                                let entries = entries_exec(es);
                                if entries.len() > 0 {
                                    proof {
                                        lemma_put_view(hist@, key, entries, list_view_fn());
                                    }
                                    put_str_key(&mut hist, key, entries);
                                }
                            },
                            None => {},
                        }
                    }
                    i = i + 1;
                }
                proof {
                    assert(arr@.take(i as int) =~= arr@);
                }
            },
            None => {},
        }
        proof {
            lemma_view_unique(hist@, list_view_fn());
        }
        AppZoneHistory { history: hist }
    }

    /// Writes the history as its document.
    pub fn to_json(&self) -> (j: JsonValue)
        ensures
            history_json(j, self@),
    {
        let mut items: Vec<JsonValue> = Vec::new();
        let mut i: usize = 0;
        while i < self.history.len()
            invariant
                i <= self.history@.len(),
                items@.len() == i,
                forall|k: int| 0 <= k < i ==> item_json(#[trigger] items@[k], self@[k]),
            decreases self.history@.len() - i,
        {
            items.push(item_to_json(&self.history[i].0, &self.history[i].1));
            i = i + 1;
        }
        let mut f: Vec<(String, JsonValue)> = Vec::new();
        f.push((String::from_str("app-zone-history"), JsonValue::Array(items)));
        JsonValue::Object(f)
    }

    /// The entries held for an application (by lowercased path).
    pub fn history_for(&self, app_path: &str) -> (r: Option<&Vec<HistoryEntry>>)
        ensures
            match r {
                Some(l) => vget(self@, lowercase_of(app_path@)) == Some(list_view(l@)),
                None => vget(self@, lowercase_of(app_path@)) is None,
            },
            is_ascii_chars(app_path@) ==> match r {
                Some(l) => vget(self@, ascii_lowercase(app_path@)) == Some(list_view(l@)),
                None => vget(self@, ascii_lowercase(app_path@)) is None,
            },
    {
        proof {
            use_type_invariant(self);
        }
        let key = to_lowercase(app_path);
        proof {
            lemma_get_view(self.history@, key@, list_view_fn());
        }
        match find_str_key(&self.history, key.as_str()) {
            Some(i) => Some(&self.history[i].1),
            None => None,
        }
    }
}

} // verus!
