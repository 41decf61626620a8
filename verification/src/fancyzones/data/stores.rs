//! The stores of layout hotkeys, default, custom, applied and template
//! layouts, and of the windows assigned to zones.

use vstd::prelude::*;
use std::collections::HashMap;
use crate::fancyzones::data::keyed::{
    find_str_key, lemma_str_put_get, put_str_key, str_get, str_keys_unique, str_put,
};
use crate::fancyzones::data::{
    default_layout_data, CustomLayoutData, LayoutData, MonitorConfigurationType, ZoneSetLayoutType,
};

verus! {

/// Layout hotkeys: a key number for each layout uuid.
#[derive(Debug)]
pub struct LayoutHotkeys {
    hotkeys: HashMap<i32, String>,
}

impl LayoutHotkeys {
    /// The layout uuid of each key number.
    pub closed spec fn entries(self) -> Map<i32, Seq<char>> {
        self.hotkeys@.map_values(|s: String| s@)
    }

    pub fn new() -> (h: Self)
        ensures
            h.entries() == Map::<i32, Seq<char>>::empty(),
    {
        broadcast use vstd::std_specs::hash::group_hash_axioms;
        let h = LayoutHotkeys { hotkeys: HashMap::new() };
        proof {
            assert(h.entries() =~= Map::<i32, Seq<char>>::empty());
        }
        h
    }

    pub fn get_hotkeys_count(&self) -> (n: usize)
        ensures
            n == self.entries().len(),
    {
        broadcast use vstd::std_specs::hash::group_hash_axioms;
        proof {
            assert(self.entries().dom() =~= self.hotkeys@.dom());
        }
        self.hotkeys.len()
    }

    pub fn get_layout_id(&self, key: i32) -> (r: Option<&String>)
        ensures
            match r {
                Some(s) => self.entries().contains_key(key) && self.entries()[key] == s@,
                None => !self.entries().contains_key(key),
            },
    {
        broadcast use vstd::std_specs::hash::group_hash_axioms;
        self.hotkeys.get(&key)
    }

    /// Removes every hotkey.
    pub fn clear(&mut self)
        ensures
            final(self).entries() == Map::<i32, Seq<char>>::empty(),
    {
        broadcast use vstd::std_specs::hash::group_hash_axioms;
        self.hotkeys.clear();
        proof {
            assert(self.entries() =~= Map::<i32, Seq<char>>::empty());
        }
    }

    /// Assigns a key number to a layout uuid.
    pub fn set_hotkey(&mut self, key: i32, uuid: String)
        ensures
            final(self).entries() == old(self).entries().insert(key, uuid@),
    {
        broadcast use vstd::std_specs::hash::group_hash_axioms;
        let ghost u = uuid@;
        self.hotkeys.insert(key, uuid);
        proof {
            assert(self.entries() =~= old(self).entries().insert(key, u));
        }
    }
}

/// Which layout data two values describe.
pub open spec fn same_layout_data(a: LayoutData, b: LayoutData) -> bool {
    &&& a.uuid@ == b.uuid@
    &&& a.layout_type == b.layout_type
    &&& a.show_spacing == b.show_spacing
    &&& a.spacing == b.spacing
    &&& a.zone_count == b.zone_count
    &&& a.sensitivity_radius == b.sensitivity_radius
}

/// The default layouts for horizontal and vertical monitor arrangements.
#[derive(Debug, Clone)]
pub struct DefaultLayouts {
    pub horizontal: Option<LayoutData>,
    pub vertical: Option<LayoutData>,
}

impl DefaultLayouts {
    pub fn new() -> (d: Self)
        ensures
            d.horizontal is None,
            d.vertical is None,
    {
        DefaultLayouts { horizontal: None, vertical: None }
    }

    /// The layout set for an arrangement; without one, the default settings
    /// with a priority grid (horizontal) or rows (vertical).
    pub fn get_default_layout(&self, config: MonitorConfigurationType) -> (d: LayoutData)
        ensures
            match (config, self.horizontal, self.vertical) {
                (MonitorConfigurationType::Horizontal, Some(h), _) => same_layout_data(d, h),
                (MonitorConfigurationType::Horizontal, None, _) => default_layout_data(
                    Seq::empty(),
                    ZoneSetLayoutType::PriorityGrid,
                    d,
                ),
                (MonitorConfigurationType::Vertical, _, Some(v)) => same_layout_data(d, v),
                (MonitorConfigurationType::Vertical, _, None) => default_layout_data(
                    Seq::empty(),
                    ZoneSetLayoutType::Rows,
                    d,
                ),
            },
    {
        match config {
            MonitorConfigurationType::Horizontal => match &self.horizontal {
                Some(h) => h.copy(),
                None => LayoutData::default(),
            },
            MonitorConfigurationType::Vertical => match &self.vertical {
                Some(v) => v.copy(),
                None => {
                    let mut d = LayoutData::default();
                    d.layout_type = ZoneSetLayoutType::Rows;
                    d
                },
            },
        }
    }
}

/// The custom layouts by uuid.
#[derive(Debug)]
pub struct CustomLayoutsStore {
    layouts: Vec<(String, CustomLayoutData)>,
}

impl CustomLayoutsStore {
    #[verifier::type_invariant]
    spec fn keys_distinct(self) -> bool {
        str_keys_unique(self.layouts@)
    }

    pub closed spec fn entries(self) -> Seq<(String, CustomLayoutData)> {
        self.layouts@
    }

    pub fn new() -> (s: Self)
        ensures
            s.entries().len() == 0,
    {
        CustomLayoutsStore { layouts: Vec::new() }
    }

    /// Every (uuid, layout) entry.
    pub fn get_all_layouts(&self) -> (v: &Vec<(String, CustomLayoutData)>)
        ensures
            v@ == self.entries(),
    {
        &self.layouts
    }

    pub fn get_layout(&self, uuid: &str) -> (r: Option<&CustomLayoutData>)
        ensures
            match r {
                Some(l) => str_get(self.entries(), uuid@) == Some(*l),
                None => str_get(self.entries(), uuid@) is None,
            },
    {
        proof {
            use_type_invariant(self);
        }
        match find_str_key(&self.layouts, uuid) {
            Some(i) => Some(&self.layouts[i].1),
            None => None,
        }
    }

    /// Removes every layout.
    pub fn clear(&mut self)
        ensures
            final(self).entries().len() == 0,
            str_keys_unique(final(self).entries()),
    {
        self.layouts = Vec::new();
    }

    /// Stores a layout under its uuid.
    pub fn set_layout(&mut self, uuid: String, layout: CustomLayoutData)
        ensures
            final(self).entries() == str_put(old(self).entries(), uuid, layout),
            str_keys_unique(final(self).entries()),
    {
        proof {
            use_type_invariant(&*self);
        }
        let mut layouts = Vec::new();
        std::mem::swap(&mut layouts, &mut self.layouts);
        put_str_key(&mut layouts, uuid, layout);
        self.layouts = layouts;
    }
}

/// The layout applied to each work area, by its key.
#[derive(Debug)]
pub struct AppliedLayouts {
    layouts: Vec<(String, LayoutData)>,
}

impl AppliedLayouts {
    #[verifier::type_invariant]
    spec fn keys_distinct(self) -> bool {
        str_keys_unique(self.layouts@)
    }

    pub closed spec fn entries(self) -> Seq<(String, LayoutData)> {
        self.layouts@
    }

    pub fn new() -> (s: Self)
        ensures
            s.entries().len() == 0,
    {
        AppliedLayouts { layouts: Vec::new() }
    }

    /// Every (key, layout) entry.
    pub fn get_applied_layout_map(&self) -> (v: &Vec<(String, LayoutData)>)
        ensures
            v@ == self.entries(),
    {
        &self.layouts
    }

    pub fn get_device_layout(&self, key: &str) -> (r: Option<&LayoutData>)
        ensures
            match r {
                Some(l) => str_get(self.entries(), key@) == Some(*l),
                None => str_get(self.entries(), key@) is None,
            },
    {
        proof {
            use_type_invariant(self);
        }
        match find_str_key(&self.layouts, key) {
            Some(i) => Some(&self.layouts[i].1),
            None => None,
        }
    }

    pub fn is_layout_applied(&self, key: &str) -> (b: bool)
        ensures
            b == str_get(self.entries(), key@) is Some,
    {
        proof {
            use_type_invariant(self);
        }
        find_str_key(&self.layouts, key).is_some()
    }

    /// Applies a layout to a work area, replacing what it had.
    pub fn apply_layout(&mut self, key: String, layout: LayoutData)
        ensures
            final(self).entries() == str_put(old(self).entries(), key, layout),
            str_keys_unique(final(self).entries()),
    {
        proof {
            use_type_invariant(&*self);
        }
        let mut layouts = Vec::new();
        std::mem::swap(&mut layouts, &mut self.layouts);
        put_str_key(&mut layouts, key, layout);
        self.layouts = layouts;
    }

    /// Removes every applied layout.
    pub fn clear(&mut self)
        ensures
            final(self).entries().len() == 0,
            str_keys_unique(final(self).entries()),
    {
        self.layouts = Vec::new();
    }
}

/// After a layout is applied under a key, the key reads back that layout and
/// counts as applied; the layouts under other keys are unchanged.
pub proof fn lemma_apply_then_read(
    before: Seq<(String, LayoutData)>,
    key: String,
    layout: LayoutData,
    other: Seq<char>,
)
    requires
        str_keys_unique(before),
    ensures
        str_get(str_put(before, key, layout), key@) == Some(layout),
        other != key@ ==> str_get(str_put(before, key, layout), other) == str_get(before, other),
{
    lemma_str_put_get(before, key, layout, other);
}

/// The zones each window is assigned to; window handle 0 means no window.
#[derive(Debug)]
pub struct LayoutAssignedWindows {
    window_index_set: HashMap<u64, Vec<i64>>,
}

/// The zones a window is reported in: none for handle 0 or an unknown window.
pub open spec fn zones_of_window(e: Map<u64, Seq<i64>>, w: u64) -> Seq<i64> {
    if w == 0 {
        Seq::empty()
    } else if e.contains_key(w) {
        e[w]
    } else {
        Seq::empty()
    }
}

/// Whether no window is assigned to a zone.
pub open spec fn zone_is_empty(e: Map<u64, Seq<i64>>, zone: i64) -> bool {
    forall|w: u64| e.contains_key(w) ==> !(#[trigger] e[w]).contains(zone)
}

pub(crate) fn copy_zones(v: &Vec<i64>) -> (r: Vec<i64>)
    ensures
        r@ == v@,
{
    let mut r: Vec<i64> = Vec::new();
    let mut i: usize = 0;
    while i < v.len()
        invariant
            i <= v@.len(),
            r@ == v@.take(i as int),
        decreases v@.len() - i,
    {
        r.push(v[i]);
        i = i + 1;
        proof {
            assert(r@ =~= v@.take(i as int));
        }
    }
    proof {
        assert(v@.take(i as int) =~= v@);
    }
    r
}

impl LayoutAssignedWindows {
    /// The zones of each assigned window.
    pub closed spec fn entries(self) -> Map<u64, Seq<i64>> {
        self.window_index_set@.map_values(|z: Vec<i64>| z@)
    }

    pub fn new() -> (s: Self)
        ensures
            s.entries() == Map::<u64, Seq<i64>>::empty(),
    {
        broadcast use vstd::std_specs::hash::group_hash_axioms;
        let s = LayoutAssignedWindows { window_index_set: HashMap::new() };
        proof {
            assert(s.entries() =~= Map::<u64, Seq<i64>>::empty());
        }
        s
    }

    /// Assigns a window to zones, replacing what it had.
    pub fn assign(&mut self, window: u64, zones: Vec<i64>)
        ensures
            final(self).entries() == old(self).entries().insert(window, zones@),
    {
        broadcast use vstd::std_specs::hash::group_hash_axioms;
        let ghost z = zones@;
        self.window_index_set.insert(window, zones);
        proof {
            assert(self.entries() =~= old(self).entries().insert(window, z));
        }
    }

    /// Forgets a window.
    pub fn dismiss(&mut self, window: u64)
        ensures
            final(self).entries() == old(self).entries().remove(window),
    {
        broadcast use vstd::std_specs::hash::group_hash_axioms;
        let _ = self.window_index_set.remove(&window);
        proof {
            assert(self.entries() =~= old(self).entries().remove(window));
        }
    }

    /// The zones a window is assigned to; none for handle 0 or an unknown
    /// window.
    pub fn get_zone_index_set_from_window(&self, window: u64) -> (z: Vec<i64>)
        ensures
            z@ == zones_of_window(self.entries(), window),
    {
        broadcast use vstd::std_specs::hash::group_hash_axioms;
        if window == 0 {
            return Vec::new();
        }
        match self.window_index_set.get(&window) {
            Some(v) => copy_zones(v),
            None => Vec::new(),
        }
    }

    /// Whether no window is assigned to the zone.
    pub fn is_zone_empty(&self, zone_index: i64) -> (b: bool)
        ensures
            b == zone_is_empty(self.entries(), zone_index),
    {
        broadcast use vstd::std_specs::hash::group_hash_axioms;
        let ghost m = self.window_index_set@;
        let mut found = false;
        for zones in it: self.window_index_set.values()
            invariant
                m == self.window_index_set@,
                it.seq().unref().to_set() == m.values(),
                found ==> !zone_is_empty(self.entries(), zone_index),
                !found ==> forall|j: int| 0 <= j < it.index() ==> !(#[trigger] it.seq()[j])@.contains(zone_index),
                (!found && it.index() == it.seq().len()) ==> zone_is_empty(self.entries(), zone_index),
        {
            if !found && contains_zone(zones, zone_index) {
                proof {
                    let j = it.index();
                    assert(it.seq().unref().to_set().contains(*it.seq()[j]));
                    assert(m.values().contains(*zones));
                    let w = choose|w: u64| m.contains_key(w) && m[w] == *zones;
                    assert(self.entries()[w] == m[w]@);
                }
                found = true;
            }
            proof {
                if !found {
                    lemma_values_clear(m, self.entries(), it.seq().unref(), it.index() + 1, zone_index);
                }
            }
        }
        !found
    }
}

/// Where none of the first `n` values of a listing of the map's values holds
/// the zone, and `n` is the whole listing, no value of the map holds it.
proof fn lemma_values_clear(m: Map<u64, Vec<i64>>, e: Map<u64, Seq<i64>>, s: Seq<Vec<i64>>, n: int, zone: i64)
    requires
        e == m.map_values(|z: Vec<i64>| z@),
        s.to_set() == m.values(),
        forall|j: int| 0 <= j < n && j < s.len() ==> !(#[trigger] s[j])@.contains(zone),
    ensures
        n >= s.len() ==> zone_is_empty(e, zone),
{
    if n >= s.len() {
        assert forall|w: u64| #[trigger] e.contains_key(w) implies !e[w].contains(zone) by {
            assert(m.values().contains(m[w]));
            assert(s.to_set().contains(m[w]));
            assert(s.contains(m[w]));
            let j = choose|j: int| 0 <= j < s.len() && s[j] == m[w];
            assert(!s[j]@.contains(zone));
        }
    }
}

fn contains_zone(zones: &Vec<i64>, zone: i64) -> (b: bool)
    ensures
        b == zones@.contains(zone),
{
    let mut k: usize = 0;
    while k < zones.len()
        invariant
            k <= zones@.len(),
            forall|j: int| 0 <= j < k ==> zones@[j] != zone,
        decreases zones@.len() - k,
    {
        if zones[k] == zone {
            proof {
                assert(zones@[k as int] == zone);
            }
            return true;
        }
        k = k + 1;
    }
    false
}

/// After a window is assigned to zones it reads back those zones, after it is
/// dismissed it reads back none, and other windows are unaffected.
pub proof fn lemma_assign_dismiss_read(e: Map<u64, Seq<i64>>, w: u64, zones: Seq<i64>, other: u64)
    requires
        w != 0,
    ensures
        zones_of_window(e.insert(w, zones), w) == zones,
        zones_of_window(e.remove(w), w) == Seq::<i64>::empty(),
        other != w ==> zones_of_window(e.insert(w, zones), other) == zones_of_window(e, other),
        other != w ==> zones_of_window(e.remove(w), other) == zones_of_window(e, other),
{
}

/// A call on the window assignments: `(true, w, zones)` assigns window `w`
/// to `zones`, `(false, w, _)` dismisses it.
pub type WindowCall = (bool, u64, Seq<i64>);

/// The assignments after a sequence of calls.
pub open spec fn after_calls(e: Map<u64, Seq<i64>>, calls: Seq<WindowCall>) -> Map<u64, Seq<i64>>
    decreases calls.len(),
{
    if calls.len() == 0 {
        e
    } else {
        let prev = after_calls(e, calls.drop_last());
        let c = calls.last();
        if c.0 {
            prev.insert(c.1, c.2)
        } else {
            prev.remove(c.1)
        }
    }
}

/// The zones of the last call that assigned window `w`, unless a later call
/// dismissed it.
pub open spec fn last_assignment(calls: Seq<WindowCall>, w: u64) -> Option<Seq<i64>>
    decreases calls.len(),
{
    if calls.len() == 0 {
        None
    } else if calls.last().1 == w {
        if calls.last().0 {
            Some(calls.last().2)
        } else {
            None
        }
    } else {
        last_assignment(calls.drop_last(), w)
    }
}

/// From no assignments, a window holds the zones of its last assignment not
/// followed by a dismissal.
proof fn lemma_calls_get(calls: Seq<WindowCall>, w: u64)
    ensures
        after_calls(Map::empty(), calls).contains_key(w) <==> last_assignment(calls, w) is Some,
        last_assignment(calls, w) matches Some(z) ==> after_calls(Map::empty(), calls)[w] == z,
    decreases calls.len(),
{
    if calls.len() > 0 {
        lemma_calls_get(calls.drop_last(), w);
    }
}

/// A store's entries follow its calls: `new` gives the entries of no calls,
/// and where the entries are those of a sequence of calls, `assign(w, z)`
/// gives those of the sequence with `(true, w, z@)` added, and `dismiss(w)`
/// those with `(false, w, _)` added.
pub proof fn lemma_calls_step(calls: Seq<WindowCall>, w: u64, z: Seq<i64>)
    ensures
        after_calls(Map::empty(), Seq::<WindowCall>::empty()) == Map::<u64, Seq<i64>>::empty(),
        after_calls(Map::empty(), calls.push((true, w, z))) == after_calls(Map::empty(), calls).insert(w, z),
        after_calls(Map::empty(), calls.push((false, w, z))) == after_calls(Map::empty(), calls).remove(w),
{
    assert(calls.push((true, w, z)).drop_last() =~= calls);
    assert(calls.push((false, w, z)).drop_last() =~= calls);
}

/// Starting from no assignments (`new`), after any sequence of `assign` and
/// `dismiss` calls (see `lemma_calls_step`), `get_zone_index_set_from_window`
/// reads back for a window the zones of its last assignment that no
/// dismissal followed; window 0, and a window never assigned, read back
/// none.
pub proof fn lemma_reads_last_assignment(calls: Seq<WindowCall>, w: u64)
    ensures
        zones_of_window(after_calls(Map::empty(), calls), w) == if w == 0 {
            Seq::<i64>::empty()
        } else {
            match last_assignment(calls, w) {
                Some(z) => z,
                None => Seq::<i64>::empty(),
            }
        },
{
    lemma_calls_get(calls, w);
}

/// Starting from no assignments (`new`), after any sequence of `assign` and
/// `dismiss` calls, `is_zone_empty` holds of a zone exactly when no window
/// (window 0 included) has it among the zones of its last assignment that no
/// dismissal followed.
pub proof fn lemma_zone_empty_after_calls(calls: Seq<WindowCall>, zone: i64)
    ensures
        zone_is_empty(after_calls(Map::empty(), calls), zone) <==> !exists|w: u64|
            #[trigger] last_assignment(calls, w) matches Some(z) && z.contains(zone),
{
    let e = after_calls(Map::empty(), calls);
    if !zone_is_empty(e, zone) {
        let w = choose|w: u64| e.contains_key(w) && (#[trigger] e[w]).contains(zone);
        lemma_calls_get(calls, w);
        assert(last_assignment(calls, w) == Some(e[w]));
    }
    if exists|w: u64| #[trigger] last_assignment(calls, w) matches Some(z) && z.contains(zone) {
        let w = choose|w: u64| #[trigger] last_assignment(calls, w) matches Some(z) && z.contains(zone);
        lemma_calls_get(calls, w);
        assert(e.contains_key(w) && e[w].contains(zone));
    }
}

/// A template layout's settings.
#[derive(Debug, Clone, Copy, PartialEq, Eq, Structural)]
pub struct LayoutTemplate {
    pub layout_type: ZoneSetLayoutType,
    pub show_spacing: bool,
    pub spacing: i32,
    pub zone_count: i32,
    pub sensitivity_radius: i32,
}

/// The layout templates, in the order they were read.
#[derive(Debug, Clone)]
pub struct LayoutTemplatesStore {
    templates: Vec<LayoutTemplate>,
}

impl LayoutTemplatesStore {
    pub closed spec fn entries(self) -> Seq<LayoutTemplate> {
        self.templates@
    }

    pub fn new() -> (s: Self)
        ensures
            s.entries().len() == 0,
    {
        LayoutTemplatesStore { templates: Vec::new() }
    }

    pub fn get_templates(&self) -> (t: &[LayoutTemplate])
        ensures
            t@ == self.entries(),
    {
        self.templates.as_slice()
    }

    /// Removes every template.
    pub fn clear(&mut self)
        ensures
            final(self).entries().len() == 0,
    {
        self.templates = Vec::new();
    }

    /// Appends a template.
    pub fn add_template(&mut self, t: LayoutTemplate)
        ensures
            final(self).entries() == old(self).entries().push(t),
    {
        self.templates.push(t);
    }
}

} // verus!
