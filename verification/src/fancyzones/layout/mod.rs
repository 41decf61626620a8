//! Layouts: zones generated from a layout kind and a work area, and the
//! lookups on them.

pub mod zones;
pub mod grid;
pub mod lookup;

pub use grid::{calculate_grid_zones, layout_grid, layout_priority_grid};
pub use zones::{layout_columns, layout_focus, layout_rows};

use vstd::prelude::*;
use crate::fancyzones::data::{is_grid_type, ZoneSetLayoutType};
use crate::fancyzones::rect::{Point, Rect};
use crate::fancyzones::settings::OverlappingZonesAlgorithm;
use crate::fancyzones::zone::Zone;
use crate::fancyzones::layout::grid::{auto_grid_layout, priority_grid_layout};
use crate::fancyzones::layout::zones::{
    area_fits, columns_fit, columns_layout, focus_fit, focus_layout, ids_increasing, pair_valid,
    rows_fit, rows_layout, zone_pair, zone_pairs,
};
use crate::fancyzones::layout::lookup::{combined_range, combined_rect, zones_at_point};

verus! {

/// The settings a layout is built from.
#[derive(Debug, Clone)]
pub struct LayoutData {
    pub uuid: String,
    pub layout_type: ZoneSetLayoutType,
    pub show_spacing: bool,
    pub spacing: i32,
    pub zone_count: i32,
    pub sensitivity_radius: i32,
}

/// The zones of a layout kind, or `None` for a custom layout.
pub open spec fn template_zones(t: ZoneSetLayoutType, w: int, h: int, n: i32, s: int) -> Option<Seq<(Rect, i64)>> {
    match t {
        ZoneSetLayoutType::Blank => Some(Seq::empty()),
        ZoneSetLayoutType::Focus => Some(focus_layout(w, h, n as int)),
        ZoneSetLayoutType::Columns => Some(columns_layout(w, h, n as int, s)),
        ZoneSetLayoutType::Rows => Some(rows_layout(w, h, n as int, s)),
        ZoneSetLayoutType::Grid => Some(auto_grid_layout(w, h, n as int, s)),
        ZoneSetLayoutType::PriorityGrid => Some(priority_grid_layout(w, h, n, s)),
        ZoneSetLayoutType::Custom => None,
    }
}

/// The spacing in effect.
pub open spec fn effective_spacing(d: LayoutData) -> int {
    if d.show_spacing {
        d.spacing as int
    } else {
        0
    }
}

/// The coordinates of the kind's zones fit in an `i32`.
pub open spec fn template_fits(d: LayoutData, work_area: Rect) -> bool {
    let w = work_area.right - work_area.left;
    let h = work_area.bottom - work_area.top;
    let s = effective_spacing(d);
    &&& area_fits(work_area)
    &&& (d.layout_type == ZoneSetLayoutType::Focus ==> focus_fit(w, h, d.zone_count as int))
    &&& (d.layout_type == ZoneSetLayoutType::Rows ==> rows_fit(w, h, d.zone_count as int, s))
    &&& (d.layout_type == ZoneSetLayoutType::Columns ==> columns_fit(w, h, d.zone_count as int, s))
}

/// A layout: its settings and its zones in increasing order of index.
#[derive(Debug)]
pub struct Layout {
    data: LayoutData,
    zones: Vec<Zone>,
}

impl Layout {
    #[verifier::type_invariant]
    spec fn zones_ordered(self) -> bool {
        ids_increasing(zone_pairs(self.zones@))
    }

    /// The settings.
    pub closed spec fn spec_data(self) -> LayoutData {
        self.data
    }

    /// The zones as rectangles and indices.
    pub closed spec fn spec_zones(self) -> Seq<(Rect, i64)> {
        zone_pairs(self.zones@)
    }

    pub fn new(data: LayoutData) -> (l: Self)
        ensures
            l.spec_data() == data,
            l.spec_zones().len() == 0,
    {
        Layout { data, zones: Vec::new() }
    }

    /// Builds the zones for a work area; true when the layout got as many
    /// zones as it asks for. A work area without width or height, a negative
    /// zone count, no zones for a grid kind, and a custom layout all fail and
    /// leave the zones as they were.
    pub fn init(&mut self, work_area: Rect) -> (ok: bool)
        requires
            template_fits(old(self).spec_data(), work_area),
        ensures
            final(self).spec_data() == old(self).spec_data(),
            ({
                let d = old(self).spec_data();
                let w = work_area.right - work_area.left;
                let h = work_area.bottom - work_area.top;
                if w == 0 || h == 0 || d.zone_count < 0 || (d.zone_count == 0 && is_grid_type(d.layout_type)) {
                    !ok && final(self).spec_zones() == old(self).spec_zones()
                } else {
                    match template_zones(d.layout_type, w, h, d.zone_count, effective_spacing(d)) {
                        None => !ok && final(self).spec_zones() == old(self).spec_zones(),
                        Some(zs) => final(self).spec_zones() == zs && ok == (zs.len() == d.zone_count),
                    }
                }
            }),
    {
        if work_area.width() == 0 || work_area.height() == 0 {
            return false;
        }
        let t = self.data.layout_type;
        let is_grid = match t {
            ZoneSetLayoutType::Columns | ZoneSetLayoutType::Rows | ZoneSetLayoutType::Grid
            | ZoneSetLayoutType::PriorityGrid => true,
            _ => false,
        };
        let n = self.data.zone_count;
        if n < 0 || (n == 0 && is_grid) {
            return false;
        }
        let spacing = if self.data.show_spacing { self.data.spacing } else { 0 };
        let zones = match t {
            ZoneSetLayoutType::Blank => Vec::new(),
            ZoneSetLayoutType::Focus => layout_focus(work_area, n),
            ZoneSetLayoutType::Columns => layout_columns(work_area, n, spacing),
            ZoneSetLayoutType::Rows => layout_rows(work_area, n, spacing),
            ZoneSetLayoutType::Grid => layout_grid(work_area, n, spacing),
            ZoneSetLayoutType::PriorityGrid => layout_priority_grid(work_area, n, spacing),
            ZoneSetLayoutType::Custom => {
                return false;
            },
        };
        proof {
            if t == ZoneSetLayoutType::Blank {
                assert(zone_pairs(zones@) =~= Seq::<(Rect, i64)>::empty());
            }
        }
        let count = zones.len();
        self.zones = zones;
        count == n as usize
    }

    /// Uses the given rectangles as zones 0, 1, ...; if one is invalid the
    /// layout is left without zones and false returned.
    pub fn init_custom(&mut self, zones: Vec<Rect>) -> (ok: bool)
        requires
            zones@.len() <= i64::MAX,
        ensures
            final(self).spec_data() == old(self).spec_data(),
            ok == forall|i: int| 0 <= i < zones@.len() ==> pair_valid(#[trigger] zones@[i], i as i64),
            ok ==> final(self).spec_zones() == Seq::new(zones@.len(), |i: int| (zones@[i], i as i64)),
            !ok ==> final(self).spec_zones().len() == 0,
    {
        let mut built: Vec<Zone> = Vec::new();
        let mut i: usize = 0;
        while i < zones.len()
            invariant
                self.spec_data() == old(self).spec_data(),
                i <= zones@.len() <= i64::MAX,
                zone_pairs(built@) == Seq::new(i as nat, |k: int| (zones@[k], k as i64)),
                forall|k: int| 0 <= k < i ==> pair_valid(#[trigger] zones@[k], k as i64),
            decreases zones@.len() - i,
        {
            let zone = Zone::new(zones[i], i as i64);
            if !zone.is_valid() {
                self.zones = Vec::new();
                proof {
                    assert(!pair_valid(zones@[i as int], i as i64));
                    assert(zone_pairs(self.zones@) =~= Seq::<(Rect, i64)>::empty());
                }
                return false;
            }
            let ghost before = built@;
            built.push(zone);
            proof {
                assert(zone_pairs(built@) =~= zone_pairs(before).push(zone_pair(zone)));
            }
            i = i + 1;
            proof {
                assert(zone_pairs(built@) =~= Seq::new(i as nat, |k: int| (zones@[k], k as i64)));
            }
        }
        self.zones = built;
        true
    }

    /// The layout's uuid.
    pub fn id(&self) -> (s: &str)
        ensures
            s@ == self.spec_data().uuid@,
    {
        self.data.uuid.as_str()
    }

    pub fn layout_type(&self) -> (t: ZoneSetLayoutType)
        ensures
            t == self.spec_data().layout_type,
    {
        self.data.layout_type
    }

    /// The zones in increasing order of index.
    pub fn zones(&self) -> (z: &Vec<Zone>)
        ensures
            zone_pairs(z@) == self.spec_zones(),
    {
        &self.zones
    }

    /// The zone with the given index.
    pub fn zone(&self, id: i64) -> (z: Option<&Zone>)
        ensures
            match z {
                Some(z) => zone_pair(*z).1 == id && self.spec_zones().contains(zone_pair(*z)),
                None => forall|i: int| 0 <= i < self.spec_zones().len() ==> self.spec_zones()[i].1 != id,
            },
    {
        let mut i: usize = 0;
        while i < self.zones.len()
            invariant
                i <= self.zones@.len(),
                forall|k: int| 0 <= k < i ==> zone_pairs(self.zones@)[k].1 != id,
            decreases self.zones@.len() - i,
        {
            if self.zones[i].id() == id {
                proof {
                    assert(zone_pairs(self.zones@)[i as int] == zone_pair(self.zones@[i as int]));
                }
                return Some(&self.zones[i]);
            }
            i = i + 1;
        }
        None
    }
}

} // verus!
