//! The drag tracker the engine uses: zones under the cursor on every move,
//! spanned from the first ones when several are selected.

use vstd::prelude::*;
use crate::fancyzones::data::stores::copy_zones;
use crate::fancyzones::engine::drag::{find_hit, first_hit, opt_seq, search_fits, target_rect, zones_under};
use crate::fancyzones::engine::work_area::{offset_fits, WorkArea};
use crate::fancyzones::layout::lookup::{combined_range, combined_rect};
use crate::fancyzones::rect::{Point, Rect};
use crate::fancyzones::settings::OverlappingZonesAlgorithm;

verus! {

/// The active work area and the first highlighted zone, when the work area
/// exists and a zone is highlighted.
pub open spec fn target_info_of(d: DragState, was: Seq<WorkArea>) -> Option<(usize, usize)> {
    match d.active_work_area {
        None => None,
        Some(i) => if i >= was.len() || d.highlighted_zones@.len() == 0 {
            None
        } else {
            Some((i, d.highlighted_zones@[0] as usize))
        },
    }
}

/// A window being dragged.
pub struct DragState {
    pub hwnd: u64,
    pub cursor: Point,
    pub active_work_area: Option<usize>,
    pub highlighted_zones: Vec<i64>,
    pub snapping_mode: bool,
    pub initial_zones: Option<Vec<i64>>,
}

impl DragState {
    pub fn new(hwnd: u64) -> (d: Self)
        ensures
            d.hwnd == hwnd,
            d.cursor == (Point { x: 0, y: 0 }),
            d.active_work_area is None,
            d.highlighted_zones@.len() == 0,
            !d.snapping_mode,
            d.initial_zones is None,
    {
        DragState {
            hwnd,
            cursor: Point::new(0, 0),
            active_work_area: None,
            highlighted_zones: Vec::new(),
            snapping_mode: false,
            initial_zones: None,
        }
    }

    pub fn enable_snapping(&mut self)
        ensures
            final(self).snapping_mode,
            final(self).hwnd == old(self).hwnd,
            final(self).cursor == old(self).cursor,
            final(self).active_work_area == old(self).active_work_area,
            final(self).highlighted_zones@ == old(self).highlighted_zones@,
            opt_seq(final(self).initial_zones) == opt_seq(old(self).initial_zones),
    {
        self.snapping_mode = true;
    }

    /// Moves the cursor: the first work area with a zone under it becomes
    /// active and its zones are highlighted; with `select_many` the first
    /// zones found are kept and later ones span from them.
    pub fn update(
        &mut self,
        x: i32,
        y: i32,
        work_areas: &[WorkArea],
        algorithm: OverlappingZonesAlgorithm,
        select_many: bool,
    )
        requires
            search_fits(work_areas@, x as int, y as int, algorithm),
        ensures
            final(self).hwnd == old(self).hwnd,
            final(self).cursor == (Point { x, y }),
            final(self).snapping_mode == old(self).snapping_mode,
            ({
                let i = first_hit(work_areas@, x as int, y as int, algorithm);
                if i < 0 {
                    &&& final(self).highlighted_zones@.len() == 0
                    &&& final(self).active_work_area is None
                    &&& opt_seq(final(self).initial_zones) == opt_seq(old(self).initial_zones)
                } else {
                    let wa = work_areas@[i];
                    let z = zones_under(wa, x as int, y as int, algorithm);
                    &&& final(self).active_work_area == Some(i as usize)
                    &&& if select_many {
                        match opt_seq(old(self).initial_zones) {
                            Some(init) => {
                                &&& opt_seq(final(self).initial_zones) == Some(init)
                                &&& final(self).highlighted_zones@ == combined_range(wa.spec_zones(), init, z)
                            },
                            None => {
                                &&& opt_seq(final(self).initial_zones) == Some(z)
                                &&& final(self).highlighted_zones@ == z
                            },
                        }
                    } else {
                        &&& final(self).initial_zones is None
                        &&& final(self).highlighted_zones@ == z
                    }
                }
            }),
    {
        self.cursor = Point::new(x, y);
        self.highlighted_zones = Vec::new();
        self.active_work_area = None;
        match find_hit(work_areas, x, y, algorithm) {
            Some((i, zones)) => {
                self.active_work_area = Some(i);
                let wa = &work_areas[i];
                if select_many {
                    match &self.initial_zones {
                        Some(initial) => {
                            self.highlighted_zones = wa.layout().get_combined_zone_range(initial, &zones);
                        },
                        None => {
                            self.initial_zones = Some(copy_zones(&zones));
                            self.highlighted_zones = zones;
                        },
                    }
                } else {
                    self.highlighted_zones = zones;
                    self.initial_zones = None;
                }
            },
            None => {},
        }
    }

    /// The window and the rectangle of its highlighted zones on the active
    /// work area, if there are any.
    pub fn snap_target(&self, work_areas: &[WorkArea]) -> (r: Option<(u64, Rect)>)
        requires
            match self.active_work_area {
                Some(i) => i < work_areas@.len() && self.highlighted_zones@.len() > 0 ==> offset_fits(
                    combined_rect(work_areas@[i as int].spec_zones(), self.highlighted_zones@),
                    work_areas@[i as int].spec_rect().left as int,
                    work_areas@[i as int].spec_rect().top as int,
                ),
                None => true,
            },
        ensures
            r == match self.active_work_area {
                None => None,
                Some(i) => if i >= work_areas@.len() || self.highlighted_zones@.len() == 0 {
                    None
                } else {
                    Some((self.hwnd, target_rect(work_areas@[i as int], self.highlighted_zones@)))
                },
            },
    {
        let idx = match self.active_work_area {
            Some(i) => i,
            None => {
                return None;
            },
        };
        if idx >= work_areas.len() {
            return None;
        }
        let wa = &work_areas[idx];
        if self.highlighted_zones.len() == 0 {
            return None;
        }
        let rect = wa.get_zone_rect(&self.highlighted_zones);
        Some((self.hwnd, rect))
    }

    /// The active work area and the first highlighted zone, if any.
    pub fn snap_target_info(&self, work_areas: &[WorkArea]) -> (r: Option<(usize, usize)>)
        ensures
            r == target_info_of(*self, work_areas@),
    {
        let idx = match self.active_work_area {
            Some(i) => i,
            None => {
                return None;
            },
        };
        if idx >= work_areas.len() {
            return None;
        }
        if self.highlighted_zones.len() == 0 {
            return None;
        }
        let first = self.highlighted_zones[0];
        Some((idx, first as usize))
    }
}

} // verus!
