//! A window drag: which work area and zones are under the cursor, and where
//! the window snaps when the drag ends.

use vstd::prelude::*;
use crate::fancyzones::data::stores::copy_zones;
use crate::fancyzones::engine::work_area::{offset_fits, offset_rect, WorkArea};
use crate::fancyzones::layout::lookup::{combined_range, combined_rect, zones_at_point};
use crate::fancyzones::rect::{Point, Rect};
use crate::fancyzones::settings::OverlappingZonesAlgorithm;

verus! {

/// The point, taken relative to the work area, stays in `i32`.
pub open spec fn point_fits(wa: WorkArea, x: int, y: int) -> bool {
    &&& i32::MIN <= x - wa.spec_rect().left <= i32::MAX
    &&& i32::MIN <= y - wa.spec_rect().top <= i32::MAX
}

/// The zones of a work area under a point in screen coordinates.
pub open spec fn zones_under(wa: WorkArea, x: int, y: int, alg: OverlappingZonesAlgorithm) -> Seq<i64> {
    zones_at_point(
        wa.spec_zones(),
        wa.spec_data().sensitivity_radius as int,
        x - wa.spec_rect().left,
        y - wa.spec_rect().top,
        alg,
    )
}

/// The point is over a zone of the `i`-th work area.
pub open spec fn is_hit(was: Seq<WorkArea>, i: int, x: int, y: int, alg: OverlappingZonesAlgorithm) -> bool {
    zones_under(was[i], x, y, alg).len() > 0
}

/// The first work area with a zone under the point, or -1.
pub open spec fn first_hit(was: Seq<WorkArea>, x: int, y: int, alg: OverlappingZonesAlgorithm) -> int {
    if exists|i: int|
        0 <= i < was.len() && #[trigger] is_hit(was, i, x, y, alg) && (forall|j: int|
            0 <= j < i ==> !#[trigger] is_hit(was, j, x, y, alg)) {
        choose|i: int|
            0 <= i < was.len() && #[trigger] is_hit(was, i, x, y, alg) && (forall|j: int|
                0 <= j < i ==> !#[trigger] is_hit(was, j, x, y, alg))
    } else {
        -1
    }
}

/// Every work area the search reaches (up to the first hit) can take the
/// point in its own coordinates.
pub open spec fn search_fits(was: Seq<WorkArea>, x: int, y: int, alg: OverlappingZonesAlgorithm) -> bool {
    forall|i: int|
        #![trigger was[i]]
        0 <= i < was.len() && (forall|j: int| 0 <= j < i ==> !#[trigger] is_hit(was, j, x, y, alg)) ==> point_fits(
            was[i],
            x,
            y,
        )
}

/// Finds the first work area with a zone under the point, and its zones.
pub fn find_hit(work_areas: &[WorkArea], x: i32, y: i32, algorithm: OverlappingZonesAlgorithm) -> (r: Option<
    (usize, Vec<i64>),
>)
    requires
        search_fits(work_areas@, x as int, y as int, algorithm),
    ensures
        match r {
            Some((i, z)) => {
                &&& i == first_hit(work_areas@, x as int, y as int, algorithm)
                &&& i < work_areas@.len()
                &&& z@ == zones_under(work_areas@[i as int], x as int, y as int, algorithm)
            },
            None => first_hit(work_areas@, x as int, y as int, algorithm) == -1,
        },
{
    let ghost was = work_areas@;
    let pt = Point::new(x, y);
    let mut i: usize = 0;
    while i < work_areas.len()
        invariant
            i <= was.len(),
            was == work_areas@,
            pt == (Point { x, y }),
            search_fits(was, x as int, y as int, algorithm),
            forall|j: int| 0 <= j < i ==> !#[trigger] is_hit(was, j, x as int, y as int, algorithm),
        decreases was.len() - i,
    {
        let wa = &work_areas[i];
        proof {
            assert(point_fits(was[i as int], x as int, y as int));
        }
        let zones = wa.zones_from_point(pt, algorithm);
        if zones.len() > 0 {
            proof {
                assert(is_hit(was, i as int, x as int, y as int, algorithm));
                let c = first_hit(was, x as int, y as int, algorithm);
                assert(c == i) by {
                    assert(0 <= c < was.len() && is_hit(was, c, x as int, y as int, algorithm));
                    if c < i {
                        assert(!is_hit(was, c, x as int, y as int, algorithm));
                    } else if c > i {
                        assert(!is_hit(was, i as int, x as int, y as int, algorithm));
                    }
                }
            }
            return Some((i, zones));
        }
        proof {
            assert(!is_hit(was, i as int, x as int, y as int, algorithm));
        }
        i = i + 1;
    }
    proof {
        assert(first_hit(was, x as int, y as int, algorithm) == -1) by {
            if exists|c: int|
                0 <= c < was.len() && #[trigger] is_hit(was, c, x as int, y as int, algorithm) && (forall|j: int|
                    0 <= j < c ==> !#[trigger] is_hit(was, j, x as int, y as int, algorithm)) {
                let c = choose|c: int|
                    0 <= c < was.len() && #[trigger] is_hit(was, c, x as int, y as int, algorithm) && (forall|j: int|
                        0 <= j < c ==> !#[trigger] is_hit(was, j, x as int, y as int, algorithm));
                assert(!is_hit(was, c, x as int, y as int, algorithm));
            }
        }
    }
    None
}

pub open spec fn opt_seq(o: Option<Vec<i64>>) -> Option<Seq<i64>> {
    match o {
        Some(v) => Some(v@),
        None => None,
    }
}

/// The rectangle a drag snaps to: the highlighted zones' bounding box in
/// screen coordinates.
pub open spec fn target_rect(wa: WorkArea, zones: Seq<i64>) -> Rect {
    offset_rect(combined_rect(wa.spec_zones(), zones), wa.spec_rect().left as int, wa.spec_rect().top as int)
}

/// The target rectangle of the active work area can be computed, with its
/// width and height, in `i32`.
pub open spec fn target_fits(was: Seq<WorkArea>, active: Option<usize>, zones: Seq<i64>) -> bool {
    match active {
        Some(i) => i < was.len() ==> {
            let wa = was[i as int];
            let r = target_rect(wa, zones);
            &&& offset_fits(
                combined_rect(wa.spec_zones(), zones),
                wa.spec_rect().left as int,
                wa.spec_rect().top as int,
            )
            &&& i32::MIN <= r.right - r.left <= i32::MAX
            &&& i32::MIN <= r.bottom - r.top <= i32::MAX
        },
        None => true,
    }
}

/// A window being dragged.
#[derive(Debug)]
pub struct DragState {
    /// The window.
    pub hwnd: u64,
    /// The cursor position in screen coordinates.
    pub cursor: Point,
    /// The work area under the cursor.
    pub active_work_area: Option<usize>,
    /// The zones under the cursor, or spanned from the first ones.
    pub highlighted_zones: Vec<i64>,
    /// Zones are shown and snapped to.
    pub snapping_mode: bool,
    /// The zones a multi-zone span started from.
    pub initial_zones: Option<Vec<i64>>,
}

impl DragState {
    /// The zones a multi-zone span started from.
    pub open spec fn spec_initial(self) -> Option<Seq<i64>> {
        opt_seq(self.initial_zones)
    }

    pub fn new(hwnd: u64) -> (d: Self)
        ensures
            d.hwnd == hwnd,
            d.cursor == (Point { x: 0, y: 0 }),
            d.active_work_area is None,
            d.highlighted_zones@.len() == 0,
            !d.snapping_mode,
            d.spec_initial() is None,
    {
        DragState {
            hwnd,
            cursor: Point::new(0, 0),
            active_work_area: None,
            highlighted_zones: Vec::new(),
            snapping_mode: false,
            initial_zones: None,
        }
    }

    /// Shows zones and snaps to them from now on.
    pub fn enable_snapping(&mut self)
        ensures
            final(self).snapping_mode,
            final(self).hwnd == old(self).hwnd,
            final(self).cursor == old(self).cursor,
            final(self).active_work_area == old(self).active_work_area,
            final(self).highlighted_zones@ == old(self).highlighted_zones@,
            final(self).spec_initial() == old(self).spec_initial(),
    {
        self.snapping_mode = true;
    }

    /// Moves the cursor. While snapping, the first work area with a zone
    /// under the cursor becomes active and its zones are highlighted; with
    /// `select_many` they span from the zones the span started at.
    pub fn update(
        &mut self,
        x: i32,
        y: i32,
        work_areas: &[WorkArea],
        algorithm: OverlappingZonesAlgorithm,
        select_many: bool,
    )
        requires
            old(self).snapping_mode ==> search_fits(work_areas@, x as int, y as int, algorithm),
        ensures
            final(self).hwnd == old(self).hwnd,
            final(self).cursor == (Point { x, y }),
            final(self).snapping_mode == old(self).snapping_mode,
            ({
                let i = first_hit(work_areas@, x as int, y as int, algorithm);
                if !old(self).snapping_mode || i < 0 {
                    &&& final(self).highlighted_zones@.len() == 0
                    &&& final(self).active_work_area is None
                    &&& final(self).spec_initial() == old(self).spec_initial()
                } else {
                    let wa = work_areas@[i];
                    let z = zones_under(wa, x as int, y as int, algorithm);
                    &&& final(self).active_work_area == Some(i as usize)
                    &&& if select_many {
                        let init = match old(self).spec_initial() {
                            Some(s) => s,
                            None => z,
                        };
                        &&& final(self).spec_initial() == Some(init)
                        &&& final(self).highlighted_zones@ == combined_range(wa.spec_zones(), init, z)
                    } else {
                        &&& final(self).spec_initial() is None
                        &&& final(self).highlighted_zones@ == z
                    }
                }
            }),
    {
        self.cursor = Point::new(x, y);
        self.highlighted_zones = Vec::new();
        self.active_work_area = None;
        if !self.snapping_mode {
            return ;
        }
        match find_hit(work_areas, x, y, algorithm) {
            Some((i, zones)) => {
                self.active_work_area = Some(i);
                let wa = &work_areas[i];
                if select_many {
                    if self.initial_zones.is_none() {
                        self.initial_zones = Some(copy_zones(&zones));
                    }
                    match &self.initial_zones {
                        Some(initial) => {
                            self.highlighted_zones = wa.layout().get_combined_zone_range(initial, &zones);
                        },
                        None => {},
                    }
                } else {
                    self.initial_zones = None;
                    self.highlighted_zones = zones;
                }
            },
            None => {},
        }
    }

    /// The window and the rectangle it snaps to: none unless snapping with
    /// zones highlighted on an existing work area and the rectangle has an
    /// area.
    pub fn snap_target(&self, work_areas: &[WorkArea]) -> (r: Option<(u64, Rect)>)
        requires
            self.snapping_mode && self.highlighted_zones@.len() > 0 ==> target_fits(
                work_areas@,
                self.active_work_area,
                self.highlighted_zones@,
            ),
        ensures
            r == (if !self.snapping_mode || self.highlighted_zones@.len() == 0 {
                None
            } else {
                match self.active_work_area {
                    None => None,
                    Some(i) => if i >= work_areas@.len() {
                        None
                    } else {
                        let rect = target_rect(work_areas@[i as int], self.highlighted_zones@);
                        if rect.right - rect.left <= 0 || rect.bottom - rect.top <= 0 {
                            None
                        } else {
                            Some((self.hwnd, rect))
                        }
                    },
                }
            }),
    {
        if !self.snapping_mode || self.highlighted_zones.len() == 0 {
            return None;
        }
        let idx = match self.active_work_area {
            Some(i) => i,
            None => {
                return None;
            },
        };
        if idx >= work_areas.len() {
            return None;
        }
        let wa = &work_areas[idx];
        let rect = wa.get_zone_rect(&self.highlighted_zones);
        if rect.width() <= 0 || rect.height() <= 0 {
            return None;
        }
        Some((self.hwnd, rect))
    }

    /// The active work area and its highlighted zones, while snapping with
    /// zones highlighted.
    pub fn overlay_info(&self) -> (r: Option<(usize, &Vec<i64>)>)
        ensures
            match r {
                Some((i, z)) => {
                    &&& self.snapping_mode
                    &&& self.highlighted_zones@.len() > 0
                    &&& self.active_work_area == Some(i)
                    &&& z@ == self.highlighted_zones@
                },
                None => !self.snapping_mode || self.highlighted_zones@.len() == 0 || self.active_work_area is None,
            },
    {
        if !self.snapping_mode || self.highlighted_zones.len() == 0 {
            return None;
        }
        match self.active_work_area {
            Some(i) => Some((i, &self.highlighted_zones)),
            None => None,
        }
    }
}

} // verus!
