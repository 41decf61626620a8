//! Snapping a window with the keyboard: to the next zone by index, to the
//! zone a directional search picked, or extending the selected zones.

use vstd::prelude::*;
use crate::fancyzones::data::stores::copy_zones;
use crate::fancyzones::engine::work_area::{offset_fits, offset_rect, WorkArea};
use crate::fancyzones::keyboard_snap::{snap_by_index, snap_index, SnapDirection};
use crate::fancyzones::layout::lookup::combined_rect;
use crate::fancyzones::layout::zones::{zone_pair, zone_pairs};
use crate::fancyzones::rect::Rect;

verus! {

/// Where a keyboard snap puts the window.
#[derive(Debug, Clone)]
pub struct SnapResult {
    /// The zones the window snaps to.
    pub zones: Vec<i64>,
    /// The screen rectangle the window snaps to.
    pub rect: Rect,
    /// The work area.
    pub work_area_idx: usize,
}

/// An extend session: the zones it started from and its work area.
#[derive(Debug, Clone)]
pub struct ExtendState {
    pub initial_zones: Vec<i64>,
    pub work_area_idx: usize,
    pub active: bool,
}

impl Default for ExtendState {
    fn default() -> (s: Self)
        ensures
            s.initial_zones@.len() == 0,
            s.work_area_idx == 0,
            !s.active,
    {
        ExtendState { initial_zones: Vec::new(), work_area_idx: 0, active: false }
    }
}

/// The screen rectangle of one zone of a work area.
pub open spec fn zone_screen_rect(wa: WorkArea, id: i64) -> Rect {
    offset_rect(combined_rect(wa.spec_zones(), seq![id]), wa.spec_rect().left as int, wa.spec_rect().top as int)
}

/// The screen rectangle of one zone can be computed in `i32`.
pub open spec fn zone_screen_fits(wa: WorkArea, id: i64) -> bool {
    offset_fits(combined_rect(wa.spec_zones(), seq![id]), wa.spec_rect().left as int, wa.spec_rect().top as int)
}

/// Keyboard snapping, with the extend session in progress.
#[derive(Debug)]
pub struct KeyboardSnapHandler {
    extend: ExtendState,
}

impl Default for KeyboardSnapHandler {
    fn default() -> (h: Self)
        ensures
            !h.spec_extend().active,
            h.spec_extend().initial_zones@.len() == 0,
            h.spec_extend().work_area_idx == 0,
    {
        KeyboardSnapHandler { extend: ExtendState::default() }
    }
}

/// The snap to one zone of a work area.
fn zone_result(work_area: &WorkArea, id: i64) -> (r: SnapResult)
    requires
        zone_screen_fits(*work_area, id),
    ensures
        r.zones@ == seq![id],
        r.rect == zone_screen_rect(*work_area, id),
        r.work_area_idx == 0,
{
    let mut zones: Vec<i64> = Vec::new();
    zones.push(id);
    proof {
        assert(zones@ =~= seq![id]);
    }
    let rect = work_area.get_zone_rect(&zones);
    SnapResult { zones, rect, work_area_idx: 0 }
}

impl KeyboardSnapHandler {
    /// The extend session.
    pub closed spec fn spec_extend(self) -> ExtendState {
        self.extend
    }

    pub fn new() -> (h: Self)
        ensures
            !h.spec_extend().active,
            h.spec_extend().initial_zones@.len() == 0,
            h.spec_extend().work_area_idx == 0,
    {
        Self::default()
    }

    /// Snaps to the previous (left) or next (right) zone by index, wrapping
    /// around.
    pub fn snap_by_index(&self, current_zone: Option<i64>, work_area: &WorkArea, direction: SnapDirection) -> (r:
        Option<SnapResult>)
        requires
            work_area.spec_zones().len() <= i64::MAX,
            match snap_index(current_zone, work_area.spec_zones().len() as int, direction) {
                Some(k) => zone_screen_fits(*work_area, k),
                None => true,
            },
        ensures
            match snap_index(current_zone, work_area.spec_zones().len() as int, direction) {
                Some(k) => r matches Some(s) && s.zones@ == seq![k] && s.rect == zone_screen_rect(*work_area, k)
                    && s.work_area_idx == 0,
                None => r is None,
            },
    {
        let zone_count = work_area.zone_count();
        let next = match snap_by_index(current_zone, zone_count, direction) {
            Some(n) => n,
            None => {
                return None;
            },
        };
        Some(zone_result(work_area, next))
    }

    /// The snap to the zone at a position of the work area's zone list (as
    /// the directional search gives it); none when there is no position or
    /// it names no zone.
    pub fn position_result(&self, work_area: &WorkArea, index: Option<usize>) -> (r: Option<SnapResult>)
        requires
            match index {
                Some(i) => i < work_area.spec_zones().len() ==> zone_screen_fits(
                    *work_area,
                    work_area.spec_zones()[i as int].1,
                ),
                None => true,
            },
        ensures
            match index {
                Some(i) => if i < work_area.spec_zones().len() {
                    let id = work_area.spec_zones()[i as int].1;
                    r matches Some(s) && s.zones@ == seq![id] && s.rect == zone_screen_rect(*work_area, id)
                        && s.work_area_idx == 0
                } else {
                    r is None
                },
                None => r is None,
            },
    {
        let i = match index {
            Some(i) => i,
            None => {
                return None;
            },
        };
        let zones = work_area.layout().zones();
        if i >= zones.len() {
            return None;
        }
        proof {
            assert(zone_pairs(zones@)[i as int] == zone_pair(zones@[i as int]));
        }
        let id = zones[i].id();
        Some(zone_result(work_area, id))
    }

    /// Starts an extend session from the current zones unless one is active
    /// on the same work area.
    pub fn begin_extend(&mut self, current_zones: &Vec<i64>, work_area_idx: usize)
        ensures
            final(self).spec_extend().active,
            final(self).spec_extend().work_area_idx == work_area_idx,
            if old(self).spec_extend().active && old(self).spec_extend().work_area_idx == work_area_idx {
                final(self).spec_extend().initial_zones@ == old(self).spec_extend().initial_zones@
            } else {
                final(self).spec_extend().initial_zones@ == current_zones@
            },
    {
        if !self.extend.active || self.extend.work_area_idx != work_area_idx {
            self.extend.initial_zones = copy_zones(current_zones);
            self.extend.work_area_idx = work_area_idx;
            self.extend.active = true;
        }
    }

    /// The zones the extend session stands at.
    pub fn extend_initial_zones(&self) -> (z: &Vec<i64>)
        ensures
            z@ == self.spec_extend().initial_zones@,
    {
        &self.extend.initial_zones
    }

    /// Ends an extend step with the zones it reached: none if there are
    /// none; else the session moves on to them and the window snaps to their
    /// bounding rectangle.
    pub fn finish_extend(&mut self, work_area: &WorkArea, work_area_idx: usize, extended: Vec<i64>) -> (r: Option<
        SnapResult,
    >)
        requires
            extended@.len() > 0 ==> offset_fits(
                combined_rect(work_area.spec_zones(), extended@),
                work_area.spec_rect().left as int,
                work_area.spec_rect().top as int,
            ),
        ensures
            final(self).spec_extend().active == old(self).spec_extend().active,
            final(self).spec_extend().work_area_idx == old(self).spec_extend().work_area_idx,
            if extended@.len() == 0 {
                &&& r is None
                &&& final(self).spec_extend().initial_zones@ == old(self).spec_extend().initial_zones@
            } else {
                &&& final(self).spec_extend().initial_zones@ == extended@
                &&& r matches Some(s) && s.zones@ == extended@ && s.work_area_idx == work_area_idx && s.rect
                    == offset_rect(
                    combined_rect(work_area.spec_zones(), extended@),
                    work_area.spec_rect().left as int,
                    work_area.spec_rect().top as int,
                )
            },
    {
        if extended.len() == 0 {
            return None;
        }
        self.extend.initial_zones = copy_zones(&extended);
        let rect = work_area.get_zone_rect(&extended);
        Some(SnapResult { zones: extended, rect, work_area_idx })
    }

    /// Leaves extend mode.
    pub fn reset_extend(&mut self)
        ensures
            !final(self).spec_extend().active,
            final(self).spec_extend().initial_zones@.len() == 0,
            final(self).spec_extend().work_area_idx == 0,
    {
        self.extend = ExtendState::default();
    }

    pub fn is_extending(&self) -> (b: bool)
        ensures
            b == self.spec_extend().active,
    {
        self.extend.active
    }
}

/// The window rectangle relative to the work area's top left corner.
pub fn window_in_work_area(window_rect: Rect, work_area: &WorkArea) -> (r: Rect)
    requires
        offset_fits(window_rect, -work_area.spec_rect().left, -work_area.spec_rect().top),
    ensures
        r == offset_rect(window_rect, -work_area.spec_rect().left, -work_area.spec_rect().top),
{
    let wa = work_area.work_area_rect();
    Rect::new(window_rect.left - wa.left, window_rect.top - wa.top, window_rect.right - wa.left, window_rect.bottom - wa.top)
}

/// The arrow direction of a virtual-key code.
pub fn direction_from_vk(vk: u32) -> (d: Option<SnapDirection>)
    ensures
        d == (if vk == 0x25 {
            Some(SnapDirection::Left)
        } else if vk == 0x27 {
            Some(SnapDirection::Right)
        } else if vk == 0x26 {
            Some(SnapDirection::Up)
        } else if vk == 0x28 {
            Some(SnapDirection::Down)
        } else {
            None
        }),
{
    match vk {
        0x25 => Some(SnapDirection::Left),
        0x27 => Some(SnapDirection::Right),
        0x26 => Some(SnapDirection::Up),
        0x28 => Some(SnapDirection::Down),
        _ => None,
    }
}

} // verus!
