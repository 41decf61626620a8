//! The engine's state and its decisions: the work areas, the drag in
//! progress, keyboard snapping and the application history. Monitors, key
//! states and window positions are read by the caller and handed in.

use vstd::prelude::*;
use crate::fancyzones::data::stores::{zones_of_window, CustomLayoutsStore};
use crate::fancyzones::engine::app_history::{history_lookup, history_record, AppZoneHistory, EntryView};
use crate::fancyzones::engine::drag::search_fits;
use crate::fancyzones::engine::drag_handler::{target_info_of, DragState};
use crate::fancyzones::engine::keyboard::{KeyboardSnapHandler, SnapResult};
use crate::fancyzones::engine::work_area::{offset_fits, offset_rect, WorkArea};
use crate::fancyzones::layout::lookup::combined_rect;
use crate::fancyzones::rect::Rect;
use crate::fancyzones::settings::Settings;
use crate::text::lowercase_of;

verus! {

/// What the engine is started with.
pub struct LoadedData {
    pub settings: Settings,
    pub custom_layouts: CustomLayoutsStore,
}

impl Default for LoadedData {
    fn default() -> (d: Self) {
        LoadedData { settings: Settings::default(), custom_layouts: CustomLayoutsStore::new() }
    }
}

/// A finished snap: where the window went, and what to record for it.
pub struct SnapInfo {
    pub rect: Rect,
    pub device_key: String,
    pub layout_id: String,
    pub zones: Vec<i64>,
}

/// The work area is the first with zones for the window.
pub open spec fn is_assigned(was: Seq<WorkArea>, i: int, window: u64) -> bool {
    zones_of_window(was[i].spec_windows(), window).len() > 0
}

/// The first work area with zones for the window, or -1.
pub open spec fn first_assigned(was: Seq<WorkArea>, window: u64) -> int {
    if exists|i: int|
        0 <= i < was.len() && #[trigger] is_assigned(was, i, window) && (forall|j: int|
            0 <= j < i ==> !#[trigger] is_assigned(was, j, window)) {
        choose|i: int|
            0 <= i < was.len() && #[trigger] is_assigned(was, i, window) && (forall|j: int|
                0 <= j < i ==> !#[trigger] is_assigned(was, j, window))
    } else {
        -1
    }
}

/// A work area with only the window's assignment changed.
pub open spec fn assigned_in(before: WorkArea, after: WorkArea, window: u64, zones: Seq<i64>) -> bool {
    &&& after.spec_windows() == before.spec_windows().insert(window, zones)
    &&& after.spec_zones() == before.spec_zones()
    &&& after.spec_rect() == before.spec_rect()
    &&& after.spec_data() == before.spec_data()
    &&& after.spec_device_key() == before.spec_device_key()
}

/// The work areas with the `i`-th one's window assignment changed.
pub open spec fn assigned_at(
    before: Seq<WorkArea>,
    after: Seq<WorkArea>,
    i: int,
    window: u64,
    zones: Seq<i64>,
) -> bool {
    &&& after.len() == before.len()
    &&& 0 <= i < before.len()
    &&& assigned_in(before[i], after[i], window, zones)
    &&& forall|j: int| 0 <= j < before.len() && j != i ==> #[trigger] after[j] == before[j]
}

/// The screen rectangle of zones of a work area.
pub open spec fn zones_screen_rect(wa: WorkArea, zones: Seq<i64>) -> Rect {
    offset_rect(combined_rect(wa.spec_zones(), zones), wa.spec_rect().left as int, wa.spec_rect().top as int)
}

/// The screen rectangle of zones of a work area can be computed in `i32`.
pub open spec fn zones_screen_fits(wa: WorkArea, zones: Seq<i64>) -> bool {
    offset_fits(combined_rect(wa.spec_zones(), zones), wa.spec_rect().left as int, wa.spec_rect().top as int)
}

/// The engine's state.
pub struct FancyZonesEngine {
    work_areas: Vec<WorkArea>,
    loaded_data: LoadedData,
    active_drag: Option<DragState>,
    keyboard_handler: KeyboardSnapHandler,
    app_history: AppZoneHistory,
}

impl FancyZonesEngine {
    pub closed spec fn spec_work_areas(self) -> Seq<WorkArea> {
        self.work_areas@
    }

    pub closed spec fn spec_settings(self) -> Settings {
        self.loaded_data.settings
    }

    pub closed spec fn spec_drag(self) -> Option<DragState> {
        self.active_drag
    }

    pub closed spec fn spec_history(self) -> Seq<(Seq<char>, Seq<EntryView>)> {
        self.app_history@
    }

    pub closed spec fn spec_custom_layouts(self) -> CustomLayoutsStore {
        self.loaded_data.custom_layouts
    }

    pub closed spec fn spec_keyboard(self) -> KeyboardSnapHandler {
        self.keyboard_handler
    }

    /// An engine over loaded data, with no work areas, no drag and an empty
    /// history.
    pub fn new_with_data(data: LoadedData) -> (e: Self)
        ensures
            e.spec_work_areas().len() == 0,
            e.spec_drag() is None,
            e.spec_history().len() == 0,
            e.spec_settings() == data.settings,
            !e.spec_keyboard().spec_extend().active,
    {
        FancyZonesEngine {
            work_areas: Vec::new(),
            loaded_data: data,
            active_drag: None,
            keyboard_handler: KeyboardSnapHandler::new(),
            app_history: AppZoneHistory::new(),
        }
    }

    /// Replaces the work areas.
    pub fn set_work_areas(&mut self, work_areas: Vec<WorkArea>)
        ensures
            final(self).spec_work_areas() == work_areas@,
            final(self).spec_settings() == old(self).spec_settings(),
            final(self).spec_drag() == old(self).spec_drag(),
            final(self).spec_history() == old(self).spec_history(),
    {
        self.work_areas = work_areas;
    }

    pub fn work_areas(&self) -> (w: &[WorkArea])
        ensures
            w@ == self.spec_work_areas(),
    {
        self.work_areas.as_slice()
    }

    pub fn settings(&self) -> (s: &Settings)
        ensures
            *s == self.spec_settings(),
    {
        &self.loaded_data.settings
    }

    /// The custom layouts the engine was started with.
    pub fn custom_layouts(&self) -> (c: &CustomLayoutsStore)
        ensures
            *c == self.spec_custom_layouts(),
    {
        &self.loaded_data.custom_layouts
    }

    pub fn is_dragging(&self) -> (b: bool)
        ensures
            b == self.spec_drag() is Some,
    {
        self.active_drag.is_some()
    }

    /// The active work area and the highlighted zones of the drag.
    pub fn active_zone_info(&self) -> (r: Option<(usize, &Vec<i64>)>)
        ensures
            match self.spec_drag() {
                None => r is None,
                Some(d) => match d.active_work_area {
                    None => r is None,
                    Some(i) => r matches Some((j, z)) && j == i && z@ == d.highlighted_zones@,
                },
            },
    {
        match &self.active_drag {
            Some(d) => match d.active_work_area {
                Some(i) => Some((i, &d.highlighted_zones)),
                None => None,
            },
            None => None,
        }
    }

    /// Starts tracking a drag of the window, snapping on.
    pub fn on_move_size_start(&mut self, hwnd: u64)
        ensures
            final(self).spec_drag() matches Some(d) && d.hwnd == hwnd && d.snapping_mode && d.active_work_area is None
                && d.highlighted_zones@.len() == 0 && d.initial_zones is None,
            final(self).spec_work_areas() == old(self).spec_work_areas(),
            final(self).spec_settings() == old(self).spec_settings(),
            final(self).spec_history() == old(self).spec_history(),
    {
        let mut drag = DragState::new(hwnd);
        drag.enable_snapping();
        self.active_drag = Some(drag);
    }

    /// Moves the cursor of the drag in progress, with the shift and control
    /// key states read by the caller. Zones are tracked while shift is held,
    /// or while it is not when the settings do not ask for shift; control
    /// spans several zones. True when zones are tracked.
    pub fn on_mouse_move(&mut self, x: i32, y: i32, shift_held: bool, ctrl_held: bool) -> (shown: bool)
        requires
            old(self).spec_drag() is Some && (if old(self).spec_settings().shift_drag {
                shift_held
            } else {
                !shift_held
            }) ==> search_fits(
                old(self).spec_work_areas(),
                x as int,
                y as int,
                old(self).spec_settings().overlapping_zones_algorithm,
            ),
        ensures
            shown == (old(self).spec_drag() is Some && (if old(self).spec_settings().shift_drag {
                shift_held
            } else {
                !shift_held
            })),
            !shown ==> final(self).spec_drag() == old(self).spec_drag(),
            final(self).spec_drag() is Some == old(self).spec_drag() is Some,
            final(self).spec_work_areas() == old(self).spec_work_areas(),
            final(self).spec_settings() == old(self).spec_settings(),
            final(self).spec_history() == old(self).spec_history(),
    {
        let should_snap = if self.loaded_data.settings.shift_drag {
            shift_held
        } else {
            !shift_held
        };
        if !should_snap {
            return false;
        }
        match self.active_drag.take() {
            Some(mut drag) => {
                drag.update(
                    x,
                    y,
                    self.work_areas.as_slice(),
                    self.loaded_data.settings.overlapping_zones_algorithm,
                    ctrl_held,
                );
                self.active_drag = Some(drag);
                true
            },
            None => false,
        }
    }

    /// Assigns a window to zones of the `i`-th work area.
    fn assign_at(&mut self, i: usize, window: u64, zones: Vec<i64>)
        requires
            i < old(self).spec_work_areas().len(),
        ensures
            assigned_at(old(self).spec_work_areas(), final(self).spec_work_areas(), i as int, window, zones@),
            final(self).spec_settings() == old(self).spec_settings(),
            final(self).spec_drag() == old(self).spec_drag(),
            final(self).spec_history() == old(self).spec_history(),
            final(self).spec_keyboard() == old(self).spec_keyboard(),
    {
        let ghost before = self.work_areas@;
        let mut wa = self.work_areas.remove(i);
        wa.assign_window(window, zones);
        self.work_areas.insert(i, wa);
        proof {
            assert forall|j: int| 0 <= j < before.len() && j != i implies #[trigger] self.work_areas@[j] == before[j] by {
                if j < i {
                    assert(self.work_areas@[j] == before[j]);
                } else {
                    assert(self.work_areas@[j] == before[j]);
                }
            }
        }
    }

    /// Ends the drag: the window goes to the first highlighted zone of the
    /// active work area and is recorded there; none if no zone was
    /// highlighted.
    pub fn on_move_size_end(&mut self) -> (r: Option<SnapInfo>)
        requires
            match old(self).spec_drag() {
                Some(d) => match target_info_of(d, old(self).spec_work_areas()) {
                    Some((i, z)) => zones_screen_fits(old(self).spec_work_areas()[i as int], seq![z as i64]),
                    None => true,
                },
                None => true,
            },
        ensures
            final(self).spec_drag() is None,
            final(self).spec_settings() == old(self).spec_settings(),
            final(self).spec_history() == old(self).spec_history(),
            match old(self).spec_drag() {
                None => r is None && final(self).spec_work_areas() == old(self).spec_work_areas(),
                Some(d) => match target_info_of(d, old(self).spec_work_areas()) {
                    None => r is None && final(self).spec_work_areas() == old(self).spec_work_areas(),
                    Some((i, z)) => {
                        let wa = old(self).spec_work_areas()[i as int];
                        let zones = seq![z as i64];
                        &&& assigned_at(old(self).spec_work_areas(), final(self).spec_work_areas(), i as int, d.hwnd, zones)
                        &&& r matches Some(info) && info.zones@ == zones && info.rect == zones_screen_rect(wa, zones)
                            && info.device_key@ == wa.spec_device_key() && info.layout_id@ == wa.spec_data().uuid@
                    },
                },
            },
    {
        let drag = match self.active_drag.take() {
            Some(d) => d,
            None => {
                return None;
            },
        };
        let (wa_idx, zone_idx) = match drag.snap_target_info(self.work_areas.as_slice()) {
            Some(t) => t,
            None => {
                return None;
            },
        };
        let mut zones: Vec<i64> = Vec::new();
        zones.push(zone_idx as i64);
        let mut assigned: Vec<i64> = Vec::new();
        assigned.push(zone_idx as i64);
        proof {
            assert(zones@ =~= seq![zone_idx as i64]);
            assert(assigned@ =~= seq![zone_idx as i64]);
        }
        let rect = self.work_areas[wa_idx].get_zone_rect(&zones);
        self.assign_at(wa_idx, drag.hwnd, assigned);
        let device_key = String::from_str(self.work_areas[wa_idx].device_key());
        let layout_id = String::from_str(self.work_areas[wa_idx].layout_id());
        Some(SnapInfo { rect, device_key, layout_id, zones })
    }

    /// Finishes a keyboard snap: the window is recorded in the zones of the
    /// snap's work area; none when that work area does not exist.
    pub fn apply_snap(&mut self, hwnd: u64, result: SnapResult) -> (r: Option<SnapInfo>)
        ensures
            final(self).spec_drag() == old(self).spec_drag(),
            final(self).spec_settings() == old(self).spec_settings(),
            final(self).spec_history() == old(self).spec_history(),
            if result.work_area_idx < old(self).spec_work_areas().len() {
                let i = result.work_area_idx as int;
                let wa = old(self).spec_work_areas()[i];
                &&& assigned_at(old(self).spec_work_areas(), final(self).spec_work_areas(), i, hwnd, result.zones@)
                &&& r matches Some(info) && info.zones@ == result.zones@ && info.rect == result.rect
                    && info.device_key@ == wa.spec_device_key() && info.layout_id@ == wa.spec_data().uuid@
            } else {
                r is None && final(self).spec_work_areas() == old(self).spec_work_areas()
            },
    {
        let i = result.work_area_idx;
        if i >= self.work_areas.len() {
            return None;
        }
        let mut copy: Vec<i64> = Vec::new();
        let mut k: usize = 0;
        while k < result.zones.len()
            invariant
                k <= result.zones@.len(),
                copy@ == result.zones@.take(k as int),
            decreases result.zones@.len() - k,
        {
            copy.push(result.zones[k]);
            k = k + 1;
            proof {
                assert(copy@ =~= result.zones@.take(k as int));
            }
        }
        proof {
            assert(result.zones@.take(k as int) =~= result.zones@);
        }
        self.assign_at(i, hwnd, copy);
        let device_key = String::from_str(self.work_areas[i].device_key());
        let layout_id = String::from_str(self.work_areas[i].layout_id());
        Some(SnapInfo { rect: result.rect, device_key, layout_id, zones: result.zones })
    }

    /// The work area a window is snapped in and its zones: the first work
    /// area that has zones for it, else the first work area with none.
    pub fn find_window_work_area(&self, window: u64) -> (r: Option<(usize, Vec<i64>)>)
        ensures
            ({
                let was = self.spec_work_areas();
                let i = first_assigned(was, window);
                if i >= 0 {
                    r matches Some((j, z)) && j == i && z@ == zones_of_window(was[i].spec_windows(), window)
                } else if was.len() > 0 {
                    r matches Some((j, z)) && j == 0 && z@.len() == 0
                } else {
                    r is None
                }
            }),
    {
        let ghost was = self.work_areas@;
        let mut i: usize = 0;
        while i < self.work_areas.len()
            invariant
                i <= was.len(),
                was == self.work_areas@,
                forall|j: int| 0 <= j < i ==> !#[trigger] is_assigned(was, j, window),
            decreases was.len() - i,
        {
            let zones = self.work_areas[i].get_window_zones(window);
            if zones.len() > 0 {
                proof {
                    assert(is_assigned(was, i as int, window));
                    let c = first_assigned(was, window);
                    assert(c == i) by {
                        assert(0 <= c < was.len() && is_assigned(was, c, window));
                        if c < i {
                            assert(!is_assigned(was, c, window));
                        } else if c > i {
                            assert(!is_assigned(was, i as int, window));
                        }
                    }
                }
                return Some((i, zones));
            }
            proof {
                assert(!is_assigned(was, i as int, window));
            }
            i = i + 1;
        }
        proof {
            assert(first_assigned(was, window) == -1) by {
                if exists|c: int|
                    0 <= c < was.len() && #[trigger] is_assigned(was, c, window) && (forall|j: int|
                        0 <= j < c ==> !#[trigger] is_assigned(was, j, window)) {
                    let c = choose|c: int|
                        0 <= c < was.len() && #[trigger] is_assigned(was, c, window) && (forall|j: int|
                            0 <= j < c ==> !#[trigger] is_assigned(was, j, window));
                    assert(!is_assigned(was, c, window));
                }
            }
        }
        if self.work_areas.len() > 0 {
            Some((0, Vec::new()))
        } else {
            None
        }
    }

    /// Records an application's zones in the history.
    pub fn record_app_history(&mut self, app_path: &str, device_key: &str, layout_id: &str, zones: Vec<i64>)
        ensures
            final(self).spec_history() == history_record(
                old(self).spec_history(),
                lowercase_of(app_path@),
                device_key@,
                layout_id@,
                zones@,
            ),
            final(self).spec_work_areas() == old(self).spec_work_areas(),
            final(self).spec_drag() == old(self).spec_drag(),
            final(self).spec_settings() == old(self).spec_settings(),
    {
        self.app_history.record(app_path, device_key, layout_id, zones);
    }

    /// The zones last recorded for an application on a device.
    pub fn lookup_app_history(&self, app_path: &str, device_key: &str) -> (r: Option<Vec<i64>>)
        ensures
            match r {
                Some(v) => history_lookup(self.spec_history(), lowercase_of(app_path@), device_key@) == Some(v@),
                None => history_lookup(self.spec_history(), lowercase_of(app_path@), device_key@) is None,
            },
    {
        self.app_history.lookup(app_path, device_key)
    }

    /// The application history.
    pub fn app_history(&self) -> (h: &AppZoneHistory)
        ensures
            h@ == self.spec_history(),
    {
        &self.app_history
    }

    /// Replaces the application history.
    pub fn set_app_history(&mut self, history: AppZoneHistory)
        ensures
            final(self).spec_history() == history@,
            final(self).spec_work_areas() == old(self).spec_work_areas(),
            final(self).spec_drag() == old(self).spec_drag(),
            final(self).spec_settings() == old(self).spec_settings(),
    {
        self.app_history = history;
    }

    /// The application zone history, to change it in place; nothing else
    /// of the engine changes through it.
    pub fn app_history_mut(&mut self) -> (h: &mut AppZoneHistory)
        ensures
            h@ == old(self).spec_history(),
            final(self).spec_history() == final(h)@,
            final(self).spec_work_areas() == old(self).spec_work_areas(),
            final(self).spec_settings() == old(self).spec_settings(),
            final(self).spec_drag() == old(self).spec_drag(),
            final(self).spec_keyboard() == old(self).spec_keyboard(),
            final(self).spec_custom_layouts() == old(self).spec_custom_layouts(),
    {
        &mut self.app_history
    }

    /// The keyboard snapping state, to drive a hotkey's snap; nothing else
    /// of the engine changes through it.
    pub fn keyboard_handler_mut(&mut self) -> (k: &mut KeyboardSnapHandler)
        ensures
            *k == old(self).spec_keyboard(),
            final(self).spec_keyboard() == *final(k),
            final(self).spec_work_areas() == old(self).spec_work_areas(),
            final(self).spec_settings() == old(self).spec_settings(),
            final(self).spec_drag() == old(self).spec_drag(),
            final(self).spec_history() == old(self).spec_history(),
            final(self).spec_custom_layouts() == old(self).spec_custom_layouts(),
    {
        &mut self.keyboard_handler
    }

    /// Ends the session: no drag and no work areas.
    pub fn shutdown(&mut self)
        ensures
            final(self).spec_drag() is None,
            final(self).spec_work_areas().len() == 0,
            final(self).spec_settings() == old(self).spec_settings(),
            final(self).spec_history() == old(self).spec_history(),
    {
        self.active_drag = None;
        self.work_areas = Vec::new();
    }
}

} // verus!
