//! Zone settings.

use vstd::prelude::*;
use crate::fancyzones::data::loading::i32_or;
use crate::json::{bool_or, str_or};
use crate::json::{as_bool, as_i64, as_str, get_bool, get_i64, get_str, json_get, JsonValue};
use crate::text::{lines, lines_of, to_uppercase, trim_str, trimmed, uppercase_of};

verus! {

/// How a point inside several overlapping zones picks its zone. The variant
/// order gives the codes 0..=3.
#[derive(Debug, Clone, Copy, PartialEq, Eq, Structural)]
pub enum OverlappingZonesAlgorithm {
    Smallest,
    Largest,
    Positional,
    ClosestCenter,
}

impl Default for OverlappingZonesAlgorithm {
    fn default() -> (a: Self)
        ensures
            a == OverlappingZonesAlgorithm::Smallest,
    {
        OverlappingZonesAlgorithm::Smallest
    }
}

/// The zone settings.
#[derive(Debug, Clone)]
pub struct Settings {
    pub shift_drag: bool,
    pub mouse_switch: bool,
    pub mouse_middle_click_spanning_multiple_zones: bool,
    pub display_or_work_area_change_move_windows: bool,
    pub zone_set_change_flash_zones: bool,
    pub zone_set_change_move_windows: bool,
    pub override_snap_hotkeys: bool,
    pub move_window_across_monitors: bool,
    pub move_windows_based_on_position: bool,
    pub app_last_zone_move_windows: bool,
    pub open_window_on_active_monitor: bool,
    pub restore_size: bool,
    pub use_cursorpos_editor_startupscreen: bool,
    pub show_zones_on_all_monitors: bool,
    pub span_zones_across_monitors: bool,
    pub make_dragged_window_transparent: bool,
    pub window_switching: bool,
    pub quick_layout_switch: bool,
    pub flash_zones_on_quick_switch: bool,
    pub system_theme: bool,
    pub show_zone_number: bool,
    pub allow_snap_child_windows: bool,
    pub disable_round_corners: bool,
    pub zone_color: String,
    pub zone_border_color: String,
    pub zone_highlight_color: String,
    pub zone_number_color: String,
    pub zone_highlight_opacity: i32,
    pub overlapping_zones_algorithm: OverlappingZonesAlgorithm,
    pub excluded_apps: String,
    pub excluded_apps_array: Vec<String>,
}

/// The default settings.
pub open spec fn is_default_settings(s: Settings) -> bool {
    &&& s.shift_drag
    &&& !s.mouse_switch
    &&& !s.mouse_middle_click_spanning_multiple_zones
    &&& s.display_or_work_area_change_move_windows
    &&& !s.zone_set_change_flash_zones
    &&& !s.zone_set_change_move_windows
    &&& !s.override_snap_hotkeys
    &&& !s.move_window_across_monitors
    &&& !s.move_windows_based_on_position
    &&& !s.app_last_zone_move_windows
    &&& !s.open_window_on_active_monitor
    &&& !s.restore_size
    &&& s.use_cursorpos_editor_startupscreen
    &&& !s.show_zones_on_all_monitors
    &&& !s.span_zones_across_monitors
    &&& s.make_dragged_window_transparent
    &&& s.window_switching
    &&& s.quick_layout_switch
    &&& s.flash_zones_on_quick_switch
    &&& s.system_theme
    &&& s.show_zone_number
    &&& !s.allow_snap_child_windows
    &&& !s.disable_round_corners
    &&& s.zone_color@ == "#AACDFF"@
    &&& s.zone_border_color@ == "#FFFFFF"@
    &&& s.zone_highlight_color@ == "#008CFF"@
    &&& s.zone_number_color@ == "#000000"@
    &&& s.zone_highlight_opacity == 50
    &&& s.overlapping_zones_algorithm == OverlappingZonesAlgorithm::Smallest
    &&& s.excluded_apps@.len() == 0
    &&& s.excluded_apps_array@.len() == 0
}

impl Default for Settings {
    fn default() -> (s: Self)
        ensures
            is_default_settings(s),
    {
        Settings {
            shift_drag: true,
            mouse_switch: false,
            mouse_middle_click_spanning_multiple_zones: false,
            display_or_work_area_change_move_windows: true,
            zone_set_change_flash_zones: false,
            zone_set_change_move_windows: false,
            override_snap_hotkeys: false,
            move_window_across_monitors: false,
            move_windows_based_on_position: false,
            app_last_zone_move_windows: false,
            open_window_on_active_monitor: false,
            restore_size: false,
            use_cursorpos_editor_startupscreen: true,
            show_zones_on_all_monitors: false,
            span_zones_across_monitors: false,
            make_dragged_window_transparent: true,
            window_switching: true,
            quick_layout_switch: true,
            flash_zones_on_quick_switch: true,
            system_theme: true,
            show_zone_number: true,
            allow_snap_child_windows: false,
            disable_round_corners: false,
            zone_color: String::from_str("#AACDFF"),
            zone_border_color: String::from_str("#FFFFFF"),
            zone_highlight_color: String::from_str("#008CFF"),
            zone_number_color: String::from_str("#000000"),
            zone_highlight_opacity: 50,
            overlapping_zones_algorithm: OverlappingZonesAlgorithm::Smallest,
            excluded_apps: String::new(),
            excluded_apps_array: Vec::new(),
        }
    }
}

} // verus!

verus! {

/// The entries of an excluded-apps text: its lines trimmed and upper-cased,
/// empty ones dropped.
pub open spec fn excluded_of(lines: Seq<Seq<char>>) -> Seq<Seq<char>>
    decreases lines.len(),
{
    if lines.len() == 0 {
        Seq::empty()
    } else {
        let prev = excluded_of(lines.drop_last());
        let u = uppercase_of(trimmed(lines.last()));
        if u.len() > 0 {
            prev.push(u)
        } else {
            prev
        }
    }
}

pub open spec fn excluded_list(s: Seq<char>) -> Seq<Seq<char>> {
    excluded_of(lines_of(s))
}

/// The settings a document gives, each missing member taking its default.
pub open spec fn settings_from(json: JsonValue, s: Settings) -> bool {
    &&& s.shift_drag == bool_or(as_bool(json_get(json, "fancyzones_shiftDrag"@)), true)
    &&& s.mouse_switch == bool_or(as_bool(json_get(json, "fancyzones_mouseSwitch"@)), false)
    &&& s.mouse_middle_click_spanning_multiple_zones == bool_or(as_bool(json_get(json, "fancyzones_mouseMiddleClickSpanningMultipleZones"@)), false)
    &&& s.display_or_work_area_change_move_windows == bool_or(as_bool(json_get(json, "fancyzones_displayOrWorkAreaChange_moveWindows"@)), true)
    &&& s.zone_set_change_flash_zones == bool_or(as_bool(json_get(json, "fancyzones_zoneSetChange_flashZones"@)), false)
    &&& s.zone_set_change_move_windows == bool_or(as_bool(json_get(json, "fancyzones_zoneSetChange_moveWindows"@)), false)
    &&& s.override_snap_hotkeys == bool_or(as_bool(json_get(json, "fancyzones_overrideSnapHotkeys"@)), false)
    &&& s.move_window_across_monitors == bool_or(as_bool(json_get(json, "fancyzones_moveWindowAcrossMonitors"@)), false)
    &&& s.move_windows_based_on_position == bool_or(as_bool(json_get(json, "fancyzones_moveWindowsBasedOnPosition"@)), false)
    &&& s.app_last_zone_move_windows == bool_or(as_bool(json_get(json, "fancyzones_appLastZone_moveWindows"@)), false)
    &&& s.open_window_on_active_monitor == bool_or(as_bool(json_get(json, "fancyzones_openWindowOnActiveMonitor"@)), false)
    &&& s.restore_size == bool_or(as_bool(json_get(json, "fancyzones_restoreSize"@)), false)
    &&& s.use_cursorpos_editor_startupscreen == bool_or(as_bool(json_get(json, "use_cursorpos_editor_startupscreen"@)), true)
    &&& s.show_zones_on_all_monitors == bool_or(as_bool(json_get(json, "fancyzones_show_on_all_monitors"@)), false)
    &&& s.span_zones_across_monitors == bool_or(as_bool(json_get(json, "fancyzones_span_zones_across_monitors"@)), false)
    &&& s.make_dragged_window_transparent == bool_or(as_bool(json_get(json, "fancyzones_makeDraggedWindowTransparent"@)), true)
    &&& s.window_switching == bool_or(as_bool(json_get(json, "fancyzones_windowSwitching"@)), true)
    &&& s.quick_layout_switch == bool_or(as_bool(json_get(json, "fancyzones_quickLayoutSwitch"@)), true)
    &&& s.flash_zones_on_quick_switch == bool_or(as_bool(json_get(json, "fancyzones_flashZonesOnQuickSwitch"@)), true)
    &&& s.system_theme == bool_or(as_bool(json_get(json, "fancyzones_systemTheme"@)), true)
    &&& s.show_zone_number == bool_or(as_bool(json_get(json, "fancyzones_showZoneNumber"@)), true)
    &&& s.allow_snap_child_windows == bool_or(as_bool(json_get(json, "fancyzones_allowChildWindowSnap"@)), false)
    &&& s.disable_round_corners == bool_or(as_bool(json_get(json, "fancyzones_disableRoundCornersOnSnap"@)), false)
    &&& s.zone_color@ == str_or(as_str(json_get(json, "fancyzones_zoneColor"@)), "#AACDFF"@)
    &&& s.zone_border_color@ == str_or(as_str(json_get(json, "fancyzones_zoneBorderColor"@)), "#FFFFFF"@)
    &&& s.zone_highlight_color@ == str_or(as_str(json_get(json, "fancyzones_zoneHighlightColor"@)), "#008CFF"@)
    &&& s.zone_number_color@ == str_or(as_str(json_get(json, "fancyzones_zoneNumberColor"@)), "#000000"@)
    &&& s.zone_highlight_opacity == i32_or(as_i64(json_get(json, "fancyzones_highlight_opacity"@)), 50)
    &&& s.overlapping_zones_algorithm == OverlappingZonesAlgorithm::Smallest
    &&& s.excluded_apps@ == str_or(as_str(json_get(json, "fancyzones_excluded_apps"@)), ""@)
    &&& s.excluded_apps_array@.len() == excluded_list(s.excluded_apps@).len()
    &&& forall|i: int| 0 <= i < s.excluded_apps_array@.len() ==> #[trigger] s.excluded_apps_array@[i]@ == excluded_list(s.excluded_apps@)[i]
}

fn bool_member(json: &JsonValue, key: &str, d: bool) -> (b: bool)
    ensures
        b == bool_or(as_bool(json_get(*json, key@)), d),
{
    match get_bool(json, key) {
        Some(b) => b,
        None => d,
    }
}

fn str_member(json: &JsonValue, key: &str, d: &str) -> (s: String)
    ensures
        s@ == str_or(as_str(json_get(*json, key@)), d@),
{
    match get_str(json, key) {
        Some(s) => s.clone(),
        None => String::from_str(d),
    }
}

/// The entries of an excluded-apps text.
pub fn excluded_apps_of(text: &str) -> (v: Vec<String>)
    ensures
        v@.len() == excluded_list(text@).len(),
        forall|i: int| 0 <= i < v@.len() ==> #[trigger] v@[i]@ == excluded_list(text@)[i],
{
    let ls = lines(text);
    let ghost lv = lines_of(text@);
    let mut v: Vec<String> = Vec::new();
    let mut i: usize = 0;
    while i < ls.len()
        invariant
            i <= ls@.len() == lv.len(),
            lv == lines_of(text@),
            forall|k: int| 0 <= k < ls@.len() ==> #[trigger] ls@[k]@ == lv[k],
            v@.len() == excluded_of(lv.take(i as int)).len(),
            forall|k: int| 0 <= k < v@.len() ==> #[trigger] v@[k]@ == excluded_of(lv.take(i as int))[k],
        decreases ls@.len() - i,
    {
        proof {
            assert(lv.take(i + 1).drop_last() =~= lv.take(i as int));
            assert(lv.take(i + 1).last() == ls@[i as int]@);
        }
        let t = trim_str(ls[i].as_str());
        let u = to_uppercase(t);
        if u.unicode_len() > 0 {
            v.push(u);
        }
        i = i + 1;
    }
    proof {
        assert(lv.take(i as int) =~= lv);
    }
    v
}

impl Settings {
    /// Reads the settings from a document; a missing or mistyped member
    /// keeps its default.
    pub fn from_json(json: &JsonValue) -> (s: Self)
        ensures
            settings_from(*json, s),
    {
        let excluded_apps = str_member(json, "fancyzones_excluded_apps", "");
        let excluded_apps_array = excluded_apps_of(excluded_apps.as_str());
        Settings {
            shift_drag: bool_member(json, "fancyzones_shiftDrag", true),
            mouse_switch: bool_member(json, "fancyzones_mouseSwitch", false),
            mouse_middle_click_spanning_multiple_zones: bool_member(json, "fancyzones_mouseMiddleClickSpanningMultipleZones", false),
            display_or_work_area_change_move_windows: bool_member(json, "fancyzones_displayOrWorkAreaChange_moveWindows", true),
            zone_set_change_flash_zones: bool_member(json, "fancyzones_zoneSetChange_flashZones", false),
            zone_set_change_move_windows: bool_member(json, "fancyzones_zoneSetChange_moveWindows", false),
            override_snap_hotkeys: bool_member(json, "fancyzones_overrideSnapHotkeys", false),
            move_window_across_monitors: bool_member(json, "fancyzones_moveWindowAcrossMonitors", false),
            move_windows_based_on_position: bool_member(json, "fancyzones_moveWindowsBasedOnPosition", false),
            app_last_zone_move_windows: bool_member(json, "fancyzones_appLastZone_moveWindows", false),
            open_window_on_active_monitor: bool_member(json, "fancyzones_openWindowOnActiveMonitor", false),
            restore_size: bool_member(json, "fancyzones_restoreSize", false),
            use_cursorpos_editor_startupscreen: bool_member(json, "use_cursorpos_editor_startupscreen", true),
            show_zones_on_all_monitors: bool_member(json, "fancyzones_show_on_all_monitors", false),
            span_zones_across_monitors: bool_member(json, "fancyzones_span_zones_across_monitors", false),
            make_dragged_window_transparent: bool_member(json, "fancyzones_makeDraggedWindowTransparent", true),
            window_switching: bool_member(json, "fancyzones_windowSwitching", true),
            quick_layout_switch: bool_member(json, "fancyzones_quickLayoutSwitch", true),
            flash_zones_on_quick_switch: bool_member(json, "fancyzones_flashZonesOnQuickSwitch", true),
            system_theme: bool_member(json, "fancyzones_systemTheme", true),
            show_zone_number: bool_member(json, "fancyzones_showZoneNumber", true),
            allow_snap_child_windows: bool_member(json, "fancyzones_allowChildWindowSnap", false),
            disable_round_corners: bool_member(json, "fancyzones_disableRoundCornersOnSnap", false),
            zone_color: str_member(json, "fancyzones_zoneColor", "#AACDFF"),
            zone_border_color: str_member(json, "fancyzones_zoneBorderColor", "#FFFFFF"),
            zone_highlight_color: str_member(json, "fancyzones_zoneHighlightColor", "#008CFF"),
            zone_number_color: str_member(json, "fancyzones_zoneNumberColor", "#000000"),
            zone_highlight_opacity: match get_i64(json, "fancyzones_highlight_opacity") {
                Some(n) => n as i32,
                None => 50,
            },
            overlapping_zones_algorithm: OverlappingZonesAlgorithm::Smallest,
            excluded_apps,
            excluded_apps_array,
        }
    }
}

} // verus!
