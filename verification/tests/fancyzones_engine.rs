use powertoys_core::fancyzones::data::{LayoutData, ZoneSetLayoutType};
use powertoys_core::fancyzones::engine::app_history::AppZoneHistory;
use powertoys_core::fancyzones::engine::drag::DragState;
use powertoys_core::fancyzones::engine::drag_handler::DragState as HandlerDragState;
use powertoys_core::fancyzones::engine::engine::{FancyZonesEngine, LoadedData};
use powertoys_core::fancyzones::engine::keyboard::{direction_from_vk, KeyboardSnapHandler};
use powertoys_core::fancyzones::engine::work_area::WorkArea;
use powertoys_core::fancyzones::keyboard_snap::SnapDirection;
use powertoys_core::fancyzones::rect::{Point, Rect};
use powertoys_core::fancyzones::settings::OverlappingZonesAlgorithm;
use powertoys_core::json::JsonValue;

fn s(v: &str) -> JsonValue {
    JsonValue::Str(v.to_string())
}

fn n(v: i64) -> JsonValue {
    JsonValue::Number(Some(v), None)
}

fn arr(v: Vec<JsonValue>) -> JsonValue {
    JsonValue::Array(v)
}

fn obj(v: Vec<(&str, JsonValue)>) -> JsonValue {
    JsonValue::Object(v.into_iter().map(|(k, x)| (k.to_string(), x)).collect())
}

fn layout_data(lt: ZoneSetLayoutType, zone_count: i32) -> LayoutData {
    LayoutData {
        uuid: "test-uuid".to_string(),
        layout_type: lt,
        show_spacing: false,
        spacing: 0,
        zone_count,
        sensitivity_radius: 20,
    }
}

fn columns(uuid: &str, zone_count: i32) -> LayoutData {
    LayoutData {
        uuid: uuid.into(),
        layout_type: ZoneSetLayoutType::Columns,
        show_spacing: false,
        spacing: 0,
        zone_count,
        sensitivity_radius: 20,
    }
}

// ---- application zone history ----

#[test]
fn new_is_empty() {
    let h = AppZoneHistory::new();
    assert!(h.lookup("anything.exe", "dev1").is_none());
}

#[test]
fn record_and_lookup() {
    let mut h = AppZoneHistory::new();
    h.record("notepad.exe", "dev1", "layout1", vec![0, 1]);
    let zones = h.lookup("notepad.exe", "dev1");
    assert_eq!(zones, Some(vec![0, 1]));
}

#[test]
fn record_overwrites_previous() {
    let mut h = AppZoneHistory::new();
    h.record("app.exe", "dev1", "layout1", vec![0]);
    h.record("app.exe", "dev1", "layout1", vec![2, 3]);
    let zones = h.lookup("app.exe", "dev1");
    assert_eq!(zones, Some(vec![2, 3]));
    // Should only have one entry, not two.
    assert_eq!(h.history_for("app.exe").unwrap().len(), 1);
}

#[test]
fn lookup_gives_most_recent_assignment() {
    let mut h = AppZoneHistory::new();
    h.record("a.exe", "d", "L1", vec![0]);
    h.record("a.exe", "d", "L2", vec![1]);
    h.record("a.exe", "d", "L1", vec![2]);
    assert_eq!(h.lookup("a.exe", "d"), Some(vec![2]));
    assert_eq!(h.lookup("A.EXE", "d"), Some(vec![2]));
    assert_eq!(h.history_for("a.exe").unwrap().len(), 2);
}

#[test]
fn record_different_devices_coexist() {
    let mut h = AppZoneHistory::new();
    h.record("app.exe", "dev1", "L1", vec![0]);
    h.record("app.exe", "dev2", "L1", vec![1]);
    assert_eq!(h.lookup("app.exe", "dev1"), Some(vec![0]));
    assert_eq!(h.lookup("app.exe", "dev2"), Some(vec![1]));
}

#[test]
fn lookup_miss_returns_none() {
    let h = AppZoneHistory::new();
    assert!(h.lookup("missing.exe", "dev1").is_none());
}

#[test]
fn lookup_wrong_device_returns_none() {
    let mut h = AppZoneHistory::new();
    h.record("app.exe", "dev1", "L1", vec![0]);
    assert!(h.lookup("app.exe", "dev999").is_none());
}

#[test]
fn case_insensitive_app_path() {
    let mut h = AppZoneHistory::new();
    h.record("C:\\Windows\\Notepad.EXE", "dev1", "L1", vec![0]);
    let zones = h.lookup("c:\\windows\\notepad.exe", "dev1");
    assert_eq!(zones, Some(vec![0]));
}

#[test]
fn app_history_save_load_roundtrip() {
    let mut h = AppZoneHistory::new();
    h.record("app1.exe", "dev1", "layout1", vec![0, 1]);
    h.record("app2.exe", "dev2", "layout2", vec![2]);

    // Roundtrip through JSON
    let json = h.to_json();
    let h2 = AppZoneHistory::load_from_json(&json);
    assert_eq!(h2.lookup("app1.exe", "dev1"), Some(vec![0, 1]));
    assert_eq!(h2.lookup("app2.exe", "dev2"), Some(vec![2]));
}

#[test]
fn load_from_cpp_format() {
    let json = obj(vec![(
        "app-zone-history",
        arr(vec![obj(vec![
            ("app-path", s("C:\\Windows\\notepad.exe")),
            (
                "history",
                arr(vec![obj(vec![
                    ("zone-index-set", arr(vec![n(0)])),
                    ("device-id", s("monitor_key")),
                    ("layout-id", s("layout_uuid")),
                ])]),
            ),
        ])]),
    )]);
    let h = AppZoneHistory::load_from_json(&json);
    let zones = h.lookup("c:\\windows\\notepad.exe", "monitor_key");
    assert_eq!(zones, Some(vec![0]));
}

#[test]
fn record_then_lookup_other_layout_same_device() {
    // The last entry for the device wins.
    let mut h = AppZoneHistory::new();
    h.record("app.exe", "dev1", "L1", vec![1]);
    h.record("app.exe", "dev1", "L2", vec![2]);
    assert_eq!(h.lookup("APP.EXE", "dev1"), Some(vec![2]));
    h.record("app.exe", "dev1", "L1", vec![3]);
    assert_eq!(h.lookup("app.exe", "dev1"), Some(vec![2]));
    assert_eq!(h.history_for("app.exe").unwrap().len(), 2);
}

#[test]
fn load_skips_entries_without_layout_and_empty_paths() {
    let json = obj(vec![(
        "app-zone-history",
        arr(vec![
            obj(vec![("app-path", s("")), ("history", arr(vec![obj(vec![("layout-id", s("x"))])]))]),
            obj(vec![
                ("app-path", s("A.exe")),
                (
                    "history",
                    arr(vec![
                        obj(vec![("device-id", s("d")), ("zone-index-set", arr(vec![n(5)]))]),
                        obj(vec![("layout-id", s("L")), ("zone-index-set", arr(vec![n(1), s("x"), n(2)]))]),
                    ]),
                ),
            ]),
            obj(vec![("app-path", s("b.exe")), ("history", arr(vec![]))]),
        ]),
    )]);
    let h = AppZoneHistory::load_from_json(&json);
    // The entry without a device id is stored under the empty device key.
    assert_eq!(h.lookup("a.exe", ""), Some(vec![1, 2]));
    assert!(h.lookup("a.exe", "d").is_none());
    assert!(h.history_for("b.exe").is_none());
    assert!(h.history_for("").is_none());
}

#[test]
fn to_json_writes_members_in_order() {
    let mut h = AppZoneHistory::new();
    h.record("App.exe", "dev", "lay", vec![4, 7]);
    let j = h.to_json();
    let expected = obj(vec![(
        "app-zone-history",
        arr(vec![obj(vec![
            ("app-path", s("app.exe")),
            (
                "history",
                arr(vec![obj(vec![
                    ("device-id", s("dev")),
                    ("layout-id", s("lay")),
                    ("zone-index-set", arr(vec![n(4), n(7)])),
                ])]),
            ),
        ])]),
    )]);
    assert_eq!(format!("{:?}", j), format!("{:?}", expected));
}

// ---- work areas ----

#[test]
fn new_columns_3() {
    let ld = layout_data(ZoneSetLayoutType::Columns, 3);
    let wa = WorkArea::new("dev1".into(), Rect::new(0, 0, 1920, 1080), &ld);
    assert!(wa.is_some());
    assert_eq!(wa.unwrap().zone_count(), 3);
}

#[test]
fn new_rows_2() {
    let ld = layout_data(ZoneSetLayoutType::Rows, 2);
    let wa = WorkArea::new("dev1".into(), Rect::new(0, 0, 1920, 1080), &ld);
    assert!(wa.is_some());
    assert_eq!(wa.unwrap().zone_count(), 2);
}

#[test]
fn new_grid_4() {
    let ld = layout_data(ZoneSetLayoutType::Grid, 4);
    let wa = WorkArea::new("dev1".into(), Rect::new(0, 0, 1920, 1080), &ld);
    assert!(wa.is_some());
    assert_eq!(wa.unwrap().zone_count(), 4);
}

#[test]
fn new_priority_grid() {
    let ld = layout_data(ZoneSetLayoutType::PriorityGrid, 3);
    let wa = WorkArea::new("dev1".into(), Rect::new(0, 0, 1920, 1080), &ld);
    assert!(wa.is_some());
    assert_eq!(wa.unwrap().zone_count(), 3);
}

#[test]
fn new_focus() {
    let ld = layout_data(ZoneSetLayoutType::Focus, 3);
    let wa = WorkArea::new("dev1".into(), Rect::new(0, 0, 1920, 1080), &ld);
    assert!(wa.is_some());
    assert_eq!(wa.unwrap().zone_count(), 3);
}

#[test]
fn new_blank() {
    let ld = layout_data(ZoneSetLayoutType::Blank, 0);
    let wa = WorkArea::new("dev1".into(), Rect::new(0, 0, 1920, 1080), &ld);
    assert!(wa.is_some());
    assert_eq!(wa.unwrap().zone_count(), 0);
}

#[test]
fn new_custom_returns_none() {
    let ld = layout_data(ZoneSetLayoutType::Custom, 3);
    let wa = WorkArea::new("dev1".into(), Rect::new(0, 0, 1920, 1080), &ld);
    assert!(wa.is_none());
}

#[test]
fn zones_from_point_finds_zone() {
    let ld = layout_data(ZoneSetLayoutType::Columns, 3);
    let wa = WorkArea::new("dev1".into(), Rect::new(100, 200, 1000, 800), &ld).unwrap();
    let zones = wa.zones_from_point(Point::new(150, 400), OverlappingZonesAlgorithm::Smallest);
    assert!(!zones.is_empty());
}

#[test]
fn screen_coords_offset() {
    let ld = layout_data(ZoneSetLayoutType::Columns, 1);
    let wa = WorkArea::new("dev1".into(), Rect::new(100, 200, 500, 600), &ld).unwrap();
    let screen_rects = wa.zone_rects_screen();
    assert_eq!(screen_rects.len(), 1);
    assert_eq!(screen_rects[0].left, 100);
    assert_eq!(screen_rects[0].top, 200);
    assert_eq!(screen_rects[0].right, 500);
    assert_eq!(screen_rects[0].bottom, 600);
}

#[test]
fn relative_coords() {
    let ld = layout_data(ZoneSetLayoutType::Columns, 1);
    let wa = WorkArea::new("dev1".into(), Rect::new(100, 200, 500, 600), &ld).unwrap();
    let rel_rects = wa.zone_rects_relative();
    assert_eq!(rel_rects.len(), 1);
    assert_eq!(rel_rects[0].left, 0);
    assert_eq!(rel_rects[0].top, 0);
    assert_eq!(rel_rects[0].right, 400);
    assert_eq!(rel_rects[0].bottom, 400);
}

#[test]
fn assign_unassign_window() {
    let ld = layout_data(ZoneSetLayoutType::Columns, 3);
    let mut wa = WorkArea::new("dev1".into(), Rect::new(0, 0, 1920, 1080), &ld).unwrap();
    wa.assign_window(42, vec![0]);
    assert_eq!(wa.get_window_zones(42), vec![0]);
    wa.unassign_window(42);
    assert!(wa.get_window_zones(42).is_empty());
}

#[test]
fn get_zone_rect_screen() {
    let ld = layout_data(ZoneSetLayoutType::Columns, 2);
    let wa = WorkArea::new("dev1".into(), Rect::new(100, 200, 500, 600), &ld).unwrap();
    let rect = wa.get_zone_rect(&vec![0, 1]);
    assert_eq!(rect.left, 100);
    assert_eq!(rect.top, 200);
    assert_eq!(rect.right, 500);
    assert_eq!(rect.bottom, 600);
}

#[test]
fn work_area_accessors() {
    let ld = layout_data(ZoneSetLayoutType::Columns, 2);
    let wa = WorkArea::new("dev7".into(), Rect::new(10, 20, 410, 220), &ld).unwrap();
    assert_eq!(wa.device_key(), "dev7");
    assert_eq!(wa.layout_id(), "test-uuid");
    assert_eq!(wa.work_area_rect(), Rect::new(10, 20, 410, 220));
    assert_eq!(wa.layout().zones().len(), 2);
    // Two columns of a 400-wide area, relative to the area.
    let rel = wa.zone_rects_relative();
    assert_eq!(rel[0], Rect::new(0, 0, 200, 200));
    assert_eq!(rel[1], Rect::new(200, 0, 400, 200));
    let scr = wa.zone_rects_screen();
    assert_eq!(scr[1], Rect::new(210, 20, 410, 220));
}

#[test]
fn new_zero_count_grid_kind_is_none() {
    let ld = layout_data(ZoneSetLayoutType::Columns, 0);
    assert!(WorkArea::new("d".into(), Rect::new(0, 0, 100, 100), &ld).is_none());
    let ld = layout_data(ZoneSetLayoutType::Rows, 2);
    assert!(WorkArea::new("d".into(), Rect::new(0, 0, 0, 100), &ld).is_none());
}

// ---- drag (drag.rs) ----

fn make_work_areas() -> Vec<WorkArea> {
    vec![WorkArea::new("mon0".into(), Rect::new(0, 0, 1920, 1080), &columns("test", 3)).unwrap()]
}

#[test]
fn new_drag_not_snapping() {
    let drag = DragState::new(42);
    assert!(!drag.snapping_mode);
    assert!(drag.highlighted_zones.is_empty());
}

#[test]
fn drag_finds_zone_when_snapping() {
    let was = make_work_areas();
    let mut drag = DragState::new(42);
    drag.enable_snapping();
    drag.update(100, 540, &was, OverlappingZonesAlgorithm::Smallest, false);
    assert_eq!(drag.active_work_area, Some(0));
    assert!(!drag.highlighted_zones.is_empty());
}

#[test]
fn drag_no_zone_when_not_snapping() {
    let was = make_work_areas();
    let mut drag = DragState::new(42);
    // Don't enable snapping
    drag.update(100, 540, &was, OverlappingZonesAlgorithm::Smallest, false);
    assert!(drag.highlighted_zones.is_empty());
    assert!(drag.active_work_area.is_none());
}

#[test]
fn drag_no_zone_outside() {
    let was = make_work_areas();
    let mut drag = DragState::new(42);
    drag.enable_snapping();
    drag.update(-100, -100, &was, OverlappingZonesAlgorithm::Smallest, false);
    assert!(drag.highlighted_zones.is_empty());
}

#[test]
fn drag_snap_target_returns_rect() {
    let was = make_work_areas();
    let mut drag = DragState::new(42);
    drag.enable_snapping();
    drag.update(100, 540, &was, OverlappingZonesAlgorithm::Smallest, false);
    let target = drag.snap_target(&was);
    assert!(target.is_some());
    let (hwnd, rect) = target.unwrap();
    assert_eq!(hwnd, 42);
    assert!(rect.width() > 0);
    assert!(rect.height() > 0);
}

#[test]
fn snap_target_none_when_outside() {
    let was = make_work_areas();
    let mut drag = DragState::new(42);
    drag.enable_snapping();
    drag.update(-100, -100, &was, OverlappingZonesAlgorithm::Smallest, false);
    assert!(drag.snap_target(&was).is_none());
}

#[test]
fn snap_target_none_when_not_snapping() {
    let was = make_work_areas();
    let drag = DragState::new(42);
    assert!(drag.snap_target(&was).is_none());
}

#[test]
fn drag_multi_zone_spanning() {
    let data = columns("test", 3);
    let was = vec![WorkArea::new("m0".into(), Rect::new(0, 0, 900, 600), &data).unwrap()];
    let mut drag = DragState::new(1);
    drag.enable_snapping();

    // First update with select_many: sets initial zone
    drag.update(100, 300, &was, OverlappingZonesAlgorithm::Smallest, true);
    assert!(!drag.highlighted_zones.is_empty());

    // Second update to a different zone with select_many: should span
    drag.update(600, 300, &was, OverlappingZonesAlgorithm::Smallest, true);
    // Should have multiple zones highlighted (spanning from initial to current)
    assert!(drag.highlighted_zones.len() >= 2);
}

#[test]
fn overlay_info_matches_state() {
    let was = make_work_areas();
    let mut drag = DragState::new(42);
    drag.enable_snapping();
    drag.update(100, 540, &was, OverlappingZonesAlgorithm::Smallest, false);
    let info = drag.overlay_info();
    assert!(info.is_some());
    let (wa_idx, zones) = info.unwrap();
    assert_eq!(wa_idx, 0);
    assert!(!zones.is_empty());
}

#[test]
fn drag_span_exact_zones_and_target() {
    let data = columns("test", 3);
    let was = vec![WorkArea::new("m0".into(), Rect::new(100, 0, 1000, 600), &data).unwrap()];
    let mut drag = DragState::new(5);
    drag.enable_snapping();
    drag.update(150, 300, &was, OverlappingZonesAlgorithm::Smallest, true);
    assert_eq!(drag.highlighted_zones, vec![0]);
    drag.update(950, 300, &was, OverlappingZonesAlgorithm::Smallest, true);
    assert_eq!(drag.highlighted_zones, vec![0, 1, 2]);
    assert_eq!(drag.snap_target(&was), Some((5, Rect::new(100, 0, 1000, 600))));
    drag.update(450, 300, &was, OverlappingZonesAlgorithm::Smallest, false);
    assert_eq!(drag.highlighted_zones, vec![1]);
    assert!(drag.initial_zones.is_none());
    assert_eq!(drag.cursor, Point::new(450, 300));
}

// ---- drag (drag_handler.rs) ----

fn make_work_area() -> WorkArea {
    WorkArea::new("dev".into(), Rect::new(0, 0, 1920, 1080), &columns("test", 3)).unwrap()
}

#[test]
fn finds_zone_on_update() {
    let was = vec![make_work_area()];
    let mut ds = HandlerDragState::new(42);
    ds.enable_snapping();
    ds.update(100, 500, &was, OverlappingZonesAlgorithm::Smallest, false);
    assert!(ds.active_work_area.is_some());
    assert!(!ds.highlighted_zones.is_empty());
}

#[test]
fn no_zone_outside() {
    let was = vec![make_work_area()];
    let mut ds = HandlerDragState::new(42);
    ds.enable_snapping();
    ds.update(-100, -100, &was, OverlappingZonesAlgorithm::Smallest, false);
    assert!(ds.active_work_area.is_none());
    assert!(ds.highlighted_zones.is_empty());
}

#[test]
fn drag_handler_snap_target_returns_rect() {
    let was = vec![make_work_area()];
    let mut ds = HandlerDragState::new(42);
    ds.enable_snapping();
    ds.update(100, 500, &was, OverlappingZonesAlgorithm::Smallest, false);
    let target = ds.snap_target(&was);
    assert!(target.is_some());
    let (hwnd, rect) = target.unwrap();
    assert_eq!(hwnd, 42);
    assert!(rect.width() > 0);
    assert!(rect.height() > 0);
}

#[test]
fn snap_target_none_when_no_update() {
    let was = vec![make_work_area()];
    let ds = HandlerDragState::new(42);
    assert!(ds.snap_target(&was).is_none());
}

#[test]
fn drag_handler_multi_zone_spanning() {
    let was = vec![make_work_area()];
    let mut ds = HandlerDragState::new(42);
    ds.enable_snapping();
    ds.update(100, 500, &was, OverlappingZonesAlgorithm::Smallest, true);
    assert!(!ds.highlighted_zones.is_empty());
    let initial_count = ds.highlighted_zones.len();
    ds.update(1800, 500, &was, OverlappingZonesAlgorithm::Smallest, true);
    assert!(ds.highlighted_zones.len() >= initial_count);
}

#[test]
fn new_default_state() {
    let ds = HandlerDragState::new(99);
    assert_eq!(ds.hwnd, 99);
    assert!(!ds.snapping_mode);
    assert!(ds.highlighted_zones.is_empty());
    assert!(ds.active_work_area.is_none());
    assert!(ds.initial_zones.is_none());
}

#[test]
fn drag_handler_target_info() {
    let was = vec![make_work_area()];
    let mut ds = HandlerDragState::new(3);
    // The handler tracks zones even before snapping is enabled.
    ds.update(1800, 500, &was, OverlappingZonesAlgorithm::Smallest, false);
    assert_eq!(ds.snap_target_info(&was), Some((0, 2)));
    ds.update(100, 500, &was, OverlappingZonesAlgorithm::Smallest, true);
    assert_eq!(ds.highlighted_zones, vec![0]);
    ds.update(1800, 500, &was, OverlappingZonesAlgorithm::Smallest, true);
    assert_eq!(ds.highlighted_zones, vec![0, 1, 2]);
    assert_eq!(ds.snap_target(&was), Some((3, Rect::new(0, 0, 1920, 1080))));
}

// ---- keyboard snapping ----

fn make_keyboard_work_area(zone_count: i32) -> WorkArea {
    WorkArea::new("k".into(), Rect::new(0, 0, 1920, 1080), &columns("test", zone_count)).unwrap()
}

#[test]
fn snap_right_from_none() {
    let handler = KeyboardSnapHandler::new();
    let wa = make_keyboard_work_area(3);
    let result = handler.snap_by_index(None, &wa, SnapDirection::Right);
    assert!(result.is_some());
    let r = result.unwrap();
    assert_eq!(r.zones, vec![0]);
    assert!(r.rect.width() > 0);
}

#[test]
fn keyboard_snap_right_from_first() {
    let handler = KeyboardSnapHandler::new();
    let wa = make_keyboard_work_area(3);
    let result = handler.snap_by_index(Some(0), &wa, SnapDirection::Right);
    assert!(result.is_some());
    assert_eq!(result.unwrap().zones, vec![1]);
}

#[test]
fn snap_left_wraps() {
    let handler = KeyboardSnapHandler::new();
    let wa = make_keyboard_work_area(3);
    let result = handler.snap_by_index(Some(0), &wa, SnapDirection::Left);
    assert!(result.is_some());
    assert_eq!(result.unwrap().zones, vec![2]);
}

#[test]
fn snap_right_wraps() {
    let handler = KeyboardSnapHandler::new();
    let wa = make_keyboard_work_area(3);
    let result = handler.snap_by_index(Some(2), &wa, SnapDirection::Right);
    assert!(result.is_some());
    assert_eq!(result.unwrap().zones, vec![0]);
}

#[test]
fn keyboard_snap_empty_zones() {
    let handler = KeyboardSnapHandler::new();
    let data = LayoutData {
        uuid: "test".into(),
        layout_type: ZoneSetLayoutType::Blank,
        show_spacing: false,
        spacing: 0,
        zone_count: 0,
        sensitivity_radius: 20,
    };
    let wa = WorkArea::new("k".into(), Rect::new(0, 0, 1920, 1080), &data);
    // Blank layout with 0 zones should still create (empty zone set)
    if let Some(wa) = wa {
        let result = handler.snap_by_index(None, &wa, SnapDirection::Right);
        assert!(result.is_none());
    }
}

#[test]
fn direction_from_vk_codes() {
    assert_eq!(direction_from_vk(0x25), Some(SnapDirection::Left));
    assert_eq!(direction_from_vk(0x27), Some(SnapDirection::Right));
    assert_eq!(direction_from_vk(0x26), Some(SnapDirection::Up));
    assert_eq!(direction_from_vk(0x28), Some(SnapDirection::Down));
    assert_eq!(direction_from_vk(0x00), None);
}

#[test]
fn cycle_all_zones_right() {
    let handler = KeyboardSnapHandler::new();
    let wa = make_keyboard_work_area(4);
    let mut zone = handler.snap_by_index(None, &wa, SnapDirection::Right);
    let expected = [0, 1, 2, 3, 0];
    for exp in expected {
        assert_eq!(zone.as_ref().unwrap().zones, vec![exp]);
        zone = handler.snap_by_index(Some(zone.unwrap().zones[0]), &wa, SnapDirection::Right);
    }
}

#[test]
fn keyboard_snap_rect_and_position_result() {
    let handler = KeyboardSnapHandler::new();
    let wa = WorkArea::new("k".into(), Rect::new(100, 0, 1000, 600), &columns("t", 3)).unwrap();
    let r = handler.snap_by_index(Some(0), &wa, SnapDirection::Right).unwrap();
    assert_eq!(r.rect, Rect::new(400, 0, 700, 600));
    assert_eq!(r.work_area_idx, 0);
    let p = handler.position_result(&wa, Some(2)).unwrap();
    assert_eq!(p.zones, vec![2]);
    assert_eq!(p.rect, Rect::new(700, 0, 1000, 600));
    assert!(handler.position_result(&wa, Some(3)).is_none());
    assert!(handler.position_result(&wa, None).is_none());
}

#[test]
fn extend_session_start_and_finish() {
    let mut handler = KeyboardSnapHandler::new();
    let wa = make_keyboard_work_area(3);
    assert!(!handler.is_extending());
    handler.begin_extend(&vec![0], 0);
    assert!(handler.is_extending());
    assert_eq!(handler.extend_initial_zones(), &vec![0]);
    // A session on the same work area keeps its zones.
    handler.begin_extend(&vec![2], 0);
    assert_eq!(handler.extend_initial_zones(), &vec![0]);
    let r = handler.finish_extend(&wa, 0, vec![0, 1]).unwrap();
    assert_eq!(r.zones, vec![0, 1]);
    assert_eq!(r.rect, Rect::new(0, 0, 1280, 1080));
    assert_eq!(handler.extend_initial_zones(), &vec![0, 1]);
    assert!(handler.finish_extend(&wa, 0, vec![]).is_none());
    assert_eq!(handler.extend_initial_zones(), &vec![0, 1]);
    // Another work area starts a new session.
    handler.begin_extend(&vec![2], 1);
    assert_eq!(handler.extend_initial_zones(), &vec![2]);
    handler.reset_extend();
    assert!(!handler.is_extending());
}

// ---- engine ----

fn make_engine_with_work_areas() -> FancyZonesEngine {
    let data = LoadedData::default();
    let mut engine = FancyZonesEngine::new_with_data(data);
    let wa = WorkArea::new("dev1".into(), Rect::new(0, 0, 1920, 1080), &columns("test", 3)).unwrap();
    engine.set_work_areas(vec![wa]);
    engine
}

#[test]
fn new_with_data_defaults() {
    let engine = FancyZonesEngine::new_with_data(LoadedData::default());
    assert!(engine.work_areas().is_empty());
    assert!(!engine.is_dragging());
}

#[test]
fn set_work_areas_test() {
    let engine = make_engine_with_work_areas();
    assert_eq!(engine.work_areas().len(), 1);
    assert_eq!(engine.work_areas()[0].zone_count(), 3);
}

#[test]
fn drag_lifecycle() {
    let mut engine = make_engine_with_work_areas();
    // Shift is not required when the settings do not ask for it: here the
    // default settings ask for it, so shift is reported held.
    engine.on_move_size_start(42);
    assert!(engine.on_mouse_move(500, 500, engine.settings().shift_drag, false));
    assert!(engine.is_dragging());
    let snap_info = engine.on_move_size_end();
    assert!(snap_info.is_some());
    let info = snap_info.unwrap();
    assert!(!info.zones.is_empty());
    assert!(!engine.is_dragging());
}

#[test]
fn shutdown_cleans_up() {
    let mut engine = make_engine_with_work_areas();
    engine.shutdown();
    assert!(engine.work_areas().is_empty());
    assert!(!engine.is_dragging());
}

#[test]
fn find_window_unassigned() {
    let engine = make_engine_with_work_areas();
    let result = engine.find_window_work_area(999);
    assert!(result.is_some());
    let (idx, zones) = result.unwrap();
    assert_eq!(idx, 0);
    assert!(zones.is_empty());
}

#[test]
fn find_window_assigned() {
    let mut engine = make_engine_with_work_areas();
    let mut wa = WorkArea::new("dev1".into(), Rect::new(0, 0, 1920, 1080), &columns("test", 3)).unwrap();
    wa.assign_window(123, vec![1]);
    engine.set_work_areas(vec![wa]);
    let result = engine.find_window_work_area(123);
    assert!(result.is_some());
    let (idx, zones) = result.unwrap();
    assert_eq!(idx, 0);
    assert_eq!(zones, vec![1]);
}

#[test]
fn engine_app_history_integration() {
    let mut engine = make_engine_with_work_areas();
    engine.record_app_history("test.exe", "dev1", "layout1", vec![0, 1]);
    let zones = engine.lookup_app_history("test.exe", "dev1");
    assert_eq!(zones, Some(vec![0, 1]));
}

#[test]
fn engine_app_history_miss() {
    let engine = make_engine_with_work_areas();
    assert!(engine.lookup_app_history("missing.exe", "dev1").is_none());
}

#[test]
fn engine_drag_end_records_window() {
    let mut engine = make_engine_with_work_areas();
    engine.on_move_size_start(77);
    // Without shift held (and shift asked for) zones are not tracked.
    assert!(!engine.on_mouse_move(1800, 500, false, false));
    assert!(engine.active_zone_info().is_none());
    assert!(engine.on_mouse_move(1800, 500, true, false));
    let (idx, zones) = engine.active_zone_info().unwrap();
    assert_eq!(idx, 0);
    assert_eq!(zones, &vec![2]);
    let info = engine.on_move_size_end().unwrap();
    assert_eq!(info.zones, vec![2]);
    assert_eq!(info.rect, Rect::new(1280, 0, 1920, 1080));
    assert_eq!(info.device_key, "dev1");
    assert_eq!(info.layout_id, "test");
    assert_eq!(engine.find_window_work_area(77), Some((0, vec![2])));
    assert!(engine.on_move_size_end().is_none());
}

#[test]
fn engine_apply_snap_records_window() {
    let mut engine = make_engine_with_work_areas();
    let handler = KeyboardSnapHandler::new();
    let result = handler.snap_by_index(None, &engine.work_areas()[0], SnapDirection::Left).unwrap();
    let info = engine.apply_snap(9, result).unwrap();
    assert_eq!(info.zones, vec![2]);
    assert_eq!(info.device_key, "dev1");
    assert_eq!(engine.find_window_work_area(9), Some((0, vec![2])));
}

// ---- window filter ----

use powertoys_core::fancyzones::engine::window_filter::{exe_name_of_path, is_excluded_app, window_verdict, RejectReason, WindowFacts};

fn plain_window() -> WindowFacts {
    WindowFacts {
        minimized: false,
        visible: true,
        tool_window: false,
        is_root: true,
        popup: false,
        thick_frame: true,
        caption: true,
        minimize_box: true,
        maximize_box: true,
        owner_visible: false,
        exe_name: Some("notepad.exe".to_string()),
    }
}

#[test]
fn reject_reason_values() {
    // Ensure all variants exist and are distinct
    let reasons = [
        RejectReason::Minimized,
        RejectReason::NotVisible,
        RejectReason::ToolWindow,
        RejectReason::NonRootWindow,
        RejectReason::NonProcessablePopup,
        RejectReason::ChildWindow,
        RejectReason::Excluded,
    ];
    for (i, a) in reasons.iter().enumerate() {
        for (j, b) in reasons.iter().enumerate() {
            if i != j {
                assert_ne!(a, b);
            }
        }
    }
}

#[test]
fn excluded_apps_matching() {
    let excluded = vec!["notepad.exe".to_string(), "calc.exe".to_string()];
    assert!(is_excluded_app(&excluded, "notepad.exe"));
}

#[test]
fn excluded_apps_no_match() {
    let excluded = vec!["notepad.exe".to_string()];
    assert!(!is_excluded_app(&excluded, "explorer.exe"));
}

#[test]
fn excluded_apps_case_insensitive() {
    let excluded = vec!["Notepad.EXE".to_string()];
    assert!(is_excluded_app(&excluded, "NOTEPAD.exe"));
}

#[test]
fn window_verdict_checks_in_order() {
    let none: Vec<String> = vec![];
    assert_eq!(window_verdict(&plain_window(), &none, false), Ok(()));
    let w = WindowFacts { minimized: true, visible: false, ..plain_window() };
    assert_eq!(window_verdict(&w, &none, false), Err(RejectReason::Minimized));
    let w = WindowFacts { visible: false, tool_window: true, ..plain_window() };
    assert_eq!(window_verdict(&w, &none, false), Err(RejectReason::NotVisible));
    let w = WindowFacts { tool_window: true, ..plain_window() };
    assert_eq!(window_verdict(&w, &none, false), Err(RejectReason::ToolWindow));
    let w = WindowFacts { is_root: false, ..plain_window() };
    assert_eq!(window_verdict(&w, &none, false), Err(RejectReason::NonRootWindow));
    let w = WindowFacts { popup: true, thick_frame: false, ..plain_window() };
    assert_eq!(window_verdict(&w, &none, false), Err(RejectReason::NonProcessablePopup));
    let w = WindowFacts { popup: true, caption: false, minimize_box: false, maximize_box: true, ..plain_window() };
    assert_eq!(window_verdict(&w, &none, false), Ok(()));
    let w = WindowFacts { owner_visible: true, ..plain_window() };
    assert_eq!(window_verdict(&w, &none, false), Err(RejectReason::ChildWindow));
    assert_eq!(window_verdict(&w, &none, true), Ok(()));
    let apps = vec!["NOTEPAD".to_string()];
    assert_eq!(window_verdict(&plain_window(), &apps, false), Err(RejectReason::Excluded));
    let w = WindowFacts { exe_name: None, ..plain_window() };
    assert_eq!(window_verdict(&w, &apps, false), Ok(()));
}

#[test]
fn exe_name_is_last_path_component() {
    assert_eq!(exe_name_of_path("C:\\Windows\\System32\\notepad.exe"), "notepad.exe");
    assert_eq!(exe_name_of_path("notepad.exe"), "notepad.exe");
    assert_eq!(exe_name_of_path("C:\\dir\\"), "");
    assert_eq!(exe_name_of_path(""), "");
}

#[test]
fn history_from_text() {
    let text = r#"{ "app-zone-history": [ { "app-path": "C:\\Windows\\Notepad.exe",
        "history": [ { "zone-index-set": [2, 3], "device-id": "dev", "layout-id": "uuid" } ] } ] }"#;
    let h = AppZoneHistory::load_from_text(text);
    assert_eq!(h.lookup("c:\\windows\\notepad.exe", "dev"), Some(vec![2, 3]));
    let empty = AppZoneHistory::load_from_text("not json");
    assert!(empty.lookup("c:\\windows\\notepad.exe", "dev").is_none());
}
