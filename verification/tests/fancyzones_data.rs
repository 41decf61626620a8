use powertoys_core::fancyzones::data::ids::{is_valid_guid, DeviceId, DeviceIdData, MonitorId, WorkAreaId};
use powertoys_core::fancyzones::data::stores::{
    AppliedLayouts, CustomLayoutsStore, DefaultLayouts, LayoutAssignedWindows, LayoutHotkeys, LayoutTemplatesStore,
};
use powertoys_core::fancyzones::data::defaults;
use powertoys_core::fancyzones::data::{LayoutData, MonitorConfigurationType, ZoneSetLayoutType};
use powertoys_core::json::JsonValue;

fn s(v: &str) -> JsonValue {
    JsonValue::Str(v.to_string())
}

fn n(v: i64) -> JsonValue {
    JsonValue::Number(Some(v), None)
}

fn b(v: bool) -> JsonValue {
    JsonValue::Bool(v)
}

fn arr(v: Vec<JsonValue>) -> JsonValue {
    JsonValue::Array(v)
}

fn obj(v: Vec<(&str, JsonValue)>) -> JsonValue {
    JsonValue::Object(v.into_iter().map(|(k, x)| (k.to_string(), x)).collect())
}

#[test]
fn monitor_handle_same() {
    let monitor: u64 = 7;
    let id1 = WorkAreaId {
        monitor_id: MonitorId { monitor, device_id: DeviceId { id: "device-1".into(), instance_id: "instance-id-1".into(), number: 0 }, serial_number: "serial-number-1".into() },
        virtual_desktop_id: "{E21F6F29-76FD-4FC1-8970-17AB8AD64847}".into(),
    };
    let id2 = WorkAreaId {
        monitor_id: MonitorId { monitor, device_id: DeviceId { id: "device-2".into(), instance_id: "instance-id-2".into(), number: 0 }, serial_number: "serial-number-2".into() },
        virtual_desktop_id: "{E21F6F29-76FD-4FC1-8970-17AB8AD64847}".into(),
    };
    assert!(id1.eq_cpp(&id2));
}

#[test]
fn monitor_handle_different() {
    let id1 = WorkAreaId {
        monitor_id: MonitorId { monitor: 101, device_id: DeviceId { id: "device".into(), instance_id: "instance-id".into(), number: 0 }, serial_number: "serial-number".into() },
        virtual_desktop_id: "{E21F6F29-76FD-4FC1-8970-17AB8AD64847}".into(),
    };
    let id2 = WorkAreaId {
        monitor_id: MonitorId { monitor: 102, device_id: DeviceId { id: "device".into(), instance_id: "instance-id".into(), number: 0 }, serial_number: "serial-number".into() },
        virtual_desktop_id: "{E21F6F29-76FD-4FC1-8970-17AB8AD64847}".into(),
    };
    assert!(!id1.eq_cpp(&id2));
}

#[test]
fn virtual_desktop_different() {
    let id1 = WorkAreaId {
        monitor_id: MonitorId { monitor: 0, device_id: DeviceId { id: "device".into(), instance_id: "instance-id".into(), number: 0 }, serial_number: "serial-number".into() },
        virtual_desktop_id: "{F21F6F29-76FD-4FC1-8970-17AB8AD64847}".into(),
    };
    let id2 = WorkAreaId {
        monitor_id: MonitorId { monitor: 0, device_id: DeviceId { id: "device".into(), instance_id: "instance-id".into(), number: 0 }, serial_number: "serial-number".into() },
        virtual_desktop_id: "{E21F6F29-76FD-4FC1-8970-17AB8AD64847}".into(),
    };
    assert!(!id1.eq_cpp(&id2));
}

#[test]
fn virtual_desktop_null() {
    let id1 = WorkAreaId {
        monitor_id: MonitorId { monitor: 0, device_id: DeviceId { id: "device".into(), instance_id: "instance-id".into(), number: 0 }, serial_number: "serial-number".into() },
        virtual_desktop_id: "".into(),
    };
    let id2 = WorkAreaId {
        monitor_id: MonitorId { monitor: 0, device_id: DeviceId { id: "device".into(), instance_id: "instance-id".into(), number: 0 }, serial_number: "serial-number".into() },
        virtual_desktop_id: "{E21F6F29-76FD-4FC1-8970-17AB8AD64847}".into(),
    };
    assert!(!id1.eq_cpp(&id2));
}

#[test]
fn different_serial_number() {
    let id1 = WorkAreaId {
        monitor_id: MonitorId { monitor: 0, device_id: DeviceId { id: "device".into(), instance_id: "instance-id".into(), number: 0 }, serial_number: "serial-number".into() },
        virtual_desktop_id: "{E21F6F29-76FD-4FC1-8970-17AB8AD64847}".into(),
    };
    let id2 = WorkAreaId {
        monitor_id: MonitorId { monitor: 0, device_id: DeviceId { id: "device".into(), instance_id: "instance-id".into(), number: 0 }, serial_number: "another-serial-number".into() },
        virtual_desktop_id: "{E21F6F29-76FD-4FC1-8970-17AB8AD64847}".into(),
    };
    assert!(!id1.eq_cpp(&id2));
}

#[test]
fn default_monitor_id_different_instance_id_same_number() {
    let id1 = WorkAreaId {
        monitor_id: MonitorId { monitor: 0, device_id: DeviceId { id: "Default_Monitor".into(), instance_id: "instance-id".into(), number: 1 }, serial_number: "".into() },
        virtual_desktop_id: "{E21F6F29-76FD-4FC1-8970-17AB8AD64847}".into(),
    };
    let id2 = WorkAreaId {
        monitor_id: MonitorId { monitor: 0, device_id: DeviceId { id: "Default_Monitor".into(), instance_id: "another-instance-id".into(), number: 1 }, serial_number: "".into() },
        virtual_desktop_id: "{E21F6F29-76FD-4FC1-8970-17AB8AD64847}".into(),
    };
    assert!(id1.eq_cpp(&id2));
}

#[test]
fn default_monitor_id_different_instance_id_different_number() {
    let id1 = WorkAreaId {
        monitor_id: MonitorId { monitor: 0, device_id: DeviceId { id: "Default_Monitor".into(), instance_id: "instance-id".into(), number: 1 }, serial_number: "".into() },
        virtual_desktop_id: "{E21F6F29-76FD-4FC1-8970-17AB8AD64847}".into(),
    };
    let id2 = WorkAreaId {
        monitor_id: MonitorId { monitor: 0, device_id: DeviceId { id: "Default_Monitor".into(), instance_id: "another-instance-id".into(), number: 2 }, serial_number: "".into() },
        virtual_desktop_id: "{E21F6F29-76FD-4FC1-8970-17AB8AD64847}".into(),
    };
    assert!(!id1.eq_cpp(&id2));
}

#[test]
fn default_monitor_id_same_instance_id() {
    let id1 = WorkAreaId {
        monitor_id: MonitorId { monitor: 0, device_id: DeviceId { id: "Default_Monitor".into(), instance_id: "instance-id".into(), number: 0 }, serial_number: "".into() },
        virtual_desktop_id: "{E21F6F29-76FD-4FC1-8970-17AB8AD64847}".into(),
    };
    let id2 = WorkAreaId {
        monitor_id: MonitorId { monitor: 0, device_id: DeviceId { id: "Default_Monitor".into(), instance_id: "instance-id".into(), number: 0 }, serial_number: "".into() },
        virtual_desktop_id: "{E21F6F29-76FD-4FC1-8970-17AB8AD64847}".into(),
    };
    assert!(id1.eq_cpp(&id2));
}

#[test]
fn different_id() {
    let id1 = WorkAreaId {
        monitor_id: MonitorId { monitor: 0, device_id: DeviceId { id: "device-1".into(), instance_id: "instance-id".into(), number: 0 }, serial_number: "".into() },
        virtual_desktop_id: "{E21F6F29-76FD-4FC1-8970-17AB8AD64847}".into(),
    };
    let id2 = WorkAreaId {
        monitor_id: MonitorId { monitor: 0, device_id: DeviceId { id: "device-2".into(), instance_id: "instance-id".into(), number: 0 }, serial_number: "".into() },
        virtual_desktop_id: "{E21F6F29-76FD-4FC1-8970-17AB8AD64847}".into(),
    };
    assert!(!id1.eq_cpp(&id2));
}

#[test]
fn same_id_different_serial_numbers() {
    let id1 = WorkAreaId {
        monitor_id: MonitorId { monitor: 0, device_id: DeviceId { id: "device-1".into(), instance_id: "instance-id-1".into(), number: 0 }, serial_number: "serial-number-1".into() },
        virtual_desktop_id: "{E21F6F29-76FD-4FC1-8970-17AB8AD64847}".into(),
    };
    let id2 = WorkAreaId {
        monitor_id: MonitorId { monitor: 0, device_id: DeviceId { id: "device-1".into(), instance_id: "instance-id-2".into(), number: 0 }, serial_number: "serial-number-2".into() },
        virtual_desktop_id: "{E21F6F29-76FD-4FC1-8970-17AB8AD64847}".into(),
    };
    assert!(!id1.eq_cpp(&id2));
}

#[test]
fn different_id_same_serial_numbers() {
    let id1 = WorkAreaId {
        monitor_id: MonitorId { monitor: 0, device_id: DeviceId { id: "device-1".into(), instance_id: "instance-id-1".into(), number: 0 }, serial_number: "serial-number-1".into() },
        virtual_desktop_id: "{E21F6F29-76FD-4FC1-8970-17AB8AD64847}".into(),
    };
    let id2 = WorkAreaId {
        monitor_id: MonitorId { monitor: 0, device_id: DeviceId { id: "device-2".into(), instance_id: "instance-id-2".into(), number: 0 }, serial_number: "serial-number-1".into() },
        virtual_desktop_id: "{E21F6F29-76FD-4FC1-8970-17AB8AD64847}".into(),
    };
    assert!(!id1.eq_cpp(&id2));
}

#[test]
fn monitor_reconnect() {
    let id1 = WorkAreaId {
        monitor_id: MonitorId { monitor: 0, device_id: DeviceId { id: "device".into(), instance_id: "4&125707d6&0&UID1".into(), number: 1 }, serial_number: "serial-number".into() },
        virtual_desktop_id: "{E21F6F29-76FD-4FC1-8970-17AB8AD64847}".into(),
    };
    let id2 = WorkAreaId {
        monitor_id: MonitorId { monitor: 0, device_id: DeviceId { id: "device".into(), instance_id: "4&125707d6&0&UID2".into(), number: 1 }, serial_number: "serial-number".into() },
        virtual_desktop_id: "{E21F6F29-76FD-4FC1-8970-17AB8AD64847}".into(),
    };
    assert!(id1.eq_cpp(&id2));
}

#[test]
fn same_monitor_models() {
    let id1 = WorkAreaId {
        monitor_id: MonitorId { monitor: 0, device_id: DeviceId { id: "device".into(), instance_id: "4&125707d6&0&UID1".into(), number: 1 }, serial_number: "serial-number".into() },
        virtual_desktop_id: "{E21F6F29-76FD-4FC1-8970-17AB8AD64847}".into(),
    };
    let id2 = WorkAreaId {
        monitor_id: MonitorId { monitor: 0, device_id: DeviceId { id: "device".into(), instance_id: "4&125707d6&0&UID2".into(), number: 2 }, serial_number: "serial-number".into() },
        virtual_desktop_id: "{E21F6F29-76FD-4FC1-8970-17AB8AD64847}".into(),
    };
    assert!(!id1.eq_cpp(&id2));
}

#[test]
fn serial_number_not_found_error() {
    let id1 = WorkAreaId {
        monitor_id: MonitorId { monitor: 0, device_id: DeviceId { id: "device".into(), instance_id: "instance-id".into(), number: 1 }, serial_number: "serial-number".into() },
        virtual_desktop_id: "{E21F6F29-76FD-4FC1-8970-17AB8AD64847}".into(),
    };
    let id2 = WorkAreaId {
        monitor_id: MonitorId { monitor: 0, device_id: DeviceId { id: "device".into(), instance_id: "instance-id".into(), number: 1 }, serial_number: "".into() },
        virtual_desktop_id: "{E21F6F29-76FD-4FC1-8970-17AB8AD64847}".into(),
    };
    assert!(id1.eq_cpp(&id2));
}


#[test]
fn zone_index_from_window_unknown() {
    let mut lw = LayoutAssignedWindows::new();
    lw.assign(100, vec![0]);
    let actual = lw.get_zone_index_set_from_window(101);
    assert_eq!(actual, Vec::<i64>::new());
}

#[test]
fn zone_index_from_window_null() {
    let mut lw = LayoutAssignedWindows::new();
    lw.assign(102, vec![0]);
    let actual = lw.get_zone_index_set_from_window(0);
    assert_eq!(actual, Vec::<i64>::new());
}

#[test]
fn assign() {
    let window = 103;
    let mut lw = LayoutAssignedWindows::new();
    lw.assign(window, vec![1, 2, 3]);
    assert_eq!(lw.get_zone_index_set_from_window(window), vec![1, 2, 3]);
}

#[test]
fn assign_empty() {
    let window = 104;
    let mut lw = LayoutAssignedWindows::new();
    lw.assign(window, vec![]);
    assert_eq!(lw.get_zone_index_set_from_window(window), Vec::<i64>::new());
}

#[test]
fn assign_several_times_same_window() {
    let mut lw = LayoutAssignedWindows::new();
    let window = 105;

    lw.assign(window, vec![0]);
    assert_eq!(lw.get_zone_index_set_from_window(window), vec![0]);

    lw.assign(window, vec![1]);
    assert_eq!(lw.get_zone_index_set_from_window(window), vec![1]);

    lw.assign(window, vec![2]);
    assert_eq!(lw.get_zone_index_set_from_window(window), vec![2]);
}

#[test]
fn dismiss_window() {
    let mut lw = LayoutAssignedWindows::new();
    let window = 106;
    lw.assign(window, vec![0]);
    lw.dismiss(window);
    assert_eq!(lw.get_zone_index_set_from_window(window), Vec::<i64>::new());
}

#[test]
fn empty() {
    let mut lw = LayoutAssignedWindows::new();
    let window = 107;
    lw.assign(window, vec![0]);
    assert!(!lw.is_zone_empty(0));
    assert!(lw.is_zone_empty(1));
}

#[test]
fn assigned_windows_other_window_untouched() {
    let mut lw = LayoutAssignedWindows::new();
    lw.assign(1, vec![4, 5]);
    lw.assign(2, vec![6]);
    lw.dismiss(2);
    assert_eq!(lw.get_zone_index_set_from_window(1), vec![4, 5]);
    assert!(lw.is_zone_empty(6));
    assert!(!lw.is_zone_empty(5));
}

#[test]
fn guid_valid() {
    assert!(is_valid_guid("{33A2B101-06E0-437B-A61E-CDBECF502906}"));
}

#[test]
fn guid_invalid_form() {
    assert!(!is_valid_guid("33A2B101-06E0-437B-A61E-CDBECF502906"));
}

#[test]
fn guid_invalid_symbols() {
    assert!(!is_valid_guid("{33A2B101-06E0-437B-A61E-CDBECF50290*}"));
}

#[test]
fn guid_invalid() {
    assert!(!is_valid_guid("guid"));
}

#[test]
fn device_id_valid() {
    assert!(DeviceIdData::is_valid_device_id("AOC2460#4&fe3a015&0&UID65793_1920_1200_{39B25DD2-130D-4B5D-8851-4791D66B1539}"));
}

#[test]
fn device_id_without_hash_in_name() {
    assert!(DeviceIdData::is_valid_device_id("LOCALDISPLAY_5120_1440_{00000000-0000-0000-0000-000000000000}"));
}

#[test]
fn device_id_without_hash_in_name_but_with_underscores() {
    assert!(!DeviceIdData::is_valid_device_id("LOCAL_DISPLAY_5120_1440_{00000000-0000-0000-0000-000000000000}"));
}

#[test]
fn device_id_with_underscores_in_name() {
    assert!(DeviceIdData::is_valid_device_id("Default_Monitor#1&1f0c3c2f&0&UID256_5120_1440_{00000000-0000-0000-0000-000000000000}"));
}

#[test]
fn device_id_invalid_format() {
    assert!(!DeviceIdData::is_valid_device_id("_1920_1200_{39B25DD2-130D-4B5D-8851-4791D66B1539}"));
}

#[test]
fn device_id_invalid_format2() {
    assert!(!DeviceIdData::is_valid_device_id("AOC2460#4&fe3a015&0&UID65793_19201200_{39B25DD2-130D-4B5D-8851-4791D66B1539}"));
}

#[test]
fn device_id_invalid_decimals() {
    assert!(!DeviceIdData::is_valid_device_id("AOC2460#4&fe3a015&0&UID65793_aaaa_1200_{39B25DD2-130D-4B5D-8851-4791D66B1539}"));
}

#[test]
fn device_id_invalid_decimals2() {
    assert!(!DeviceIdData::is_valid_device_id("AOC2460#4&fe3a015&0&UID65793_19a0_1200_{39B25DD2-130D-4B5D-8851-4791D66B1539}"));
}

#[test]
fn device_id_signed_sizes_accepted() {
    assert!(DeviceIdData::is_valid_device_id("DISPLAY_+1920_-1200_{39B25DD2-130D-4B5D-8851-4791D66B1539}"));
    assert!(!DeviceIdData::is_valid_device_id("DISPLAY_99999999999_1200_{39B25DD2-130D-4B5D-8851-4791D66B1539}"));
}

#[test]
fn test_parse_device_id_01() {
    let input = "AOC0001#5&37ac4db&0&UID160002_1536_960_{E0A2904E-889C-4532-95B1-28FE15C16F66}";
    let actual = DeviceIdData::parse_device_id(input).unwrap();
    assert_eq!(actual.device_name, "AOC0001#5&37ac4db&0&UID160002");
    assert_eq!(actual.width, 1536);
    assert_eq!(actual.height, 960);
    assert_eq!(actual.virtual_desktop_id, "{E0A2904E-889C-4532-95B1-28FE15C16F66}");
    assert_eq!(actual.monitor_id, "");
}

#[test]
fn test_parse_device_id_02() {
    let input = "AOC0001#5&37ac4db&0&UID160002_1536_960_{E0A2904E-889C-4532-95B1-28FE15C16F66}_monitorId";
    let actual = DeviceIdData::parse_device_id(input).unwrap();
    assert_eq!(actual.device_name, "AOC0001#5&37ac4db&0&UID160002");
    assert_eq!(actual.width, 1536);
    assert_eq!(actual.height, 960);
    assert_eq!(actual.virtual_desktop_id, "{E0A2904E-889C-4532-95B1-28FE15C16F66}");
    assert_eq!(actual.monitor_id, "monitorId");
}

#[test]
fn test_parse_device_id_03() {
    let input = "AOC00015&37ac4db&0&UID160002_1536_960_{E0A2904E-889C-4532-95B1-28FE15C16F66}";
    let actual = DeviceIdData::parse_device_id(input).unwrap();
    assert_eq!(actual.device_name, "AOC00015&37ac4db&0&UID160002");
    assert_eq!(actual.width, 1536);
    assert_eq!(actual.height, 960);
}

#[test]
fn test_parse_device_id_invalid_01() {
    let input = "AOC00015&37ac4db&0&UID160002_1536960_{E0A2904E-889C-4532-95B1-28FE15C16F66}";
    assert!(DeviceIdData::parse_device_id(input).is_none());
}

#[test]
fn test_parse_device_id_invalid_02() {
    let input = "AOC00015&37ac4db&0&UID160002_{E0A2904E-889C-4532-95B1-28FE15C16F66}_monitorId";
    assert!(DeviceIdData::parse_device_id(input).is_none());
}

#[test]
fn test_parse_device_id_invalid_03() {
    let input = "AOC00015&37ac4db&0&UID160002_1536960_";
    assert!(DeviceIdData::parse_device_id(input).is_none());
}

#[test]
fn test_parse_device_id_invalid_04() {
    let input = "AOC00015&37ac4db&0&UID160002_1536960_{asdf}";
    assert!(DeviceIdData::parse_device_id(input).is_none());
}

#[test]
fn test_parse_device_id_invalid_05() {
    let input = "AOC00015&37ac4db&0&UID160002_15a6_960_{E0A2904E-889C-4532-95B1-28FE15C16F66}";
    assert!(DeviceIdData::parse_device_id(input).is_none());
}

#[test]
fn test_parse_device_id_invalid_06() {
    let input = "AOC00015&37ac4db&0&UID160002_15a6_960_monitorId_{E0A2904E-889C-4532-95B1-28FE15C16F66}";
    assert!(DeviceIdData::parse_device_id(input).is_none());
}

#[test]
fn parse_device_id_monitor_id_keeps_underscores() {
    let input = "NAME_10_20_{E0A2904E-889C-4532-95B1-28FE15C16F66}_a_b";
    let actual = DeviceIdData::parse_device_id(input).unwrap();
    assert_eq!(actual.device_name, "NAME");
    assert_eq!(actual.width, 10);
    assert_eq!(actual.height, 20);
    assert_eq!(actual.monitor_id, "a_b");
}

#[test]
fn layout_hotkeys_parse() {
    let json = obj(vec![(
        "layout-hotkeys",
        arr(vec![
            obj(vec![("layout-id", s("{33A2B101-06E0-437B-A61E-CDBECF502906}")), ("key", n(1))]),
            obj(vec![("layout-id", s("{33A2B101-06E0-437B-A61E-CDBECF502907}")), ("key", n(2))]),
        ]),
    )]);
    let mut hotkeys = LayoutHotkeys::new();
    hotkeys.load_from_json(&json);
    assert_eq!(hotkeys.get_hotkeys_count(), 2);
    assert_eq!(hotkeys.get_layout_id(1).unwrap(), "{33A2B101-06E0-437B-A61E-CDBECF502906}");
    assert_eq!(hotkeys.get_layout_id(2).unwrap(), "{33A2B101-06E0-437B-A61E-CDBECF502907}");
}

#[test]
fn layout_hotkeys_parse_empty() {
    let json = obj(vec![("layout-hotkeys", arr(vec![]))]);
    let mut hotkeys = LayoutHotkeys::new();
    hotkeys.load_from_json(&json);
    assert_eq!(hotkeys.get_hotkeys_count(), 0);
}

#[test]
fn layout_hotkeys_no_file() {
    let json = obj(vec![]);
    let mut hotkeys = LayoutHotkeys::new();
    hotkeys.load_from_json(&json);
    assert_eq!(hotkeys.get_hotkeys_count(), 0);
}

#[test]
fn layout_hotkeys_skip_bad_entries_and_override() {
    let json = obj(vec![(
        "layout-hotkeys",
        arr(vec![
            obj(vec![("layout-id", s("a")), ("key", n(3))]),
            obj(vec![("layout-id", s("")), ("key", n(4))]),
            obj(vec![("layout-id", s("b")), ("key", n(-1))]),
            obj(vec![("layout-id", s("c")), ("key", n(3))]),
        ]),
    )]);
    let mut hotkeys = LayoutHotkeys::new();
    hotkeys.load_from_json(&json);
    assert_eq!(hotkeys.get_hotkeys_count(), 1);
    assert_eq!(hotkeys.get_layout_id(3).unwrap(), "c");
    assert!(hotkeys.get_layout_id(4).is_none());
}

#[test]
fn default_layouts_parse() {
    let json = obj(vec![(
        "default-layouts",
        arr(vec![
            obj(vec![
                ("monitor-configuration-type", s("horizontal")),
                ("layout", obj(vec![("uuid", s("{ACE817FD-2C51-4E13-903A-84CAB86FD17C}")), ("type", s("custom"))])),
            ]),
            obj(vec![
                ("monitor-configuration-type", s("vertical")),
                (
                    "layout",
                    obj(vec![
                        ("type", s("grid")),
                        ("show-spacing", b(true)),
                        ("spacing", n(1)),
                        ("zone-count", n(4)),
                        ("sensitivity-radius", n(30)),
                    ]),
                ),
            ]),
        ]),
    )]);
    let mut dl = DefaultLayouts::new();
    dl.load_from_json(&json);

    let horizontal = dl.get_default_layout(MonitorConfigurationType::Horizontal);
    assert_eq!(horizontal.uuid, "{ACE817FD-2C51-4E13-903A-84CAB86FD17C}");
    assert_eq!(horizontal.layout_type, ZoneSetLayoutType::Custom);

    let vertical = dl.get_default_layout(MonitorConfigurationType::Vertical);
    assert_eq!(vertical.uuid, "");
    assert_eq!(vertical.layout_type, ZoneSetLayoutType::Grid);
    assert!(vertical.show_spacing);
    assert_eq!(vertical.spacing, 1);
    assert_eq!(vertical.zone_count, 4);
    assert_eq!(vertical.sensitivity_radius, 30);
}

#[test]
fn default_layouts_parse_empty() {
    let json = obj(vec![("default-layouts", arr(vec![]))]);
    let mut dl = DefaultLayouts::new();
    dl.load_from_json(&json);

    let h = dl.get_default_layout(MonitorConfigurationType::Horizontal);
    assert_eq!(h.layout_type, ZoneSetLayoutType::PriorityGrid);
    assert_eq!(h.zone_count, defaults::ZONE_COUNT);

    let v = dl.get_default_layout(MonitorConfigurationType::Vertical);
    assert_eq!(v.layout_type, ZoneSetLayoutType::Rows);
    assert_eq!(v.zone_count, defaults::ZONE_COUNT);
}

#[test]
fn default_layouts_no_file() {
    let json = obj(vec![]);
    let mut dl = DefaultLayouts::new();
    dl.load_from_json(&json);

    let h = dl.get_default_layout(MonitorConfigurationType::Horizontal);
    assert_eq!(h.layout_type, ZoneSetLayoutType::PriorityGrid);

    let v = dl.get_default_layout(MonitorConfigurationType::Vertical);
    assert_eq!(v.layout_type, ZoneSetLayoutType::Rows);
}

#[test]
fn custom_layouts_parse() {
    let json = obj(vec![(
        "custom-layouts",
        arr(vec![
            obj(vec![
                ("uuid", s("{ACE817FD-2C51-4E13-903A-84CAB86FD17C}")),
                ("name", s("Custom canvas layout")),
                ("type", s("canvas")),
                (
                    "info",
                    obj(vec![
                        ("ref-width", n(1920)),
                        ("ref-height", n(1080)),
                        (
                            "zones",
                            arr(vec![
                                obj(vec![("X", n(0)), ("Y", n(0)), ("width", n(1140)), ("height", n(1040))]),
                                obj(vec![("X", n(1140)), ("Y", n(649)), ("width", n(780)), ("height", n(391))]),
                            ]),
                        ),
                    ]),
                ),
            ]),
            obj(vec![
                ("uuid", s("{ACE817FD-2C51-4E13-903A-84CAB86FD17D}")),
                ("name", s("Custom grid layout")),
                ("type", s("grid")),
                (
                    "info",
                    obj(vec![
                        ("rows", n(2)),
                        ("columns", n(3)),
                        ("rows-percentage", arr(vec![n(5000), n(5000)])),
                        ("columns-percentage", arr(vec![n(3333), n(5000), n(1667)])),
                        (
                            "cell-child-map",
                            arr(vec![arr(vec![n(0), n(1), n(2)]), arr(vec![n(3), n(1), n(4)])]),
                        ),
                        ("sensitivity-radius", n(20)),
                        ("show-spacing", b(false)),
                        ("spacing", n(16)),
                    ]),
                ),
            ]),
        ]),
    )]);
    let mut store = CustomLayoutsStore::new();
    store.load_from_json(&json);
    assert_eq!(store.get_all_layouts().len(), 2);
    assert!(store.get_layout("{ACE817FD-2C51-4E13-903A-84CAB86FD17C}").is_some());
    assert!(store.get_layout("{ACE817FD-2C51-4E13-903A-84CAB86FD17D}").is_some());
}

#[test]
fn custom_layouts_parse_empty() {
    let json = obj(vec![("custom-layouts", arr(vec![]))]);
    let mut store = CustomLayoutsStore::new();
    store.load_from_json(&json);
    assert!(store.get_all_layouts().is_empty());
}

#[test]
fn custom_layouts_no_file() {
    let json = obj(vec![]);
    let mut store = CustomLayoutsStore::new();
    store.load_from_json(&json);
    assert!(store.get_all_layouts().is_empty());
}

#[test]
fn applied_layouts_parse() {
    let json = obj(vec![(
        "applied-layouts",
        arr(vec![obj(vec![
            (
                "device",
                obj(vec![
                    ("monitor", s("DELA026#5&10a58c63&0&UID16777488")),
                    ("virtual-desktop", s("{61FA9FC0-26A6-4B37-A834-491C148DFC57}")),
                ]),
            ),
            (
                "applied-layout",
                obj(vec![
                    ("uuid", s("{ACE817FD-2C51-4E13-903A-84CAB86FD17C}")),
                    ("type", s("rows")),
                    ("show-spacing", b(true)),
                    ("spacing", n(3)),
                    ("zone-count", n(4)),
                    ("sensitivity-radius", n(22)),
                ]),
            ),
        ])]),
    )]);
    let mut al = AppliedLayouts::new();
    al.load_from_json(&json);
    assert_eq!(al.get_applied_layout_map().len(), 1);
}

#[test]
fn applied_layouts_parse_empty() {
    let json = obj(vec![("applied-layouts", arr(vec![]))]);
    let mut al = AppliedLayouts::new();
    al.load_from_json(&json);
    assert_eq!(al.get_applied_layout_map().len(), 0);
}

#[test]
fn applied_layouts_no_file() {
    let json = obj(vec![]);
    let mut al = AppliedLayouts::new();
    al.load_from_json(&json);
    assert_eq!(al.get_applied_layout_map().len(), 0);
}

#[test]
fn applied_layouts_key_joins_monitor_and_desktop() {
    let json = obj(vec![(
        "applied-layouts",
        arr(vec![obj(vec![
            ("device", obj(vec![("monitor", s("M")), ("virtual-desktop", s("V"))])),
            ("applied-layout", obj(vec![("type", s("grid"))])),
        ])]),
    )]);
    let mut al = AppliedLayouts::new();
    al.load_from_json(&json);
    let l = al.get_device_layout("M_V").unwrap();
    assert_eq!(l.layout_type, ZoneSetLayoutType::Grid);
    assert_eq!(l.zone_count, defaults::ZONE_COUNT);
    assert_eq!(l.spacing, defaults::SPACING);
}

#[test]
fn applied_layouts_apply_layout() {
    let mut al = AppliedLayouts::new();
    let layout = LayoutData {
        uuid: "{ACE817FD-2C51-4E13-903A-84CAB86FD17C}".into(),
        layout_type: ZoneSetLayoutType::Grid,
        ..LayoutData::default()
    };
    al.apply_layout("test-key".into(), layout.clone());
    assert!(al.is_layout_applied("test-key"));
    assert_eq!(al.get_device_layout("test-key"), Some(&layout));
}

#[test]
fn applied_layouts_apply_replaces_and_keeps_others() {
    let mut al = AppliedLayouts::new();
    let first = LayoutData { zone_count: 1, ..LayoutData::default() };
    let second = LayoutData { zone_count: 2, ..LayoutData::default() };
    let other = LayoutData { zone_count: 5, ..LayoutData::default() };
    al.apply_layout("k".into(), first);
    al.apply_layout("o".into(), other.clone());
    al.apply_layout("k".into(), second.clone());
    assert_eq!(al.get_applied_layout_map().len(), 2);
    assert_eq!(al.get_device_layout("k"), Some(&second));
    assert_eq!(al.get_device_layout("o"), Some(&other));
    assert!(!al.is_layout_applied("x"));
}

#[test]
fn layout_templates_parse() {
    let json = obj(vec![(
        "layout-templates",
        arr(vec![
            obj(vec![
                ("type", s("blank")),
                ("show-spacing", b(false)),
                ("spacing", n(0)),
                ("zone-count", n(0)),
                ("sensitivity-radius", n(0)),
            ]),
            obj(vec![
                ("type", s("grid")),
                ("show-spacing", b(true)),
                ("spacing", n(-10)),
                ("zone-count", n(4)),
                ("sensitivity-radius", n(30)),
            ]),
        ]),
    )]);
    let mut store = LayoutTemplatesStore::new();
    store.load_from_json(&json);
    assert_eq!(store.get_templates().len(), 2);
    assert_eq!(store.get_templates()[0].layout_type, ZoneSetLayoutType::Blank);
    assert_eq!(store.get_templates()[1].layout_type, ZoneSetLayoutType::Grid);
    assert_eq!(store.get_templates()[1].zone_count, 4);
}

#[test]
fn layout_templates_parse_empty() {
    let json = obj(vec![("layout-templates", arr(vec![]))]);
    let mut store = LayoutTemplatesStore::new();
    store.load_from_json(&json);
    assert!(store.get_templates().is_empty());
}

#[test]
fn layout_templates_no_file() {
    let json = obj(vec![]);
    let mut store = LayoutTemplatesStore::new();
    store.load_from_json(&json);
    assert!(store.get_templates().is_empty());
}

#[test]
fn zone_set_layout_type_to_string() {
    assert_eq!(ZoneSetLayoutType::Blank.to_string_repr(), "blank");
    assert_eq!(ZoneSetLayoutType::Focus.to_string_repr(), "focus");
    assert_eq!(ZoneSetLayoutType::Columns.to_string_repr(), "columns");
    assert_eq!(ZoneSetLayoutType::Rows.to_string_repr(), "rows");
    assert_eq!(ZoneSetLayoutType::Grid.to_string_repr(), "grid");
    assert_eq!(ZoneSetLayoutType::PriorityGrid.to_string_repr(), "priority-grid");
    assert_eq!(ZoneSetLayoutType::Custom.to_string_repr(), "custom");
}

#[test]
fn zone_set_layout_type_from_string() {
    assert_eq!(ZoneSetLayoutType::from_string("blank"), Some(ZoneSetLayoutType::Blank));
    assert_eq!(ZoneSetLayoutType::from_string("focus"), Some(ZoneSetLayoutType::Focus));
    assert_eq!(ZoneSetLayoutType::from_string("columns"), Some(ZoneSetLayoutType::Columns));
    assert_eq!(ZoneSetLayoutType::from_string("rows"), Some(ZoneSetLayoutType::Rows));
    assert_eq!(ZoneSetLayoutType::from_string("grid"), Some(ZoneSetLayoutType::Grid));
    assert_eq!(ZoneSetLayoutType::from_string("priority-grid"), Some(ZoneSetLayoutType::PriorityGrid));
    assert_eq!(ZoneSetLayoutType::from_string("custom"), Some(ZoneSetLayoutType::Custom));
    assert_eq!(ZoneSetLayoutType::from_string("invalid"), None);
}

#[test]
fn zone_set_layout_type_roundtrip() {
    for t in [
        ZoneSetLayoutType::Blank,
        ZoneSetLayoutType::Focus,
        ZoneSetLayoutType::Columns,
        ZoneSetLayoutType::Rows,
        ZoneSetLayoutType::Grid,
        ZoneSetLayoutType::PriorityGrid,
        ZoneSetLayoutType::Custom,
    ] {
        assert_eq!(ZoneSetLayoutType::from_string(t.to_string_repr()), Some(t));
    }
}

#[test]
fn work_area_comparison_is_symmetric() {
    let a = WorkAreaId {
        monitor_id: MonitorId { monitor: 0, device_id: DeviceId { id: "d".into(), instance_id: "i1".into(), number: 1 }, serial_number: "".into() },
        virtual_desktop_id: "v".into(),
    };
    let b = WorkAreaId {
        monitor_id: MonitorId { monitor: 0, device_id: DeviceId { id: "d".into(), instance_id: "i2".into(), number: 1 }, serial_number: "s".into() },
        virtual_desktop_id: "v".into(),
    };
    assert_eq!(a.eq_cpp(&b), b.eq_cpp(&a));
    assert!(a.eq_cpp(&a));
    assert!(DeviceId { id: "Default_Monitor".into(), instance_id: "".into(), number: 0 }.is_default());
}
