use powertoys_core::fancyzones::data::ZoneSetLayoutType;
use powertoys_core::fancyzones::keyboard_snap::{snap_by_index, SnapDirection};
use powertoys_core::fancyzones::layout::{Layout, LayoutData};
use powertoys_core::fancyzones::rect::{Point, Rect};
use powertoys_core::fancyzones::settings::OverlappingZonesAlgorithm;
use powertoys_core::fancyzones::util::{
    hex_to_rgb, order_monitors, prepare_rect_for_cycling, VK_DOWN, VK_LEFT, VK_RIGHT, VK_UP,
};
use powertoys_core::fancyzones::zone::{Zone, ZoneIndexSetBitmask, MAX_NEGATIVE_SPACING};

type ZoneIndex = i64;
type ZoneIndexSet = Vec<i64>;



#[test]
fn rect_width_height() {
    let r = Rect::new(10, 20, 110, 220);
    assert_eq!(r.width(), 100);
    assert_eq!(r.height(), 200);
}

#[test]
fn rect_area() {
    let r = Rect::new(0, 0, 100, 50);
    assert_eq!(r.area(), 5000);
}

#[test]
fn rect_area_zero() {
    let r = Rect::new(0, 0, 0, 0);
    assert_eq!(r.area(), 0);
}

#[test]
fn rect_area_negative_dimensions() {
    let r = Rect::new(100, 100, 50, 50);
    assert_eq!(r.area(), 0);
}

#[test]
fn rect_contains_point() {
    let r = Rect::new(0, 0, 100, 100);
    assert!(r.contains_point(0, 0));
    assert!(r.contains_point(50, 50));
    assert!(r.contains_point(99, 99));
    assert!(!r.contains_point(100, 100));
    assert!(!r.contains_point(-1, 0));
}



// ---- Zone tests (from Zone.Spec.cpp) ----

#[test]
fn test_create_zone() {
    let rect = Rect::new(10, 10, 200, 200);
    let zone = Zone::new(rect, 1);
    assert!(zone.is_valid());
    assert_eq!(zone.get_zone_rect(), rect);
}

#[test]
fn test_create_zone_zero_rect() {
    let rect = Rect::new(0, 0, 0, 0);
    let zone = Zone::new(rect, 1);
    assert!(zone.is_valid());
    assert_eq!(zone.get_zone_rect(), rect);
}

#[test]
fn get_set_id() {
    let zone_id: ZoneIndex = 123;
    let zone = Zone::new(Rect::new(10, 10, 200, 200), zone_id);
    assert!(zone.is_valid());
    assert_eq!(zone.id(), zone_id);
}

#[test]
fn invalid_id() {
    let zone = Zone::new(Rect::new(10, 10, 200, 200), -1);
    assert!(!zone.is_valid());
}

#[test]
fn invalid_rect() {
    let zone = Zone::new(Rect::new(100, 100, 99, 101), 1);
    assert!(!zone.is_valid());
}

#[test]
fn zone_area() {
    let zone = Zone::new(Rect::new(0, 0, 100, 50), 0);
    assert_eq!(zone.get_zone_area(), 5000);
}

#[test]
fn zone_area_inverted() {
    let zone = Zone::new(Rect::new(100, 100, 50, 50), 0);
    assert_eq!(zone.get_zone_area(), 0);
}

// ---- ZoneIndexSetBitmask tests (from Layout.Spec.cpp ZoneIndexSetUnitTests) ----

#[test]
fn bitmask_from_index_set_test() {
    let set: ZoneIndexSet = vec![0, 64];
    let bitmask = ZoneIndexSetBitmask::from_index_set(&set);
    assert_eq!(bitmask.part1, 1u64);
    assert_eq!(bitmask.part2, 1u64);
}

#[test]
fn bitmask_to_index_set() {
    let bitmask = ZoneIndexSetBitmask { part1: 1, part2: 1 };
    let set = bitmask.to_index_set();
    assert_eq!(set.len(), 2);
    assert_eq!(set[0], 0);
    assert_eq!(set[1], 64);
}

#[test]
fn bitmask_convert_test() {
    let set: ZoneIndexSet = vec![53, 54, 55, 65, 66, 67];
    let bitmask = ZoneIndexSetBitmask::from_index_set(&set);
    let actual = bitmask.to_index_set();
    assert_eq!(set.len(), actual.len());
    for i in 0..set.len() {
        assert_eq!(set[i], actual[i]);
    }
}

#[test]
fn bitmask_convert2_test() {
    let set: ZoneIndexSet = (0..128).collect();
    let bitmask = ZoneIndexSetBitmask::from_index_set(&set);
    let actual = bitmask.to_index_set();
    assert_eq!(set.len(), actual.len());
    for i in 0..set.len() {
        assert_eq!(set[i], actual[i]);
    }
}




fn check_zones(layout: &Layout, layout_type: ZoneSetLayoutType, expected_count: usize, rect: Rect) {
    let zones = layout.zones();
    assert_eq!(expected_count, zones.len(), "zone count mismatch for {:?}", layout_type);

    for zone in zones.iter() {
        let r = zone.get_zone_rect();
        assert!(r.left >= 0, "left border is less than zero");
        assert!(r.top >= 0, "top border is less than zero");
        assert!(r.left < r.right, "rect.left >= rect.right");
        assert!(r.top < r.bottom, "rect.top >= rect.bottom");

        if layout_type != ZoneSetLayoutType::Focus {
            assert!(r.right <= rect.right, "right border ({}) > work area right ({})", r.right, rect.right);
            assert!(r.bottom <= rect.bottom, "bottom border ({}) > work area bottom ({})", r.bottom, rect.bottom);
        }
    }
}

fn work_area_rects() -> Vec<Rect> {
    vec![
    Rect { left: 0, top: 0, right: 1024, bottom: 768 },
    Rect { left: 0, top: 0, right: 1280, bottom: 720 },
    Rect { left: 0, top: 0, right: 1280, bottom: 800 },
    Rect { left: 0, top: 0, right: 1280, bottom: 1024 },
    Rect { left: 0, top: 0, right: 1366, bottom: 768 },
    Rect { left: 0, top: 0, right: 1440, bottom: 900 },
    Rect { left: 0, top: 0, right: 1536, bottom: 864 },
    Rect { left: 0, top: 0, right: 1600, bottom: 900 },
    Rect { left: 0, top: 0, right: 1920, bottom: 1080 },
    ]
}

// ---- LayoutUnitTests (from Layout.Spec.cpp) ----

#[test]
fn test_create_layout() {
    let data = LayoutData {
        uuid: "{F762BAD6-DAA1-4997-9497-E11DFEB72F21}".into(),
        layout_type: ZoneSetLayoutType::Grid,
        show_spacing: true,
        spacing: 17,
        zone_count: 4,
        sensitivity_radius: 33,
    };
    let layout = Layout::new(data.clone());
    assert_eq!(layout.id(), data.uuid);
    assert_eq!(layout.layout_type(), data.layout_type);
}

#[test]
fn empty_zones() {
    let data = LayoutData {
        uuid: "{F762BAD6-DAA1-4997-9497-E11DFEB72F21}".into(),
        layout_type: ZoneSetLayoutType::Grid,
        show_spacing: true,
        spacing: 17,
        zone_count: 4,
        sensitivity_radius: 33,
    };
    let layout = Layout::new(data);
    assert_eq!(layout.zones().len(), 0);
}

#[test]
fn zone_from_point_empty() {
    let data = LayoutData {
        uuid: "".into(),
        layout_type: ZoneSetLayoutType::Grid,
        show_spacing: true,
        spacing: 17,
        zone_count: 4,
        sensitivity_radius: 33,
    };
    let layout = Layout::new(data);
    let actual = layout.zones_from_point(Point::new(0, 0), OverlappingZonesAlgorithm::Smallest);
    assert_eq!(actual.len(), 0);
}

#[test]
fn zone_from_point_inner() {
    let data = LayoutData {
        uuid: "".into(),
        layout_type: ZoneSetLayoutType::Grid,
        show_spacing: true,
        spacing: 0,
        zone_count: 4,
        sensitivity_radius: 33,
    };
    let mut layout = Layout::new(data);
    assert!(layout.init(Rect::new(0, 0, 1920, 1080)));
    let actual = layout.zones_from_point(Point::new(1, 1), OverlappingZonesAlgorithm::Smallest);
    assert_eq!(actual.len(), 1);
}

#[test]
fn zone_from_point_border() {
    let data = LayoutData {
        uuid: "".into(),
        layout_type: ZoneSetLayoutType::Grid,
        show_spacing: true,
        spacing: 0,
        zone_count: 4,
        sensitivity_radius: 33,
    };
    let mut layout = Layout::new(data);
    assert!(layout.init(Rect::new(0, 0, 1920, 1080)));

    assert_eq!(layout.zones_from_point(Point::new(0, 0), OverlappingZonesAlgorithm::Smallest).len(), 1);
    assert_eq!(layout.zones_from_point(Point::new(1920, 1080), OverlappingZonesAlgorithm::Smallest).len(), 0);
}

#[test]
fn zone_from_point_outer() {
    let data = LayoutData {
        uuid: "".into(),
        layout_type: ZoneSetLayoutType::Grid,
        show_spacing: true,
        spacing: 17,
        zone_count: 4,
        sensitivity_radius: 33,
    };
    let mut layout = Layout::new(data);
    layout.init(Rect::new(0, 0, 1920, 1080));
    let actual = layout.zones_from_point(Point::new(1921, 1080), OverlappingZonesAlgorithm::Smallest);
    assert_eq!(actual.len(), 0);
}

#[test]
fn zone_from_point_overlapping() {
    let data = LayoutData {
        uuid: "".into(),
        layout_type: ZoneSetLayoutType::Custom,
        show_spacing: true,
        spacing: 0,
        zone_count: 4,
        sensitivity_radius: 33,
    };
    let mut layout = Layout::new(data);
    layout.init_custom(vec![
        Rect::new(0, 0, 100, 100),
        Rect::new(10, 10, 90, 90),
        Rect::new(10, 10, 150, 150),
        Rect::new(10, 10, 50, 50),
    ]);

    let zones = layout.zones_from_point(Point::new(50, 50), OverlappingZonesAlgorithm::Smallest);
    assert_eq!(zones.len(), 1);

    // Zone 3 (index 3) is the smallest overlapping zone containing (50,50): {10,10,50,50}
    let actual_zone = layout.zone(zones[0]).unwrap();
    assert_eq!(actual_zone.id(), 3);
    assert_eq!(actual_zone.get_zone_rect(), Rect::new(10, 10, 50, 50));
}

#[test]
fn zone_from_point_multizone() {
    let data = LayoutData {
        uuid: "".into(),
        layout_type: ZoneSetLayoutType::Custom,
        show_spacing: true,
        spacing: 0,
        zone_count: 4,
        sensitivity_radius: 33,
    };
    let mut layout = Layout::new(data);
    layout.init_custom(vec![
        Rect::new(0, 0, 100, 100),
        Rect::new(100, 0, 200, 100),
        Rect::new(0, 100, 100, 200),
        Rect::new(100, 100, 200, 200),
    ]);

    // Point (50, 100) is on the border of zone 0 and zone 2
    let actual = layout.zones_from_point(Point::new(50, 100), OverlappingZonesAlgorithm::Smallest);
    assert_eq!(actual.len(), 2);

    let z0 = layout.zone(actual[0]).unwrap();
    assert_eq!(z0.id(), 0);
    assert_eq!(z0.get_zone_rect(), Rect::new(0, 0, 100, 100));

    let z2 = layout.zone(actual[1]).unwrap();
    assert_eq!(z2.id(), 2);
    assert_eq!(z2.get_zone_rect(), Rect::new(0, 100, 100, 200));
}

// ---- LayoutInitUnitTests (from Layout.Spec.cpp) ----

#[test]
fn valid_values() {
    let zone_count = 10;
    for lt in ZoneSetLayoutType::template_types() {
        for rect in work_area_rects() {
            let data = LayoutData {
                uuid: "".into(),
                layout_type: lt,
                show_spacing: true,
                spacing: 10,
                zone_count,
                sensitivity_radius: 33,
            };
            let mut layout = Layout::new(data);
            assert!(layout.init(rect), "Init failed for {:?} with rect {:?}", lt, rect);
            check_zones(&layout, lt, zone_count as usize, rect);
        }
    }
}

#[test]
fn invalid_monitor_info() {
    for lt in ZoneSetLayoutType::template_types() {
        let data = LayoutData {
            uuid: "".into(),
            layout_type: lt,
            show_spacing: true,
            spacing: 10,
            zone_count: 10,
            sensitivity_radius: 33,
        };
        let mut layout = Layout::new(data);
        assert!(!layout.init(Rect::new(0, 0, 0, 0)));
    }
}

#[test]
fn zero_spacing() {
    for lt in ZoneSetLayoutType::template_types() {
        for rect in work_area_rects() {
            let data = LayoutData {
                uuid: "".into(),
                layout_type: lt,
                show_spacing: true,
                spacing: 0,
                zone_count: 10,
                sensitivity_radius: 33,
            };
            let mut layout = Layout::new(data);
            assert!(layout.init(rect), "Zero spacing init failed for {:?}", lt);
            check_zones(&layout, lt, 10, rect);
        }
    }
}

#[test]
fn large_negative_spacing() {
    for lt in ZoneSetLayoutType::template_types() {
        let data = LayoutData {
            uuid: "".into(),
            layout_type: lt,
            show_spacing: true,
            spacing: MAX_NEGATIVE_SPACING - 1,
            zone_count: 10,
            sensitivity_radius: 33,
        };
        let mut layout = Layout::new(data);

        for rect in work_area_rects() {
            let result = layout.init(rect);
            if lt == ZoneSetLayoutType::Focus {
                assert!(result, "Focus should succeed regardless of spacing");
            } else {
                assert!(!result, "Non-focus should fail with large negative spacing");
            }
        }
    }
}

#[test]
fn horizontally_big_spacing() {
    for lt in ZoneSetLayoutType::template_types() {
        for rect in work_area_rects() {
            let data = LayoutData {
                uuid: "".into(),
                layout_type: lt,
                show_spacing: true,
                spacing: rect.right,
                zone_count: 10,
                sensitivity_radius: 33,
            };
            let mut layout = Layout::new(data);
            let result = layout.init(rect);
            if lt == ZoneSetLayoutType::Focus {
                assert!(result);
            } else {
                assert!(!result);
            }
        }
    }
}

#[test]
fn vertically_big_spacing() {
    for lt in ZoneSetLayoutType::template_types() {
        for rect in work_area_rects() {
            let data = LayoutData {
                uuid: "".into(),
                layout_type: lt,
                show_spacing: true,
                spacing: rect.bottom,
                zone_count: 10,
                sensitivity_radius: 33,
            };
            let mut layout = Layout::new(data);
            let result = layout.init(rect);
            if lt == ZoneSetLayoutType::Focus {
                assert!(result);
            } else {
                assert!(!result);
            }
        }
    }
}

#[test]
fn zero_zone_count() {
    // Grid types with 0 zones should fail
    for lt in ZoneSetLayoutType::grid_types() {
        let data = LayoutData {
            uuid: "".into(),
            layout_type: lt,
            show_spacing: true,
            spacing: 17,
            zone_count: 0,
            sensitivity_radius: 33,
        };
        let mut layout = Layout::new(data);
        for rect in work_area_rects() {
            assert!(!layout.init(rect), "Grid type {:?} should fail with 0 zones", lt);
        }
    }

    // Blank with 0 zones should succeed
    {
        let data = LayoutData {
            uuid: "".into(),
            layout_type: ZoneSetLayoutType::Blank,
            show_spacing: true,
            spacing: 17,
            zone_count: 0,
            sensitivity_radius: 33,
        };
        let mut layout = Layout::new(data);
        for rect in work_area_rects() {
            assert!(layout.init(rect));
        }
    }

    // Focus with 0 zones should succeed
    {
        let data = LayoutData {
            uuid: "".into(),
            layout_type: ZoneSetLayoutType::Focus,
            show_spacing: true,
            spacing: 17,
            zone_count: 0,
            sensitivity_radius: 33,
        };
        let mut layout = Layout::new(data);
        for rect in work_area_rects() {
            assert!(layout.init(rect));
        }
    }
}

#[test]
fn big_zone_count() {
    let zone_count = 128;
    for lt in ZoneSetLayoutType::template_types() {
        for rect in work_area_rects() {
            let data = LayoutData {
                uuid: "".into(),
                layout_type: lt,
                show_spacing: true,
                spacing: 0,
                zone_count,
                sensitivity_radius: 33,
            };
            let mut layout = Layout::new(data);
            assert!(layout.init(rect), "Big zone count failed for {:?} with {:?}", lt, rect);
            check_zones(&layout, lt, zone_count as usize, rect);
        }
    }
}



// ---- Snap by index tests (from WindowKeyboardSnap.Spec.cpp) ----

#[test]
fn snap_right_no_current() {
    let result = snap_by_index(None, 4, SnapDirection::Right);
    assert_eq!(result, Some(0));
}

#[test]
fn snap_left_no_current() {
    let result = snap_by_index(None, 4, SnapDirection::Left);
    assert_eq!(result, Some(3));
}

#[test]
fn keyboard_snap_snap_right_from_first() {
    assert_eq!(snap_by_index(Some(0), 4, SnapDirection::Right), Some(1));
}

#[test]
fn snap_left_from_first() {
    assert_eq!(snap_by_index(Some(0), 4, SnapDirection::Left), Some(3));
}

#[test]
fn snap_right_from_last() {
    assert_eq!(snap_by_index(Some(3), 4, SnapDirection::Right), Some(0));
}

#[test]
fn snap_left_from_last() {
    assert_eq!(snap_by_index(Some(3), 4, SnapDirection::Left), Some(2));
}

#[test]
fn snap_right_cycle() {
    // Cycle through all zones
    let mut zone = snap_by_index(None, 4, SnapDirection::Right);
    for expected in [0, 1, 2, 3, 0] {
        assert_eq!(zone, Some(expected));
        zone = snap_by_index(zone, 4, SnapDirection::Right);
    }
}

#[test]
fn snap_left_cycle() {
    let mut zone = snap_by_index(None, 4, SnapDirection::Left);
    for expected in [3, 2, 1, 0, 3] {
        assert_eq!(zone, Some(expected));
        zone = snap_by_index(zone, 4, SnapDirection::Left);
    }
}

#[test]
fn keyboard_snap_snap_empty_zones() {
    assert_eq!(snap_by_index(None, 0, SnapDirection::Right), None);
    assert_eq!(snap_by_index(None, 0, SnapDirection::Left), None);
}




// ---- HexToRGB tests (from Util.Spec.cpp) ----

#[test]
fn test_hex_to_rgb_rgb() {
    let (r, g, b) = hex_to_rgb("#A3F6FF");
    assert_eq!((r, g, b), (163, 246, 255));
}

#[test]
fn test_hex_to_rgb_argb() {
    let (r, g, b) = hex_to_rgb("#FFA3F6FF");
    assert_eq!((r, g, b), (163, 246, 255));
}

#[test]
fn test_hex_to_rgb_invalid() {
    let (r, g, b) = hex_to_rgb("zzz");
    assert_eq!((r, g, b), (255, 255, 255));
}

// ---- Monitor ordering tests (from Util.Spec.cpp) ----

fn test_monitor_set_permutations(expected: &[(u64, Rect)]) {
    let n = expected.len();
    let mut perm: Vec<(u64, Rect)> = expected.to_vec();

    // Test all permutations (or subset for large sets)
    loop {
        let mut copy = perm.clone();
        order_monitors(&mut copy);
        for i in 0..n {
            assert_eq!(expected[i].0, copy[i].0, "Monitor ordering mismatch at position {}", i);
            assert_eq!(expected[i].1, copy[i].1, "Rect mismatch at position {}", i);
        }
        if !next_permutation_by_first(&mut perm) {
            break;
        }
    }
}

fn next_permutation_by_first(data: &mut [(u64, Rect)]) -> bool {
    let n = data.len();
    if n <= 1 {
        return false;
    }
    let mut i = n - 1;
    while i > 0 && data[i - 1].0 >= data[i].0 {
        i -= 1;
    }
    if i == 0 {
        return false;
    }
    let mut j = n - 1;
    while data[j].0 <= data[i - 1].0 {
        j -= 1;
    }
    data.swap(i - 1, j);
    data[i..].reverse();
    true
}

fn test_monitor_set_permutations_offsets(monitors: &[(u64, Rect)]) {
    let offsets = [-3000, -2000, -1000, 0, 1000, 2000, 3000];
    for &ox in &offsets {
        for &oy in &offsets {
            let shifted: Vec<(u64, Rect)> = monitors.iter().map(|(id, r)| {
                (*id, Rect::new(r.left + ox, r.top + oy, r.right + ox, r.bottom + oy))
            }).collect();
            test_monitor_set_permutations(&shifted);
        }
    }
}

#[test]
fn test_monitor_ordering_01() {
    let monitors = vec![
        (1, Rect::new(0, 200, 1600, 1100)),
        (2, Rect::new(1600, 100, 3300, 1100)),
        (3, Rect::new(3300, 0, 5100, 1100)),
    ];
    test_monitor_set_permutations_offsets(&monitors);
}

#[test]
fn test_monitor_ordering_02() {
    let monitors = vec![
        (1, Rect::new(0, 0, 1600, 900)),
        (2, Rect::new(1600, 0, 3200, 900)),
        (3, Rect::new(3200, 0, 4800, 900)),
    ];
    test_monitor_set_permutations_offsets(&monitors);
}

#[test]
fn test_monitor_ordering_03() {
    let monitors = vec![
        (1, Rect::new(0, 0, 1800, 1100)),
        (2, Rect::new(1800, 100, 3500, 1100)),
        (3, Rect::new(3500, 200, 5100, 1100)),
    ];
    test_monitor_set_permutations_offsets(&monitors);
}

#[test]
fn test_monitor_ordering_04() {
    let monitors = vec![
        (1, Rect::new(0, 0, 1600, 900)),
        (2, Rect::new(1600, 0, 3300, 1000)),
        (3, Rect::new(3300, 0, 5100, 1100)),
    ];
    test_monitor_set_permutations_offsets(&monitors);
}

#[test]
fn test_monitor_ordering_05() {
    let monitors = vec![
        (1, Rect::new(0, 0, 1600, 900)),
        (2, Rect::new(1600, 0, 3200, 900)),
        (3, Rect::new(3200, 0, 4800, 900)),
    ];
    test_monitor_set_permutations_offsets(&monitors);
}

#[test]
fn test_monitor_ordering_06() {
    let monitors = vec![
        (1, Rect::new(0, 0, 1800, 1100)),
        (2, Rect::new(1800, 0, 3500, 1000)),
        (3, Rect::new(3500, 0, 5100, 900)),
    ];
    test_monitor_set_permutations_offsets(&monitors);
}

#[test]
fn test_monitor_ordering_07() {
    let monitors = vec![
        (1, Rect::new(100, 0, 1700, 900)),
        (2, Rect::new(0, 900, 1800, 1800)),
        (3, Rect::new(100, 1800, 1700, 2700)),
    ];
    test_monitor_set_permutations_offsets(&monitors);
}

#[test]
fn test_monitor_ordering_08() {
    let monitors = vec![
        (1, Rect::new(0, 0, 600, 400)),
        (2, Rect::new(600, 0, 1200, 400)),
        (3, Rect::new(1200, 0, 1800, 400)),
        (4, Rect::new(0, 400, 900, 800)),
        (5, Rect::new(900, 400, 1800, 800)),
    ];
    test_monitor_set_permutations_offsets(&monitors);
}

#[test]
fn test_monitor_ordering_09() {
    let monitors = vec![
        (1, Rect::new(0, 0, 400, 300)),
        (2, Rect::new(400, 0, 800, 300)),
        (3, Rect::new(800, 0, 1200, 300)),
        (4, Rect::new(0, 300, 400, 600)),
        (5, Rect::new(400, 300, 800, 600)),
        (6, Rect::new(800, 300, 1200, 600)),
        (7, Rect::new(0, 600, 400, 900)),
        (8, Rect::new(400, 600, 800, 900)),
        (9, Rect::new(800, 600, 1200, 900)),
    ];

    // Test only rotations for 9 monitors (full permutation too expensive)
    for start in 0..9 {
        let mut rotated = monitors.clone();
        rotated.rotate_left(start);
        let mut copy = rotated;
        order_monitors(&mut copy);
        for i in 0..9 {
            assert_eq!(monitors[i].0, copy[i].0, "Rotation {} mismatch at {}", start, i);
            assert_eq!(monitors[i].1, copy[i].1);
        }
    }
}

#[test]
fn test_monitor_ordering_10() {
    let monitors = vec![
        (1, Rect::new(0, 0, 900, 400)),
        (2, Rect::new(900, 0, 1800, 400)),
        (3, Rect::new(0, 400, 600, 800)),
        (4, Rect::new(600, 400, 1200, 800)),
        (5, Rect::new(1200, 400, 1800, 800)),
    ];
    test_monitor_set_permutations_offsets(&monitors);
}

#[test]
fn test_monitor_ordering_11() {
    // Random/overlapping monitors — just verify determinism
    let monitors = vec![
        (1, Rect::new(410, 630, 988, 631)),
        (2, Rect::new(302, 189, 550, 714)),
        (3, Rect::new(158, 115, 657, 499)),
        (4, Rect::new(341, 340, 723, 655)),
        (5, Rect::new(433, 393, 846, 544)),
    ];

    let mut first_time = monitors.clone();
    order_monitors(&mut first_time);

    let mut perm = monitors.clone();
    loop {
        let mut copy = perm.clone();
        order_monitors(&mut copy);
        for i in 0..5 {
            assert_eq!(first_time[i].0, copy[i].0);
            assert_eq!(first_time[i].1, copy[i].1);
        }
        if !next_permutation_by_first(&mut perm) {
            break;
        }
    }
}

#[test]
fn prepare_rect_for_cycling_left() {
    let window = Rect::new(0, 0, 100, 100);
    let work_area = Rect::new(0, 0, 1920, 1080);
    let result = prepare_rect_for_cycling(window, work_area, VK_LEFT);
    assert_eq!(result, Rect::new(1920, 0, 2020, 100));
}

#[test]
fn prepare_rect_for_cycling_right() {
    let window = Rect::new(1820, 0, 1920, 100);
    let work_area = Rect::new(0, 0, 1920, 1080);
    let result = prepare_rect_for_cycling(window, work_area, VK_RIGHT);
    assert_eq!(result, Rect::new(-100, 0, 0, 100));
}


#[test]
fn layout_rows_exact_rects() {
    let data = LayoutData {
        uuid: "".into(),
        layout_type: ZoneSetLayoutType::Rows,
        show_spacing: true,
        spacing: 10,
        zone_count: 3,
        sensitivity_radius: 20,
    };
    let mut layout = Layout::new(data);
    assert!(layout.init(Rect::new(0, 0, 1000, 640)));
    let rects: Vec<Rect> = layout.zones().iter().map(|z| z.get_zone_rect()).collect();
    // total height 640 - 40 = 600, split in three rows of 200
    assert_eq!(rects, vec![Rect::new(10, 10, 990, 210), Rect::new(10, 220, 990, 420), Rect::new(10, 430, 990, 630)]);
}

#[test]
fn layout_columns_exact_rects() {
    let data = LayoutData {
        uuid: "".into(),
        layout_type: ZoneSetLayoutType::Columns,
        show_spacing: false,
        spacing: 10,
        zone_count: 3,
        sensitivity_radius: 20,
    };
    let mut layout = Layout::new(data);
    assert!(layout.init(Rect::new(0, 0, 100, 50)));
    let rects: Vec<Rect> = layout.zones().iter().map(|z| z.get_zone_rect()).collect();
    assert_eq!(rects, vec![Rect::new(0, 0, 33, 50), Rect::new(33, 0, 66, 50), Rect::new(66, 0, 100, 50)]);
}

#[test]
fn layout_focus_exact_rects() {
    let data = LayoutData {
        uuid: "".into(),
        layout_type: ZoneSetLayoutType::Focus,
        show_spacing: true,
        spacing: 10,
        zone_count: 2,
        sensitivity_radius: 20,
    };
    let mut layout = Layout::new(data);
    assert!(layout.init(Rect::new(0, 0, 1920, 1080)));
    let rects: Vec<Rect> = layout.zones().iter().map(|z| z.get_zone_rect()).collect();
    assert_eq!(rects, vec![Rect::new(100, 100, 868, 532), Rect::new(150, 150, 918, 582)]);
}

#[test]
fn layout_priority_grid_three_zones() {
    let data = LayoutData {
        uuid: "".into(),
        layout_type: ZoneSetLayoutType::PriorityGrid,
        show_spacing: false,
        spacing: 0,
        zone_count: 3,
        sensitivity_radius: 20,
    };
    let mut layout = Layout::new(data);
    assert!(layout.init(Rect::new(0, 0, 1000, 500)));
    let rects: Vec<Rect> = layout.zones().iter().map(|z| z.get_zone_rect()).collect();
    assert_eq!(rects, vec![Rect::new(0, 0, 250, 500), Rect::new(250, 0, 750, 500), Rect::new(750, 0, 1000, 500)]);
}

#[test]
fn layout_grid_five_zones_last_spans() {
    let data = LayoutData {
        uuid: "".into(),
        layout_type: ZoneSetLayoutType::Grid,
        show_spacing: false,
        spacing: 0,
        zone_count: 5,
        sensitivity_radius: 20,
    };
    let mut layout = Layout::new(data);
    assert!(layout.init(Rect::new(0, 0, 300, 200)));
    let rects: Vec<Rect> = layout.zones().iter().map(|z| z.get_zone_rect()).collect();
    // two rows of three columns; the last zone takes the last two cells
    assert_eq!(rects.len(), 5);
    assert_eq!(rects[0], Rect::new(0, 0, 99, 100));
    assert_eq!(rects[4], Rect::new(99, 100, 300, 200));
}

#[test]
fn layout_custom_kind_fails_and_keeps_zones() {
    let data = LayoutData {
        uuid: "".into(),
        layout_type: ZoneSetLayoutType::Custom,
        show_spacing: false,
        spacing: 0,
        zone_count: 1,
        sensitivity_radius: 20,
    };
    let mut layout = Layout::new(data);
    assert!(layout.init_custom(vec![Rect::new(0, 0, 10, 10)]));
    assert!(!layout.init(Rect::new(0, 0, 100, 100)));
    assert_eq!(layout.zones().len(), 1);
    assert!(!layout.init_custom(vec![Rect::new(0, 0, 10, 10), Rect::new(5, 5, 1, 1)]));
    assert_eq!(layout.zones().len(), 0);
}

#[test]
fn zone_from_point_largest_and_closest_center() {
    let data = LayoutData {
        uuid: "".into(),
        layout_type: ZoneSetLayoutType::Custom,
        show_spacing: true,
        spacing: 0,
        zone_count: 4,
        sensitivity_radius: 33,
    };
    let mut layout = Layout::new(data);
    layout.init_custom(vec![
        Rect::new(0, 0, 100, 100),
        Rect::new(10, 10, 90, 90),
        Rect::new(10, 10, 150, 150),
        Rect::new(10, 10, 50, 50),
    ]);
    assert_eq!(layout.zones_from_point(Point::new(50, 50), OverlappingZonesAlgorithm::Largest), vec![2]);
    assert_eq!(layout.zones_from_point(Point::new(30, 30), OverlappingZonesAlgorithm::ClosestCenter), vec![3]);
    assert_eq!(layout.zones_from_point(Point::new(50, 50), OverlappingZonesAlgorithm::Positional).len(), 1);
}

#[test]
fn combined_zone_range_and_rect() {
    let data = LayoutData {
        uuid: "".into(),
        layout_type: ZoneSetLayoutType::Grid,
        show_spacing: true,
        spacing: 0,
        zone_count: 4,
        sensitivity_radius: 20,
    };
    let mut layout = Layout::new(data);
    assert!(layout.init(Rect::new(0, 0, 960, 1080)));
    assert_eq!(layout.get_combined_zone_range(&vec![0], &vec![1]), vec![0, 1]);
    assert_eq!(layout.get_combined_zone_range(&vec![0], &vec![3]), vec![0, 1, 2, 3]);
    assert_eq!(layout.get_combined_zone_range(&vec![42], &vec![]), Vec::<i64>::new());
    assert_eq!(layout.get_combined_zones_rect(&vec![0, 2]), Rect::new(0, 0, 480, 1080));
    assert_eq!(layout.get_combined_zones_rect(&vec![]), Rect::new(0, 0, 0, 0));
}

#[test]
fn snap_up_down_keep_current() {
    assert_eq!(snap_by_index(Some(2), 4, SnapDirection::Up), Some(2));
    assert_eq!(snap_by_index(None, 4, SnapDirection::Down), None);
    assert_eq!(SnapDirection::Left.vk_code(), VK_LEFT);
    assert_eq!(SnapDirection::Right.vk_code(), VK_RIGHT);
    assert_eq!(SnapDirection::Up.vk_code(), VK_UP);
    assert_eq!(SnapDirection::Down.vk_code(), VK_DOWN);
}

#[test]
fn hex_to_rgb_accepts_only_six_or_eight_digits() {
    assert_eq!(hex_to_rgb("  #102030  "), (0x10, 0x20, 0x30));
    assert_eq!(hex_to_rgb("##0A0B0C"), (0x0A, 0x0B, 0x0C));
    assert_eq!(hex_to_rgb("##+0A0B0C"), (255, 255, 255));
    assert_eq!(hex_to_rgb("#12"), (255, 255, 255));
    assert_eq!(hex_to_rgb("#1234567"), (255, 255, 255));
    assert_eq!(hex_to_rgb("#123456789"), (255, 255, 255));
    assert_eq!(hex_to_rgb("#"), (255, 255, 255));
}

#[test]
fn prepare_rect_for_cycling_vertical() {
    let work_area = Rect::new(0, 0, 1920, 1080);
    assert_eq!(prepare_rect_for_cycling(Rect::new(0, 0, 100, 100), work_area, VK_UP), Rect::new(0, 1080, 100, 1180));
    assert_eq!(prepare_rect_for_cycling(Rect::new(0, 0, 100, 100), work_area, VK_DOWN), Rect::new(0, -1080, 100, -980));
    assert_eq!(prepare_rect_for_cycling(Rect::new(0, 0, 100, 100), work_area, 0), Rect::new(0, 0, 100, 100));
}

#[test]
fn bitmask_roundtrip_from_mask() {
    let bitmask = ZoneIndexSetBitmask { part1: 0b1010, part2: 1u64 << 63 };
    let set = bitmask.to_index_set();
    assert_eq!(set, vec![1, 3, 127]);
    assert_eq!(ZoneIndexSetBitmask::from_index_set(&set), bitmask);
}
