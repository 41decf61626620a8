use powertoys_core::findmymouse::shake_detector::{covered_area, Movement, ShakeDetector};

/// Whether the movements make a shake: the distance travelled reaches the
/// minimum and exceeds the diagonal of the covered area by the shake factor
/// (in percent).
fn is_shake(moves: &Vec<Movement>, shake_minimum_distance: i32, shake_factor: i32) -> bool {
    let mut distance_travelled: f64 = 0.0;
    for m in moves {
        distance_travelled += ((m.dx as f64) * (m.dx as f64) + (m.dy as f64) * (m.dy as f64)).sqrt();
    }
    if distance_travelled < shake_minimum_distance as f64 {
        return false;
    }
    let (w, h) = covered_area(moves);
    let diagonal = ((w as f64) * (w as f64) + (h as f64) * (h as f64)).sqrt();
    diagonal > 0.0 && distance_travelled / diagonal > (shake_factor as f64 / 100.0)
}

/// Feeds a movement; true when it completes a shake, which clears the history.
fn feed(det: &mut ShakeDetector, dx: i64, dy: i64, tick: u64) -> bool {
    match det.record_movement(dx, dy, tick) {
        Some(moves) => {
            if is_shake(&moves, det.shake_minimum_distance(), det.shake_factor()) {
                det.clear();
                true
            } else {
                false
            }
        }
        None => false,
    }
}


// ── Rapid back-and-forth horizontal shake triggers ──

#[test]
fn rapid_horizontal_shake_triggers() {
    let mut det = ShakeDetector::new(1000, 1000, 400);

    // Simulate rapid back-and-forth horizontal shake.
    // Total distance will be large, bounding rect will be narrow.
    let mut tick = 1000u64;
    let mut triggered = false;

    for i in 0..30 {
        let dx = if i % 2 == 0 { 200 } else { -200 };
        tick += 20;
        if feed(&mut det, dx, 0, tick) {
            triggered = true;
            break;
        }
    }

    assert!(
        triggered,
        "Rapid horizontal shake should trigger detection"
    );
}

// ── Slow movement doesn't trigger ──

#[test]
fn slow_movement_does_not_trigger() {
    let mut det = ShakeDetector::new(1000, 1000, 400);

    // Move slowly in one direction — no direction changes.
    for i in 0..50 {
        let triggered = feed(&mut det, 10, 0, 1000 + i * 100);
        assert!(
            !triggered,
            "Slow unidirectional movement should not trigger"
        );
    }
}

// ── Circular motion doesn't trigger (no sharp reversals) ──

#[test]
fn circular_motion_does_not_trigger() {
    // Circular motion: distance/diagonal ratio ≈ 2.35 per cycle.
    // With shake_factor = 500 (5.0×) and 2 cycles ≈ 4.69, stays under threshold.
    let mut det = ShakeDetector::new(500, 1000, 500);

    let directions: &[(i64, i64)] = &[
        (100, 0),
        (70, 70),
        (0, 100),
        (-70, 70),
        (-100, 0),
        (-70, -70),
        (0, -100),
        (70, -70),
    ];

    let mut tick = 1000u64;
    for cycle in 0..2 {
        for &(dx, dy) in directions {
            tick += 20;
            let triggered = feed(&mut det, dx, dy, tick);
            assert!(
                !triggered,
                "Circular motion should not trigger (cycle {cycle})"
            );
        }
    }
}

// ── Distance below minimum doesn't trigger ──

#[test]
fn distance_below_minimum_does_not_trigger() {
    // Set a very high minimum distance.
    let mut det = ShakeDetector::new(100_000, 1000, 400);

    let mut tick = 1000u64;
    for i in 0..20 {
        let dx = if i % 2 == 0 { 100 } else { -100 };
        tick += 20;
        let triggered = feed(&mut det, dx, 0, tick);
        assert!(!triggered, "Should not trigger when total distance is below minimum");
    }
}

// ── Old movements are pruned ──

#[test]
fn old_movements_are_pruned() {
    let mut det = ShakeDetector::new(500, 1000, 400);

    // Add movements at tick=100..200
    feed(&mut det, 200, 0, 100);
    feed(&mut det, -200, 0, 200);

    // Jump time forward by 2 seconds — all old movements should be pruned.
    // New movements alone don't have enough distance.
    let triggered = feed(&mut det, 50, 0, 2200);
    assert!(!triggered, "Old movements should be pruned");

    let triggered = feed(&mut det, -50, 0, 2250);
    assert!(!triggered, "Pruned history should not contribute to detection");
}

// ── Same-direction movements are merged ──

#[test]
fn same_direction_movements_merged() {
    let mut det = ShakeDetector::new(1000, 1000, 400);

    // Multiple same-direction movements should be merged.
    feed(&mut det, 10, 0, 1000);
    feed(&mut det, 10, 0, 1010);
    feed(&mut det, 10, 0, 1020);
    // Only one entry in history (all same direction).
    // Internal check: feeding a direction change to see that we get
    // correct computation (only 2 entries: merged forward + one reverse).
    let triggered = feed(&mut det, -10, 0, 1030);
    assert!(!triggered, "Small movements shouldn't trigger");
}

// ── Vertical shake also triggers ──

#[test]
fn rapid_vertical_shake_triggers() {
    let mut det = ShakeDetector::new(1000, 1000, 400);

    let mut tick = 1000u64;
    let mut triggered = false;

    for i in 0..30 {
        let dy = if i % 2 == 0 { 200 } else { -200 };
        tick += 20;
        if feed(&mut det, 0, dy, tick) {
            triggered = true;
            break;
        }
    }

    assert!(triggered, "Rapid vertical shake should trigger detection");
}

// ── Zero movement is ignored ──

#[test]
fn zero_movement_ignored() {
    let mut det = ShakeDetector::new(1000, 1000, 400);
    let triggered = feed(&mut det, 0, 0, 1000);
    assert!(!triggered, "Zero movement should be ignored");
}

// ── Clear resets state ──

#[test]
fn clear_resets_state() {
    let mut det = ShakeDetector::new(1000, 1000, 400);
    feed(&mut det, 200, 0, 1000);
    feed(&mut det, -200, 0, 1020);
    det.clear();

    // After clearing, old movements should not count.
    let triggered = feed(&mut det, 50, 0, 1040);
    assert!(!triggered, "After clear, history should be empty");
}

// ── High shake factor requires more extreme shaking ──

#[test]
fn high_shake_factor_harder_to_trigger() {
    // Very high factor — hard to trigger.
    let mut det = ShakeDetector::new(1000, 1000, 10000);

    let mut tick = 1000u64;
    let mut triggered = false;

    for i in 0..30 {
        let dx = if i % 2 == 0 { 200 } else { -200 };
        tick += 20;
        if feed(&mut det, dx, 0, tick) {
            triggered = true;
            break;
        }
    }

    assert!(
        !triggered,
        "Very high shake factor should make it harder to trigger"
    );
}
