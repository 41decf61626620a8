use powertoys_core::findmymouse::types::{ActivationMethod, SonarState};
use powertoys_core::findmymouse::detector::{CtrlDetector, CtrlSide, DetectorResult, DetectorView, KeyEvent, MIN_DOUBLE_CLICK_TIME};
use powertoys_core::findmymouse::settings::{Color, legacy_opacity_to_alpha, parse_argb, parse_color, parse_rgb};

#[test]
fn activation_method_discriminants_match_cpp() {
    assert_eq!(ActivationMethod::DoubleLeftCtrl as i32, 0);
    assert_eq!(ActivationMethod::DoubleRightCtrl as i32, 1);
    assert_eq!(ActivationMethod::ShakeMouse as i32, 2);
    assert_eq!(ActivationMethod::Shortcut as i32, 3);
}

#[test]
fn activation_method_from_i32_valid() {
    assert_eq!(
        ActivationMethod::from_i32(0),
        Some(ActivationMethod::DoubleLeftCtrl)
    );
    assert_eq!(
        ActivationMethod::from_i32(1),
        Some(ActivationMethod::DoubleRightCtrl)
    );
    assert_eq!(
        ActivationMethod::from_i32(2),
        Some(ActivationMethod::ShakeMouse)
    );
    assert_eq!(
        ActivationMethod::from_i32(3),
        Some(ActivationMethod::Shortcut)
    );
}

#[test]
fn activation_method_from_i32_invalid() {
    assert_eq!(ActivationMethod::from_i32(-1), None);
    assert_eq!(ActivationMethod::from_i32(4), None);
    assert_eq!(ActivationMethod::from_i32(999), None);
}



#[test]
fn sonar_state_idle_is_initial() {
    let state = SonarState::Idle;
    assert_eq!(state, SonarState::Idle);
}




fn make_ctrl_event(
    pressed: bool,
    side: CtrlSide,
    timestamp_ms: u64,
    cursor_x: i32,
    cursor_y: i32,
) -> KeyEvent {
    KeyEvent {
        pressed,
        is_ctrl: true,
        side,
        timestamp_ms,
        cursor_x,
        cursor_y,
    }
}

fn make_non_ctrl_event(pressed: bool, timestamp_ms: u64) -> KeyEvent {
    KeyEvent {
        pressed,
        is_ctrl: false,
        side: CtrlSide::Left,
        timestamp_ms,
        cursor_x: 0,
        cursor_y: 0,
    }
}

// ── Double-left-ctrl triggers activation ──

#[test]
fn double_left_ctrl_triggers_activation() {
    let mut det = CtrlDetector::new(ActivationMethod::DoubleLeftCtrl, false);
    det.set_max_double_click_time(500);

    // First press
    let r = det.feed(&make_ctrl_event(true, CtrlSide::Left, 1000, 100, 200));
    assert_eq!(r, DetectorResult::Nothing);
    assert_eq!(det.state(), SonarState::ControlDown1);

    // First release
    let r = det.feed(&make_ctrl_event(false, CtrlSide::Left, 1050, 100, 200));
    assert_eq!(r, DetectorResult::Nothing);
    assert_eq!(det.state(), SonarState::ControlUp1);

    // Second press within time window, cursor unchanged
    let r = det.feed(&make_ctrl_event(true, CtrlSide::Left, 1200, 100, 200));
    assert_eq!(r, DetectorResult::Activate);
    assert_eq!(det.state(), SonarState::ControlDown2);
    assert!(det.is_sonar_active());
}

// ── Double-right-ctrl triggers activation (when configured) ──

#[test]
fn double_right_ctrl_triggers_activation() {
    let mut det = CtrlDetector::new(ActivationMethod::DoubleRightCtrl, false);
    det.set_max_double_click_time(500);

    let r = det.feed(&make_ctrl_event(true, CtrlSide::Right, 1000, 0, 0));
    assert_eq!(r, DetectorResult::Nothing);

    let r = det.feed(&make_ctrl_event(false, CtrlSide::Right, 1050, 0, 0));
    assert_eq!(r, DetectorResult::Nothing);

    let r = det.feed(&make_ctrl_event(true, CtrlSide::Right, 1200, 0, 0));
    assert_eq!(r, DetectorResult::Activate);
    assert!(det.is_sonar_active());
}

// ── Too-slow double-click doesn't trigger ──

#[test]
fn too_slow_double_click_does_not_trigger() {
    let mut det = CtrlDetector::new(ActivationMethod::DoubleLeftCtrl, false);
    det.set_max_double_click_time(500);

    det.feed(&make_ctrl_event(true, CtrlSide::Left, 1000, 0, 0));
    det.feed(&make_ctrl_event(false, CtrlSide::Left, 1050, 0, 0));

    // Second press 600ms later — exceeds 500ms max
    let r = det.feed(&make_ctrl_event(true, CtrlSide::Left, 1600, 0, 0));
    assert_eq!(r, DetectorResult::Nothing);
    assert!(!det.is_sonar_active());
    // State restarted to ControlDown1
    assert_eq!(det.state(), SonarState::ControlDown1);
}

// ── Too-fast double-click doesn't trigger ──

#[test]
fn too_fast_double_click_does_not_trigger() {
    let mut det = CtrlDetector::new(ActivationMethod::DoubleLeftCtrl, false);
    det.set_max_double_click_time(500);

    det.feed(&make_ctrl_event(true, CtrlSide::Left, 1000, 0, 0));
    det.feed(&make_ctrl_event(false, CtrlSide::Left, 1010, 0, 0));

    // Second press only 50ms later — under MIN_DOUBLE_CLICK_TIME (100ms)
    let r = det.feed(&make_ctrl_event(true, CtrlSide::Left, 1050, 0, 0));
    assert_eq!(r, DetectorResult::Nothing);
    assert!(!det.is_sonar_active());
    assert_eq!(det.state(), SonarState::ControlDown1);
}

// ── Cursor movement between clicks doesn't trigger ──

#[test]
fn cursor_movement_between_clicks_does_not_trigger() {
    let mut det = CtrlDetector::new(ActivationMethod::DoubleLeftCtrl, false);
    det.set_max_double_click_time(500);

    det.feed(&make_ctrl_event(true, CtrlSide::Left, 1000, 100, 200));
    det.feed(&make_ctrl_event(false, CtrlSide::Left, 1050, 100, 200));

    // Second press — cursor moved!
    let r = det.feed(&make_ctrl_event(true, CtrlSide::Left, 1200, 150, 200));
    assert_eq!(r, DetectorResult::Nothing);
    assert!(!det.is_sonar_active());
    assert_eq!(det.state(), SonarState::ControlDown1);
}

// ── Wrong ctrl side doesn't trigger ──

#[test]
fn wrong_ctrl_side_does_not_trigger() {
    let mut det = CtrlDetector::new(ActivationMethod::DoubleLeftCtrl, false);
    det.set_max_double_click_time(500);

    det.feed(&make_ctrl_event(true, CtrlSide::Left, 1000, 0, 0));
    det.feed(&make_ctrl_event(false, CtrlSide::Left, 1050, 0, 0));

    // Second press is right ctrl — wrong side
    let r = det.feed(&make_ctrl_event(true, CtrlSide::Right, 1200, 0, 0));
    assert_eq!(r, DetectorResult::Nothing);
    assert!(!det.is_sonar_active());
    assert_eq!(det.state(), SonarState::Idle);
}

#[test]
fn right_ctrl_configured_but_left_pressed_does_not_trigger() {
    let mut det = CtrlDetector::new(ActivationMethod::DoubleRightCtrl, false);
    det.set_max_double_click_time(500);

    // Pressing left ctrl when right is configured
    let r = det.feed(&make_ctrl_event(true, CtrlSide::Left, 1000, 0, 0));
    assert_eq!(r, DetectorResult::Nothing);
    assert_eq!(det.state(), SonarState::Idle);
}

// ── Win key required but not held → doesn't trigger ──

#[test]
fn win_key_required_but_not_held_does_not_trigger() {
    let mut det = CtrlDetector::new(ActivationMethod::DoubleLeftCtrl, true);
    det.set_max_double_click_time(500);
    det.set_win_key_held(false);

    det.feed(&make_ctrl_event(true, CtrlSide::Left, 1000, 0, 0));
    det.feed(&make_ctrl_event(false, CtrlSide::Left, 1050, 0, 0));

    // Second press — win key not held
    let r = det.feed(&make_ctrl_event(true, CtrlSide::Left, 1200, 0, 0));
    assert_eq!(r, DetectorResult::Nothing);
    assert!(!det.is_sonar_active());
}

// ── Win key required and held → triggers ──

#[test]
fn win_key_required_and_held_triggers() {
    let mut det = CtrlDetector::new(ActivationMethod::DoubleLeftCtrl, true);
    det.set_max_double_click_time(500);
    det.set_win_key_held(true);

    det.feed(&make_ctrl_event(true, CtrlSide::Left, 1000, 0, 0));
    det.feed(&make_ctrl_event(false, CtrlSide::Left, 1050, 0, 0));

    let r = det.feed(&make_ctrl_event(true, CtrlSide::Left, 1200, 0, 0));
    assert_eq!(r, DetectorResult::Activate);
    assert!(det.is_sonar_active());
}

// ── Third press deactivates ──

#[test]
fn third_ctrl_press_deactivates() {
    let mut det = CtrlDetector::new(ActivationMethod::DoubleLeftCtrl, false);
    det.set_max_double_click_time(500);

    // Activate
    det.feed(&make_ctrl_event(true, CtrlSide::Left, 1000, 0, 0));
    det.feed(&make_ctrl_event(false, CtrlSide::Left, 1050, 0, 0));
    let r = det.feed(&make_ctrl_event(true, CtrlSide::Left, 1200, 0, 0));
    assert_eq!(r, DetectorResult::Activate);

    // Release second press
    det.feed(&make_ctrl_event(false, CtrlSide::Left, 1250, 0, 0));
    assert_eq!(det.state(), SonarState::ControlUp2);

    // Third press — deactivates
    let r = det.feed(&make_ctrl_event(true, CtrlSide::Left, 1400, 0, 0));
    assert_eq!(r, DetectorResult::Deactivate);
    assert!(!det.is_sonar_active());
    assert_eq!(det.state(), SonarState::Idle);
}

// ── Non-ctrl key stops sonar ──

#[test]
fn non_ctrl_key_stops_sonar() {
    let mut det = CtrlDetector::new(ActivationMethod::DoubleLeftCtrl, false);
    det.set_max_double_click_time(500);

    // Activate
    det.feed(&make_ctrl_event(true, CtrlSide::Left, 1000, 0, 0));
    det.feed(&make_ctrl_event(false, CtrlSide::Left, 1050, 0, 0));
    det.feed(&make_ctrl_event(true, CtrlSide::Left, 1200, 0, 0));

    // Non-ctrl key pressed
    let r = det.feed(&make_non_ctrl_event(true, 1300));
    assert_eq!(r, DetectorResult::Deactivate);
    assert!(!det.is_sonar_active());
}

// ── Shortcut mode ignores key releases ──

#[test]
fn shortcut_mode_ignores_key_releases() {
    let mut det = CtrlDetector::new(ActivationMethod::Shortcut, false);
    // Any key release should be ignored
    let r = det.feed(&make_non_ctrl_event(false, 1000));
    assert_eq!(r, DetectorResult::Nothing);
}

// ── Low max_double_click_time also lowers min check ──

#[test]
fn low_double_click_time_lowers_min_threshold() {
    let mut det = CtrlDetector::new(ActivationMethod::DoubleLeftCtrl, false);
    // Set a very low double-click time (e.g., 50ms)
    det.set_max_double_click_time(50);

    det.feed(&make_ctrl_event(true, CtrlSide::Left, 1000, 0, 0));
    det.feed(&make_ctrl_event(false, CtrlSide::Left, 1005, 0, 0));

    // 15ms interval. min(100, 50/5=10) = 10. 15 >= 10 and 15 <= 50 → should activate
    let r = det.feed(&make_ctrl_event(true, CtrlSide::Left, 1015, 0, 0));
    assert_eq!(r, DetectorResult::Activate);
}

// ── State is reset on failed second press ──

#[test]
fn failed_second_press_restarts_sequence() {
    let mut det = CtrlDetector::new(ActivationMethod::DoubleLeftCtrl, false);
    det.set_max_double_click_time(500);

    // First sequence: press, release
    det.feed(&make_ctrl_event(true, CtrlSide::Left, 1000, 0, 0));
    det.feed(&make_ctrl_event(false, CtrlSide::Left, 1050, 0, 0));

    // Second press too late — restarts as new ControlDown1
    det.feed(&make_ctrl_event(true, CtrlSide::Left, 2000, 0, 0));
    assert_eq!(det.state(), SonarState::ControlDown1);

    // Now complete a valid double-click from the restarted state
    det.feed(&make_ctrl_event(false, CtrlSide::Left, 2050, 0, 0));
    let r = det.feed(&make_ctrl_event(true, CtrlSide::Left, 2200, 0, 0));
    assert_eq!(r, DetectorResult::Activate);
}


// ── Color parsing ──

#[test]
fn settings_parse_argb_valid() {
    assert_eq!(parse_argb("#80000000"), Some((128, 0, 0, 0)));
    assert_eq!(parse_argb("#80FFFFFF"), Some((128, 255, 255, 255)));
    assert_eq!(parse_argb("#FF112233"), Some((255, 17, 34, 51)));
    // The highlighter reads its ARGB colors the same way.
    assert_eq!(
        powertoys_core::highlighter::settings::parse_argb_color("#A6FFFF00"),
        Some(powertoys_core::highlighter::types::Color::new(0xA6, 0xFF, 0xFF, 0x00))
    );
}

#[test]
fn parse_argb_invalid() {
    assert_eq!(parse_argb("#000000"), None); // too short (RGB)
    assert_eq!(parse_argb("80000000"), None); // no #
    assert_eq!(parse_argb("#ZZZZZZZZ"), None); // invalid hex
    assert_eq!(parse_argb(""), None);
}

#[test]
fn parse_rgb_valid() {
    assert_eq!(parse_rgb("#000000"), Some((0, 0, 0)));
    assert_eq!(parse_rgb("#FFFFFF"), Some((255, 255, 255)));
    assert_eq!(parse_rgb("#1A2B3C"), Some((26, 43, 60)));
}

#[test]
fn parse_rgb_invalid() {
    assert_eq!(parse_rgb("#80000000"), None); // too long (ARGB)
    assert_eq!(parse_rgb("000000"), None); // no #
    assert_eq!(parse_rgb("#GGGGGG"), None);
}

// ── Legacy opacity conversion ──

#[test]
fn legacy_opacity_to_alpha_values() {
    assert_eq!(legacy_opacity_to_alpha(0), 0);
    assert_eq!(legacy_opacity_to_alpha(50), 128);
    assert_eq!(legacy_opacity_to_alpha(100), 255);
    assert_eq!(legacy_opacity_to_alpha(-1), 255); // negative → fully opaque
    assert_eq!(legacy_opacity_to_alpha(200), 255); // clamped to 100
}

// ── Full settings parsing ──







// ── Legacy v1.0 activation method migration ──





// ── Legacy color migration with overlay_opacity ──





// ── Excluded apps parsing ──





// ── Partial settings: missing fields use defaults ──



// ── Invalid property values don't crash, use defaults ──





