use powertoys_core::highlighter::types::{Color, HighlightPoint, MouseButton, Settings};
use powertoys_core::highlighter::settings::{parse_argb_color};

#[test]
fn color_disabled_when_alpha_zero() {
    assert!(Color::new(0, 255, 0, 0).is_disabled());
}

#[test]
fn color_enabled_when_alpha_nonzero() {
    assert!(!Color::new(166, 255, 255, 0).is_disabled());
    assert!(!Color::new(1, 0, 0, 0).is_disabled());
}

#[test]
fn default_settings_match_cpp() {
    let s = Settings::default();
    assert_eq!(s.left_button_color, Color::new(166, 255, 255, 0));
    assert_eq!(s.right_button_color, Color::new(166, 0, 0, 255));
    assert_eq!(s.always_color, Color::new(0, 255, 0, 0));
    assert_eq!(s.radius, 20);
    assert_eq!(s.fade_delay_ms, 500);
    assert_eq!(s.fade_duration_ms, 250);
    assert!(!s.auto_activate);
    assert!(!s.spotlight_mode);
}

#[test]
fn default_always_color_is_disabled() {
    let s = Settings::default();
    assert!(s.always_color.is_disabled());
}









#[test]
fn is_expired_after_full_fade() {
    let pt = HighlightPoint {
        x: 0,
        y: 0,
        button: MouseButton::Right,
        created_at: 0,
        fade_started_at: Some(100),
        color: Color::new(166, 0, 0, 255),
    };
    // At t=850: elapsed=750, fade_elapsed=250, progress=1.0 → expired
    assert!(pt.is_expired(850, 500, 250));
}

#[test]
fn is_not_expired_while_held() {
    let pt = HighlightPoint {
        x: 0,
        y: 0,
        button: MouseButton::Left,
        created_at: 0,
        fade_started_at: None,
        color: Color::new(166, 255, 255, 0),
    };
    assert!(!pt.is_expired(99999, 500, 250));
}



#[test]
fn mouse_button_equality() {
    assert_eq!(MouseButton::Left, MouseButton::Left);
    assert_ne!(MouseButton::Left, MouseButton::Right);
}


#[test]
fn parse_argb_blue() {
    assert_eq!(
        parse_argb_color("#A60000FF"),
        Some(Color::new(0xA6, 0x00, 0x00, 0xFF))
    );
}

#[test]
fn parse_argb_invalid_no_hash() {
    assert_eq!(parse_argb_color("A6FFFF00"), None);
}

#[test]
fn parse_argb_invalid_short() {
    assert_eq!(parse_argb_color("#FFFF00"), None);
}

#[test]
fn parse_argb_invalid_hex() {
    assert_eq!(parse_argb_color("#GGHHIIJJ"), None);
}














#[test]
fn highlighter_parse_argb_valid() {
    assert_eq!(parse_argb_color("#A6FFFF00"), Some(Color::new(0xA6, 0xFF, 0xFF, 0x00)));
}
