use powertoys_core::highlighter::highlight_manager::HighlightManager;
use powertoys_core::highlighter::types::{Color, HighlightPoint, MouseButton, Settings};

/// A highlight as drawn, with its opacity.
#[derive(Debug, Clone)]
struct VisibleHighlight {
    x: i32,
    y: i32,
    color: Color,
    opacity: f64,
    button: Option<MouseButton>,
}

/// The opacity of a highlight: full until the fade delay has passed after
/// release, then falling linearly to zero over the fade duration.
fn opacity(h: &HighlightPoint, now_ms: u64, fade_delay_ms: u64, fade_duration_ms: u64) -> f64 {
    let start = match h.fade_started_at {
        Some(t) => t,
        None => return 1.0,
    };
    if now_ms < start {
        return 1.0;
    }
    let elapsed = now_ms - start;
    if elapsed < fade_delay_ms {
        return 1.0;
    }
    let fade_elapsed = elapsed - fade_delay_ms;
    if fade_duration_ms == 0 {
        return 0.0;
    }
    let progress = fade_elapsed as f64 / fade_duration_ms as f64;
    (1.0 - progress).clamp(0.0, 1.0)
}

/// What is drawn at `now_ms`: the always-on highlight, then the click
/// highlights that have not faded out.
fn get_visible_highlights(mgr: &HighlightManager, now_ms: u64) -> Vec<VisibleHighlight> {
    let fd = mgr.settings().fade_delay_ms as u64;
    let dur = mgr.settings().fade_duration_ms as u64;
    let mut result = Vec::new();
    if let Some((x, y, color)) = mgr.always_highlight() {
        result.push(VisibleHighlight { x, y, color, opacity: 1.0, button: None });
    }
    for h in mgr.visible_click_highlights(now_ms) {
        result.push(VisibleHighlight { x: h.x, y: h.y, color: h.color, opacity: opacity(&h, now_ms, fd, dur), button: Some(h.button) });
    }
    result
}
fn default_manager() -> HighlightManager {
    HighlightManager::new(Settings::default())
}

fn settings_with_always() -> Settings {
    let mut s = Settings::default();
    s.always_color = Color::new(128, 255, 0, 0); // enabled
    s
}

// ── Basic click tests ──

#[test]
fn left_click_adds_yellow_highlight() {
    let mut mgr = default_manager();
    mgr.on_mouse_down(MouseButton::Left, 100, 200, 1000);

    let vis = get_visible_highlights(&mgr, 1000);
    assert_eq!(vis.len(), 1);
    assert_eq!(vis[0].x, 100);
    assert_eq!(vis[0].y, 200);
    assert_eq!(vis[0].color, Color::new(166, 255, 255, 0));
    assert_eq!(vis[0].opacity, 1.0);
    assert_eq!(vis[0].button, Some(MouseButton::Left));
}

#[test]
fn right_click_adds_blue_highlight() {
    let mut mgr = default_manager();
    mgr.on_mouse_down(MouseButton::Right, 300, 400, 1000);

    let vis = get_visible_highlights(&mgr, 1000);
    assert_eq!(vis.len(), 1);
    assert_eq!(vis[0].color, Color::new(166, 0, 0, 255));
    assert_eq!(vis[0].button, Some(MouseButton::Right));
}

// ── Fade lifecycle tests ──

#[test]
fn highlight_stays_visible_for_fade_delay() {
    let mut mgr = default_manager();
    mgr.on_mouse_down(MouseButton::Left, 0, 0, 1000);
    mgr.on_mouse_up(MouseButton::Left, 1000);

    // At t=1400 (400ms after release), within 500ms delay → still full opacity
    let vis = get_visible_highlights(&mgr, 1400);
    assert_eq!(vis.len(), 1);
    assert_eq!(vis[0].opacity, 1.0);
}

#[test]
fn highlight_fades_to_zero_over_duration() {
    let mut mgr = default_manager();
    mgr.on_mouse_down(MouseButton::Left, 0, 0, 1000);
    mgr.on_mouse_up(MouseButton::Left, 1000);

    // Midway through fade: t=1625 → 625ms elapsed, 125ms into 250ms fade → 0.5
    let vis = get_visible_highlights(&mgr, 1625);
    assert_eq!(vis.len(), 1);
    assert!((vis[0].opacity - 0.5).abs() < 1e-10);

    // Fully faded: t=1750 → 750ms elapsed, 250ms into 250ms fade → 0.0
    let vis = get_visible_highlights(&mgr, 1750);
    assert!(vis.is_empty());
}

// ── Alpha=0 disables button ──

#[test]
fn alpha_zero_disables_left_button() {
    let mut settings = Settings::default();
    settings.left_button_color = Color::new(0, 255, 255, 0);
    let mut mgr = HighlightManager::new(settings);

    mgr.on_mouse_down(MouseButton::Left, 100, 200, 1000);
    let vis = get_visible_highlights(&mgr, 1000);
    assert!(vis.is_empty());
}

#[test]
fn alpha_zero_disables_right_button() {
    let mut settings = Settings::default();
    settings.right_button_color = Color::new(0, 0, 0, 255);
    let mut mgr = HighlightManager::new(settings);

    mgr.on_mouse_down(MouseButton::Right, 100, 200, 1000);
    let vis = get_visible_highlights(&mgr, 1000);
    assert!(vis.is_empty());
}

// ── Always-cursor highlight ──

#[test]
fn always_highlight_follows_cursor_when_no_click() {
    let mut mgr = HighlightManager::new(settings_with_always());
    mgr.on_mouse_move(500, 600);

    let vis = get_visible_highlights(&mgr, 1000);
    assert_eq!(vis.len(), 1);
    assert_eq!(vis[0].x, 500);
    assert_eq!(vis[0].y, 600);
    assert_eq!(vis[0].button, None);
    assert_eq!(vis[0].opacity, 1.0);
}

#[test]
fn always_highlight_hidden_while_button_held() {
    let mut mgr = HighlightManager::new(settings_with_always());
    mgr.on_mouse_move(500, 600);
    mgr.on_mouse_down(MouseButton::Left, 500, 600, 1000);

    let vis = get_visible_highlights(&mgr, 1000);
    // Should only have the click highlight, not the always one
    assert_eq!(vis.len(), 1);
    assert_eq!(vis[0].button, Some(MouseButton::Left));
}

#[test]
fn always_highlight_returns_after_button_release() {
    let mut mgr = HighlightManager::new(settings_with_always());
    mgr.on_mouse_down(MouseButton::Left, 100, 200, 1000);
    mgr.on_mouse_up(MouseButton::Left, 1100);
    mgr.on_mouse_move(300, 400);

    let vis = get_visible_highlights(&mgr, 1100);
    // Should have: always highlight + fading click highlight
    assert!(vis.len() >= 2);
    // First should be the always highlight
    assert_eq!(vis[0].button, None);
    assert_eq!(vis[0].x, 300);
    assert_eq!(vis[0].y, 400);
}

#[test]
fn always_disabled_by_default() {
    let mgr = default_manager();
    let vis = get_visible_highlights(&mgr, 0);
    assert!(vis.is_empty());
}

// ── Multiple clicks ──

#[test]
fn multiple_clicks_create_multiple_highlights() {
    let mut mgr = default_manager();
    mgr.on_mouse_down(MouseButton::Left, 10, 20, 1000);
    mgr.on_mouse_up(MouseButton::Left, 1050);
    mgr.on_mouse_down(MouseButton::Left, 30, 40, 1100);
    mgr.on_mouse_up(MouseButton::Left, 1150);
    mgr.on_mouse_down(MouseButton::Right, 50, 60, 1200);
    mgr.on_mouse_up(MouseButton::Right, 1250);

    // All three should be visible shortly after creation
    let vis = get_visible_highlights(&mgr, 1300);
    assert_eq!(vis.len(), 3);
}

#[test]
fn simultaneous_left_and_right() {
    let mut mgr = default_manager();
    mgr.on_mouse_down(MouseButton::Left, 10, 20, 1000);
    mgr.on_mouse_down(MouseButton::Right, 30, 40, 1050);

    let vis = get_visible_highlights(&mgr, 1050);
    assert_eq!(vis.len(), 2);
}

// ── Cleanup ──

#[test]
fn cleanup_removes_expired_highlights() {
    let mut mgr = default_manager();
    mgr.on_mouse_down(MouseButton::Left, 0, 0, 1000);
    mgr.on_mouse_up(MouseButton::Left, 1000);

    assert_eq!(mgr.highlight_count(), 1);

    // After full fade (500ms delay + 250ms duration = 750ms)
    mgr.cleanup(1751);
    assert_eq!(mgr.highlight_count(), 0);
}

#[test]
fn cleanup_keeps_active_highlights() {
    let mut mgr = default_manager();
    mgr.on_mouse_down(MouseButton::Left, 0, 0, 1000);

    mgr.cleanup(99999);
    assert_eq!(mgr.highlight_count(), 1); // still held, never expires
}

// ── Position tracking ──

#[test]
fn held_highlight_follows_cursor() {
    let mut mgr = default_manager();
    mgr.on_mouse_down(MouseButton::Left, 100, 200, 1000);
    mgr.on_mouse_move(300, 400);

    let vis = get_visible_highlights(&mgr, 1050);
    assert_eq!(vis[0].x, 300);
    assert_eq!(vis[0].y, 400);
}

#[test]
fn released_highlight_does_not_follow_cursor() {
    let mut mgr = default_manager();
    mgr.on_mouse_down(MouseButton::Left, 100, 200, 1000);
    mgr.on_mouse_up(MouseButton::Left, 1050);
    mgr.on_mouse_move(999, 888);

    let vis = get_visible_highlights(&mgr, 1100);
    assert_eq!(vis.len(), 1);
    // Position should be wherever it was when released (last move while held was to 100,200)
    assert_eq!(vis[0].x, 100);
    assert_eq!(vis[0].y, 200);
}

// ── Spotlight mode ──

#[test]
fn spotlight_mode_disables_click_highlights() {
    let mut settings = Settings::default();
    settings.spotlight_mode = true;
    settings.always_color = Color::new(128, 255, 0, 0); // enable always
    let mut mgr = HighlightManager::new(settings);

    mgr.on_mouse_down(MouseButton::Left, 100, 200, 1000);

    let vis = get_visible_highlights(&mgr, 1000);
    // Click highlights are disabled in spotlight mode, but the always/spotlight
    // highlight remains visible because the click was ignored (left_pressed stays false).
    assert_eq!(vis.len(), 1);
    assert_eq!(vis[0].button, None); // always highlight, not a click
}

#[test]
fn spotlight_mode_without_always_color_allows_clicks() {
    let mut settings = Settings::default();
    settings.spotlight_mode = true;
    // always_color alpha=0 → spotlight not actually active
    let mut mgr = HighlightManager::new(settings);

    mgr.on_mouse_down(MouseButton::Left, 100, 200, 1000);
    let vis = get_visible_highlights(&mgr, 1000);
    assert_eq!(vis.len(), 1);
}

// ── has_visible_content ──

#[test]
fn has_visible_content_with_always() {
    let mgr = HighlightManager::new(settings_with_always());
    assert!(mgr.has_visible_content(0));
}

#[test]
fn has_visible_content_with_click() {
    let mut mgr = default_manager();
    assert!(!mgr.has_visible_content(0));
    mgr.on_mouse_down(MouseButton::Left, 0, 0, 1000);
    assert!(mgr.has_visible_content(1000));
}

#[test]
fn no_visible_content_after_full_fade() {
    let mut mgr = default_manager();
    mgr.on_mouse_down(MouseButton::Left, 0, 0, 1000);
    mgr.on_mouse_up(MouseButton::Left, 1000);
    // After 500ms delay + 250ms fade
    assert!(!mgr.has_visible_content(1751));
}

// ── Stray press handling ──

#[test]
fn double_press_starts_fade_on_old_highlight() {
    let mut mgr = default_manager();
    mgr.on_mouse_down(MouseButton::Left, 10, 20, 1000);
    // Simulate a stray second press (didn't get the up event)
    mgr.on_mouse_down(MouseButton::Left, 30, 40, 1500);

    assert_eq!(mgr.highlight_count(), 2);
    // The first highlight should now be fading
    let vis = get_visible_highlights(&mgr, 1500);
    // Both visible at the moment of second press
    assert_eq!(vis.len(), 2);

    // After first one fully fades (started at 1500, delay 500 + dur 250 = at 2250)
    let vis = get_visible_highlights(&mgr, 2251);
    // Only the second (still held) should remain
    assert_eq!(vis.len(), 1);
    assert_eq!(vis[0].x, 30);
}

// ── Settings update ──

#[test]
fn highlight_manager_update_settings_changes_behavior() {
    let mut mgr = default_manager();
    assert!(!mgr.always_enabled());

    let new_settings = settings_with_always();
    mgr.update_settings(new_settings);
    assert!(mgr.has_visible_content(0));
}

#[test]
fn press_release_fade_states() {
    let mut mgr = HighlightManager::new(Settings::default());
    mgr.on_mouse_down(MouseButton::Left, 1, 2, 10);
    mgr.on_mouse_down(MouseButton::Left, 3, 4, 20);
    // The stray second press started the first highlight's fade.
    let hs = mgr.visible_click_highlights(20);
    assert_eq!(hs.len(), 2);
    assert_eq!(hs[0].fade_started_at, Some(20));
    assert_eq!(hs[1].fade_started_at, None);
    mgr.on_mouse_move(9, 9);
    let hs = mgr.visible_click_highlights(21);
    assert_eq!((hs[1].x, hs[1].y), (9, 9));
    assert_eq!((hs[0].x, hs[0].y), (1, 2));
    mgr.on_mouse_up(MouseButton::Left, 30);
    // 500 ms delay and 250 ms fade after each release.
    assert_eq!(mgr.visible_click_highlights(769).len(), 2);
    assert_eq!(mgr.visible_click_highlights(770).len(), 1);
    assert_eq!(mgr.visible_click_highlights(780).len(), 0);
    mgr.cleanup(770);
    assert_eq!(mgr.highlight_count(), 1);
}
