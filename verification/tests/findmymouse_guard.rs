use powertoys_core::findmymouse::activation_guard::{can_activate, contains_chars, ActivationCheck};
use powertoys_core::findmymouse::types::Settings;
fn guard_settings() -> Settings {
    Settings::default()
}

// ── Game mode checks ──

#[test]
fn game_mode_off_allows_activation() {
    let settings = guard_settings(); // do_not_activate_on_game_mode = true by default
    assert_eq!(can_activate(&settings, false, ""), ActivationCheck::Allow);
}

#[test]
fn game_mode_on_with_setting_enabled_blocks() {
    let mut settings = guard_settings();
    settings.do_not_activate_on_game_mode = true;
    assert_eq!(
        can_activate(&settings, true, ""),
        ActivationCheck::BlockedByGameMode
    );
}

#[test]
fn game_mode_on_with_setting_disabled_allows() {
    let mut settings = guard_settings();
    settings.do_not_activate_on_game_mode = false;
    assert_eq!(can_activate(&settings, true, ""), ActivationCheck::Allow);
}

// ── Excluded apps checks ──

#[test]
fn no_excluded_apps_allows_any_foreground() {
    let settings = guard_settings();
    assert_eq!(
        can_activate(&settings, false, "NOTEPAD.EXE"),
        ActivationCheck::Allow
    );
}

#[test]
fn excluded_app_blocks_activation() {
    let mut settings = guard_settings();
    settings.excluded_apps = vec!["NOTEPAD.EXE".to_string()];
    assert_eq!(
        can_activate(&settings, false, "NOTEPAD.EXE"),
        ActivationCheck::BlockedByExcludedApp
    );
}

#[test]
fn excluded_app_case_insensitive_match() {
    let mut settings = guard_settings();
    settings.excluded_apps = vec!["NOTEPAD.EXE".to_string()];
    // Foreground app in lowercase — uppercased internally.
    assert_eq!(
        can_activate(&settings, false, "notepad.exe"),
        ActivationCheck::BlockedByExcludedApp
    );
}

#[test]
fn excluded_app_partial_path_match() {
    let mut settings = guard_settings();
    settings.excluded_apps = vec!["NOTEPAD.EXE".to_string()];
    // Full path contains the excluded app name.
    assert_eq!(
        can_activate(&settings, false, "C:\\WINDOWS\\SYSTEM32\\NOTEPAD.EXE"),
        ActivationCheck::BlockedByExcludedApp
    );
}

#[test]
fn non_excluded_app_allows_activation() {
    let mut settings = guard_settings();
    settings.excluded_apps = vec!["NOTEPAD.EXE".to_string()];
    assert_eq!(
        can_activate(&settings, false, "CALC.EXE"),
        ActivationCheck::Allow
    );
}

#[test]
fn multiple_excluded_apps_second_matches() {
    let mut settings = guard_settings();
    settings.excluded_apps = vec!["NOTEPAD.EXE".to_string(), "CALC.EXE".to_string()];
    assert_eq!(
        can_activate(&settings, false, "CALC.EXE"),
        ActivationCheck::BlockedByExcludedApp
    );
}

#[test]
fn empty_foreground_app_not_blocked() {
    let mut settings = guard_settings();
    settings.excluded_apps = vec!["NOTEPAD.EXE".to_string()];
    assert_eq!(can_activate(&settings, false, ""), ActivationCheck::Allow);
}

// ── Combined checks: game mode takes priority ──

#[test]
fn game_mode_checked_before_excluded_apps() {
    let mut settings = guard_settings();
    settings.do_not_activate_on_game_mode = true;
    settings.excluded_apps = vec!["NOTEPAD.EXE".to_string()];
    // Both conditions true — game mode check comes first.
    assert_eq!(
        can_activate(&settings, true, "NOTEPAD.EXE"),
        ActivationCheck::BlockedByGameMode
    );
}

#[test]
fn all_clear_allows_activation() {
    let mut settings = guard_settings();
    settings.do_not_activate_on_game_mode = true;
    settings.excluded_apps = vec!["NOTEPAD.EXE".to_string()];
    assert_eq!(
        can_activate(&settings, false, "CALC.EXE"),
        ActivationCheck::Allow
    );
}

#[test]
fn substring_search() {
    let c = |s: &str| s.chars().collect::<Vec<char>>();
    assert!(contains_chars(&c("C:\\APPS\\NOTEPAD.EXE"), &c("NOTEPAD")));
    assert!(contains_chars(&c("abc"), &c("")));
    assert!(contains_chars(&c("abc"), &c("abc")));
    assert!(!contains_chars(&c("abc"), &c("abcd")));
    assert!(!contains_chars(&c("aab"), &c("abb")));
}
