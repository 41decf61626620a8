use powertoys_core::filelocksmith::path::{MatcherView, PathMatcher, is_subpath, normalize_path, paths_match, starts_with_chars};
use powertoys_core::filelocksmith::process::{format_text};
use powertoys_core::filelocksmith::handle_info::{HandleInfo, ProcessResult};

#[test]
fn normalize_lowercase() {
    assert_eq!(
        normalize_path(r"C:\Users\Test\File.TXT"),
        r"c:\users\test\file.txt"
    );
}

#[test]
fn normalize_forward_slashes() {
    assert_eq!(normalize_path("C:/Users/Test"), r"c:\users\test");
}

#[test]
fn normalize_collapses_double_separators() {
    assert_eq!(normalize_path(r"C:\\Users\\Test"), r"c:\users\test");
}

#[test]
fn normalize_trailing_separator_removed() {
    assert_eq!(normalize_path(r"C:\Users\Test\"), r"c:\users\test");
}

#[test]
fn normalize_drive_root_keeps_backslash() {
    assert_eq!(normalize_path(r"C:\"), r"c:\");
}

#[test]
fn paths_match_case_insensitive() {
    assert!(paths_match(
        r"C:\Users\TEST\file.txt",
        r"c:\users\test\FILE.TXT"
    ));
}

#[test]
fn paths_match_mixed_separators() {
    assert!(paths_match(r"C:\Users\Test", "C:/Users/Test"));
}

#[test]
fn paths_no_match() {
    assert!(!paths_match(r"C:\Users\Test", r"C:\Users\Other"));
}

#[test]
fn is_subpath_basic() {
    assert!(is_subpath(
        r"C:\Users\Test",
        r"C:\Users\Test\file.txt"
    ));
}

#[test]
fn is_subpath_nested() {
    assert!(is_subpath(
        r"C:\Users\Test",
        r"C:\Users\Test\sub\deep\file.txt"
    ));
}

#[test]
fn is_subpath_case_insensitive() {
    assert!(is_subpath(
        r"C:\USERS\TEST",
        r"c:\users\test\file.txt"
    ));
}

#[test]
fn is_subpath_not_prefix_of_name() {
    // `C:\Users\TestExtra\file.txt` should NOT match parent `C:\Users\Test`
    assert!(!is_subpath(
        r"C:\Users\Test",
        r"C:\Users\TestExtra\file.txt"
    ));
}

#[test]
fn is_subpath_same_path_not_sub() {
    assert!(!is_subpath(r"C:\Users\Test", r"C:\Users\Test"));
}

#[test]
fn matcher_exact_file() {
    let m = PathMatcher::new(
        vec![r"\Device\HarddiskVolume2\file.txt".into()],
        vec![],
    );
    assert!(m.matches(r"\Device\HarddiskVolume2\file.txt").is_some());
    assert!(m.matches(r"\Device\HarddiskVolume2\other.txt").is_none());
}

#[test]
fn matcher_dir_prefix() {
    let m = PathMatcher::new(
        vec![],
        vec![r"\Device\HarddiskVolume2\Users".into()],
    );
    assert!(m
        .matches(r"\Device\HarddiskVolume2\Users\test\file.txt")
        .is_some());
    assert!(m
        .matches(r"\Device\HarddiskVolume3\Users\test\file.txt")
        .is_none());
}

#[test]
fn matcher_case_insensitive() {
    let m = PathMatcher::new(
        vec![r"\Device\HarddiskVolume2\FILE.TXT".into()],
        vec![],
    );
    assert!(m.matches(r"\Device\HarddiskVolume2\file.txt").is_some());
}

#[test]
fn matcher_returns_original_path() {
    let original = r"\Device\HarddiskVolume2\MyFile.txt".to_string();
    let m = PathMatcher::new(vec![original.clone()], vec![]);
    let result = m.matches(r"\Device\HarddiskVolume2\myfile.txt");
    assert_eq!(result, Some(original));
}

#[test]
fn normalize_empty_string() {
    assert_eq!(normalize_path(""), "");
}

#[test]
fn normalize_kernel_path() {
    assert_eq!(
        normalize_path(r"\Device\HarddiskVolume2\Users\test"),
        r"\device\harddiskvolume2\users\test"
    );
}


fn sample() -> Vec<ProcessResult> {
    vec![
        ProcessResult {
            name: "notepad.exe".into(),
            pid: 1234,
            user: "DESKTOP\\Alice".into(),
            files: vec![r"C:\file.txt".into()],
        },
        ProcessResult {
            name: "explorer.exe".into(),
            pid: 5678,
            user: "DESKTOP\\Bob".into(),
            files: vec![r"C:\dir\a.dll".into(), r"C:\dir\b.dll".into()],
        },
    ]
}

#[test]
fn text_format_contains_pid_and_name() {
    let text = format_text(&sample());
    assert!(text.contains("[1234] notepad.exe"));
    assert!(text.contains("[5678] explorer.exe"));
}

#[test]
fn text_format_contains_files() {
    let text = format_text(&sample());
    assert!(text.contains(r"C:\file.txt"));
    assert!(text.contains(r"C:\dir\a.dll"));
}

#[test]
fn text_format_empty() {
    let text = format_text(&[]);
    assert!(text.contains("No processes found"));
}






#[test]
fn normalize_is_idempotent_on_ascii_paths() {
    for p in ["C:/Users//Test/", "\\\\server\\Share\\\\dir\\", "c:\\", "/", "Mixed/CASE\\path//x"] {
        let once = normalize_path(p);
        assert_eq!(normalize_path(&once), once);
    }
    assert_eq!(normalize_path("C:/Users//Test/"), "c:\\users\\test");
}
