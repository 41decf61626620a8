use powertoys_core::logger::{format_timestamp_utc, log_line, LogLevel};

/// A log line as the logger writes it, at a fixed moment.
fn line_of(level: LogLevel, msg: &str) -> String {
    log_line(&format_timestamp_utc(1_718_960_645, 123), level, msg)
}

#[test]
fn test_log_format_has_timestamp() {
    let content = line_of(LogLevel::Info, "ts_check");
    let line = content.lines().next().expect("expected at least one line");

    // [YYYY-MM-DD HH:MM:SS.mmm] …
    assert!(line.starts_with('['), "should start with '['");
    assert_eq!(&line[5..6], "-", "year-month separator");
    assert_eq!(&line[8..9], "-", "month-day separator");
    assert_eq!(&line[11..12], " ", "date-time separator");
    assert_eq!(&line[14..15], ":", "hour-minute separator");
    assert_eq!(&line[17..18], ":", "minute-second separator");
    assert_eq!(&line[20..21], ".", "second-ms separator");
    assert_eq!(&line[24..25], "]", "timestamp closing bracket");
}

#[test]
fn test_log_format_level_in_output() {
    assert!(line_of(LogLevel::Warn, "level_check").contains("[WARN]"));
}

#[test]
fn test_log_format_message_preserved() {
    let msg = "exact message content 12345!@#";
    assert!(line_of(LogLevel::Info, msg).contains(msg));
}

#[test]
fn test_empty_message_no_crash() {
    assert!(line_of(LogLevel::Info, "").contains("[INFO]"));
}

#[test]
fn test_unicode_messages_preserved() {
    let msg = "日本語テスト 🦀 Ñoño";
    assert!(line_of(LogLevel::Info, msg).contains(msg));
}

#[test]
fn log_line_exact_form() {
    assert_eq!(log_line("2024-06-21 09:04:05.123", LogLevel::Error, "boom"), "[2024-06-21 09:04:05.123] [ERROR] boom\n");
    assert_eq!(log_line("t", LogLevel::Trace, "m"), "[t] [TRACE] m\n");
    assert_eq!(log_line("t", LogLevel::Debug, "m"), "[t] [DEBUG] m\n");
}

#[test]
fn level_names() {
    assert_eq!(LogLevel::Trace.as_str(), "TRACE");
    assert_eq!(LogLevel::Debug.as_str(), "DEBUG");
    assert_eq!(LogLevel::Info.as_str(), "INFO");
    assert_eq!(LogLevel::Warn.as_str(), "WARN");
    assert_eq!(LogLevel::Error.as_str(), "ERROR");
}

#[test]
fn timestamp_at_epoch() {
    assert_eq!(format_timestamp_utc(0, 0), "1970-01-01 00:00:00.000");
}

#[test]
fn timestamp_of_a_summer_day() {
    assert_eq!(format_timestamp_utc(1_718_960_645, 123), "2024-06-21 09:04:05.123");
}

#[test]
fn timestamp_on_leap_days() {
    assert_eq!(format_timestamp_utc(951_868_799, 7), "2000-02-29 23:59:59.007");
    assert_eq!(format_timestamp_utc(951_868_800, 0), "2000-03-01 00:00:00.000");
    assert_eq!(format_timestamp_utc(1_709_164_800, 0), "2024-02-29 00:00:00.000");
}

#[test]
fn timestamp_at_year_end() {
    assert_eq!(format_timestamp_utc(1_735_689_599, 999), "2024-12-31 23:59:59.999");
    assert_eq!(format_timestamp_utc(1_735_689_600, 0), "2025-01-01 00:00:00.000");
}

#[test]
fn timestamp_far_ahead() {
    assert_eq!(format_timestamp_utc(253_402_300_799, 0), "9999-12-31 23:59:59.000");
    assert_eq!(format_timestamp_utc(253_402_300_800, 0), "10000-01-01 00:00:00.000");
}
