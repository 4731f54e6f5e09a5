use ordinance::log::{LogLevel, LogRecord, RuntimeLogs};

#[test]
fn log_parse_single_line() {
    let line = "[2025-12-06 15:15:14,272] INFO - Task-1: Running COMPASS";
    let record = LogRecord::parse(line).unwrap();

    assert_eq!(record.timestamp.year, 2025);
    assert_eq!(record.timestamp.month, 12);
    assert_eq!(record.timestamp.day, 6);
    assert_eq!(record.timestamp.hour, 15);
    assert_eq!(record.timestamp.minute, 15);
    assert_eq!(record.timestamp.second, 14);
    assert_eq!(record.timestamp.millisecond, 272);

    assert!(matches!(record.level, LogLevel::Info));
    assert_eq!(record.subject, "Task-1");
    assert_eq!(record.message, "Running COMPASS");
}

#[test]
fn mod_parse_single_line() {
    let line = "[2025-12-06 15:15:14,272] INFO - Task-1: Running COMPASS";
    let record = LogRecord::parse(line).unwrap();

    assert_eq!(record.timestamp.year, 2025);
    assert_eq!(record.timestamp.month, 12);
    assert_eq!(record.timestamp.day, 6);
    assert_eq!(record.timestamp.hour, 15);
    assert_eq!(record.timestamp.minute, 15);
    assert_eq!(record.timestamp.second, 14);
    assert_eq!(record.timestamp.millisecond, 272);

    assert!(matches!(record.level, LogLevel::Info));
    assert_eq!(record.subject, "Task-1");
    assert_eq!(record.message, "Running COMPASS");
}

#[test]
fn retains_only_info_warning_error_in_order() {
    let text = "\
[2025-12-06 15:15:14,272] TRACE - Task-1: one\n\
[2025-12-06 15:15:14,273] DEBUG - Task-1: two\n\
[2025-12-06 15:15:14,274] INFO - Task-1: three\n\
[2025-12-06 15:15:14,275] WARNING - Task-1: four\n\
[2025-12-06 15:15:14,276] ERROR - Task-1: five\n";
    let logs = RuntimeLogs::parse(text);

    assert_eq!(logs.records.len(), 3);
    assert!(matches!(logs.records[0].level, LogLevel::Info));
    assert!(matches!(logs.records[1].level, LogLevel::Warning));
    assert!(matches!(logs.records[2].level, LogLevel::Error));
    assert_eq!(logs.records[0].message, "three");
    assert_eq!(logs.records[1].message, "four");
    assert_eq!(logs.records[2].message, "five");
}

#[test]
fn record_count_matches_retained_levels() {
    let text = "\
[2025-12-06 15:15:14,272] INFO - Task-1: Running COMPASS version 0.11.3\n\
[2025-12-06 15:15:14,872] INFO - Task-1: Processing 250 jurisdiction(s)\n\
[2025-12-06 15:15:14,272] DEBUG_TO_FILE - Task-1: noisy detail\n\
[2025-12-06 15:15:14,572] INFO - Jefferson County, Colorado: Running COMPASS\n\
[2025-12-06 19:48:10,503] INFO - Task-1: Total runtime: 4:32:55\n";
    let logs = RuntimeLogs::parse(text);

    assert_eq!(logs.records.len(), 4);
    assert_eq!(logs.records[2].subject, "Jefferson County, Colorado");
    assert_eq!(logs.records[3].message, "Total runtime: 4:32:55");
}

#[test]
fn unparseable_lines_are_dropped() {
    let text = "\
not a log line\n\
\n\
[2025-12-06 15:15:14,272] INFO - Task-1: kept\n\
[bad timestamp] INFO - Task-1: dropped\n\
[2025-12-06 15:15:14,272] FATAL - Task-1: unknown level\n";
    let logs = RuntimeLogs::parse(text);

    assert_eq!(logs.records.len(), 1);
    assert_eq!(logs.records[0].message, "kept");
}

#[test]
fn lines_are_trimmed_before_parsing() {
    let text = "   [2025-12-06 15:15:14,272] ERROR - worker: boom   \r\n";
    let logs = RuntimeLogs::parse(text);

    assert_eq!(logs.records.len(), 1);
    assert_eq!(logs.records[0].subject, "worker");
    assert_eq!(logs.records[0].message, "boom");
}

#[test]
fn invalid_calendar_dates_are_rejected() {
    assert!(LogRecord::parse("[2025-02-30 10:00:00,000] INFO - a: b").is_none());
    assert!(LogRecord::parse("[2025-13-01 10:00:00,000] INFO - a: b").is_none());
    assert!(LogRecord::parse("[2025-01-01 24:00:00,000] INFO - a: b").is_none());
}

#[test]
fn leap_day_is_accepted_only_in_leap_years() {
    assert!(LogRecord::parse("[2024-02-29 10:00:00,000] INFO - a: b").is_some());
    assert!(LogRecord::parse("[2025-02-29 10:00:00,000] INFO - a: b").is_none());
    assert!(LogRecord::parse("[2000-02-29 10:00:00,000] INFO - a: b").is_some());
    assert!(LogRecord::parse("[1900-02-28 10:00:00,000] INFO - a: b").is_some());
}

#[test]
fn subject_runs_to_the_first_colon() {
    let record = LogRecord::parse("[2025-12-06 15:15:14,272] INFO - a: b: c").unwrap();
    assert_eq!(record.subject, "a");
    assert_eq!(record.message, "b: c");
}

#[test]
fn missing_parts_fail_to_parse() {
    assert!(LogRecord::parse("").is_none());
    assert!(LogRecord::parse("[2025-12-06 15:15:14,272]").is_none());
    assert!(LogRecord::parse("[2025-12-06 15:15:14,272] INFO").is_none());
    assert!(LogRecord::parse("[2025-12-06 15:15:14,272] INFO - nocolon").is_none());
    assert!(LogRecord::parse("[2025-12-06 15:15:14,272] INFO - a:").is_none());
    assert!(LogRecord::parse("[2025-12-06 15:15:14,272] INFO -INFO a: b").is_none());
}
