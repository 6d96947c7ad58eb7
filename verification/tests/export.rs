use logia_rs::export::{
    filter_lines, format_timestamp, is_leap, secs_to_datetime, snapshot, snapshot_file_name,
    timestamp_str,
};

#[test]
fn snapshot_writes_filtered_lines() {
    let lines = vec![
        "INFO: server started".to_string(),
        "ERROR: disk full".to_string(),
        "INFO: request received".to_string(),
        "DEBUG: cache miss".to_string(),
    ];
    let (filename, written) = snapshot(&lines, "info");
    assert!(filename.starts_with("logia-snapshot-"));
    assert!(filename.ends_with(".log"));
    assert_eq!(written.len(), 2);
    assert!(written[0].contains("INFO: server started"));
    assert!(written[1].contains("INFO: request received"));
}

#[test]
fn snapshot_writes_all_lines_when_no_query() {
    let lines = vec!["line one".to_string(), "line two".to_string()];
    let (_, written) = snapshot(&lines, "");
    assert_eq!(written.len(), 2);
    assert_eq!(written, lines);
}

#[test]
fn filter_is_case_insensitive_both_ways() {
    let lines = vec!["Error here".to_string(), "all fine".to_string(), "ERRORS".to_string()];
    assert_eq!(filter_lines(&lines, "eRRor"), vec!["Error here".to_string(), "ERRORS".to_string()]);
    assert!(filter_lines(&lines, "missing").is_empty());
}

#[test]
fn epoch_start_is_midnight_first_of_january_1970() {
    assert_eq!(secs_to_datetime(0), (1970, 1, 1, 0, 0, 0));
    assert_eq!(secs_to_datetime(59), (1970, 1, 1, 0, 0, 59));
    assert_eq!(secs_to_datetime(86399), (1970, 1, 1, 23, 59, 59));
    assert_eq!(secs_to_datetime(86400), (1970, 1, 2, 0, 0, 0));
}

#[test]
fn leap_day_and_later_dates() {
    assert_eq!(secs_to_datetime(951782400), (2000, 2, 29, 0, 0, 0));
    assert_eq!(secs_to_datetime(951868800), (2000, 3, 1, 0, 0, 0));
    assert_eq!(secs_to_datetime(1712059200), (2024, 4, 2, 12, 0, 0));
    assert_eq!(secs_to_datetime(1704067199), (2023, 12, 31, 23, 59, 59));
    assert_eq!(secs_to_datetime(1704067200), (2024, 1, 1, 0, 0, 0));
}

#[test]
fn leap_years() {
    assert!(is_leap(2000));
    assert!(is_leap(2024));
    assert!(!is_leap(1900));
    assert!(!is_leap(2023));
    assert!(is_leap(1600));
}

#[test]
fn timestamps_are_zero_padded() {
    assert_eq!(format_timestamp(0), "1970-01-01_00-00-00");
    assert_eq!(format_timestamp(1712059200 + 3 * 3600 + 4 * 60 + 5), "2024-04-02_15-04-05");
    assert_eq!(snapshot_file_name(0), "logia-snapshot-1970-01-01_00-00-00.log");
}

#[test]
fn current_timestamp_has_the_fixed_shape() {
    let s = timestamp_str();
    let cs: Vec<char> = s.chars().collect();
    assert_eq!(cs.len(), 19);
    assert_eq!(cs[4], '-');
    assert_eq!(cs[7], '-');
    assert_eq!(cs[10], '_');
    assert_eq!(cs[13], '-');
    assert_eq!(cs[16], '-');
    assert!(s.starts_with("20"));
}

#[test]
fn later_seconds_give_later_date_times() {
    let stamps = [0u64, 59, 60, 3599, 3600, 86399, 86400, 951782399, 951782400, 1712059200];
    for w in stamps.windows(2) {
        assert!(secs_to_datetime(w[0]) < secs_to_datetime(w[1]));
    }
}
