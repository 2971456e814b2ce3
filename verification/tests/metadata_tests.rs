use chrono::{Datelike, Timelike};
use mecla::metadata::{datetime_from_systemtime, first_parsable_line, parse_datetime, Timestamp};

#[test]
fn parse_valid_datetime() {
    let t = parse_datetime("2024-07-01 10:00:00").unwrap();
    assert_eq!(
        t,
        Timestamp { year: 2024, month: 7, day: 1, hour: 10, minute: 0, second: 0 }
    );
}

#[test]
fn parse_rejects_wrong_length() {
    assert_eq!(parse_datetime("2024-07-01 10:00"), None);
    assert_eq!(parse_datetime(""), None);
    assert_eq!(parse_datetime("2024-07-01 10:00:00 extra"), None);
}

#[test]
fn parse_rejects_wrong_separators() {
    assert_eq!(parse_datetime("2024:07:01 10:00:00"), None);
    assert_eq!(parse_datetime("2024-07-01T10:00:00"), None);
}

#[test]
fn parse_rejects_bad_month() {
    assert_eq!(parse_datetime("2024-13-01 10:00:00"), None);
    assert_eq!(parse_datetime("2024-00-01 10:00:00"), None);
}

#[test]
fn parse_rejects_bad_day() {
    assert_eq!(parse_datetime("2024-04-31 10:00:00"), None);
    assert_eq!(parse_datetime("2023-02-29 10:00:00"), None);
    assert_eq!(parse_datetime("2024-07-00 10:00:00"), None);
}

#[test]
fn parse_accepts_leap_day() {
    let t = parse_datetime("2024-02-29 23:59:59").unwrap();
    assert_eq!(t.day, 29);
}

#[test]
fn parse_rejects_century_non_leap() {
    assert_eq!(parse_datetime("1900-02-29 00:00:00"), None);
    assert!(parse_datetime("2000-02-29 00:00:00").is_some());
}

#[test]
fn parse_rejects_bad_time() {
    assert_eq!(parse_datetime("2024-07-01 24:00:00"), None);
    assert_eq!(parse_datetime("2024-07-01 10:60:00"), None);
    assert_eq!(parse_datetime("2024-07-01 10:00:60"), None);
}

#[test]
fn parse_rejects_non_digits() {
    assert_eq!(parse_datetime("2O24-07-01 10:00:00"), None);
}

#[test]
fn first_line_skips_blank_and_unparsable() {
    let lines = vec![
        "".to_string(),
        "   ".to_string(),
        "not a date".to_string(),
        "2024-07-01 10:00:00".to_string(),
        "2020-01-01 00:00:00".to_string(),
    ];
    let t = first_parsable_line(&lines).unwrap();
    assert_eq!(t.year, 2024);
    assert_eq!(t.month, 7);
}

#[test]
fn first_line_trims_whitespace() {
    let lines = vec!["  2024-07-01 10:00:00\r".to_string()];
    assert!(first_parsable_line(&lines).is_some());
}

#[test]
fn first_line_none_when_nothing_parses() {
    let lines = vec!["".to_string(), "0000-00-00 00:00:00".to_string()];
    assert_eq!(first_parsable_line(&lines), None);
}

#[test]
fn epoch_zero_is_nineteen_seventy() {
    let t = datetime_from_systemtime(0).unwrap();
    assert_eq!(
        t,
        Timestamp { year: 1970, month: 1, day: 1, hour: 0, minute: 0, second: 0 }
    );
}

#[test]
fn epoch_conversion_matches_chrono() {
    let secs: i64 = 1431648000;
    let t = datetime_from_systemtime(secs).unwrap();
    let dt = chrono::DateTime::from_timestamp(secs, 0).unwrap().naive_utc();
    assert_eq!(t.year, dt.year() as u32);
    assert_eq!(t.month, dt.month());
    assert_eq!(t.day, dt.day());
    assert_eq!(t.hour, dt.hour());
    assert_eq!(t.minute, dt.minute());
    assert_eq!(t.second, dt.second());
    assert_eq!(t.year, 2015);
    assert_eq!(t.month, 5);
    assert_eq!(t.day, 15);
}

#[test]
fn epoch_out_of_range_is_refused() {
    assert_eq!(datetime_from_systemtime(-1), None);
    assert_eq!(datetime_from_systemtime(253402300800), None);
}

#[test]
fn epoch_last_representable_second() {
    let t = datetime_from_systemtime(253402300799).unwrap();
    assert_eq!(
        t,
        Timestamp { year: 9999, month: 12, day: 31, hour: 23, minute: 59, second: 59 }
    );
}
