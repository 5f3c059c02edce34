use chrono::{Datelike, TimeZone, Timelike};
use homepage_backend::timestamp::{CivilDateTime, format_timestamp, parse_timestamp};

fn dt(year: u16, month: u8, day: u8, hour: u8, minute: u8, second: u8) -> CivilDateTime {
    CivilDateTime { year, month, day, hour, minute, second }
}

#[test]
fn format_writes_the_rfc3339_form() {
    assert_eq!(format_timestamp(&dt(2023, 1, 5, 9, 8, 7)), "2023-01-05T09:08:07Z");
    assert_eq!(format_timestamp(&dt(1, 12, 31, 23, 59, 59)), "0001-12-31T23:59:59Z");
    assert_eq!(format_timestamp(&dt(9999, 2, 28, 0, 0, 0)), "9999-02-28T00:00:00Z");
}

#[test]
fn parse_reads_a_valid_timestamp() {
    assert_eq!(
        parse_timestamp("2023-01-05T09:08:07Z"),
        Some(dt(2023, 1, 5, 9, 8, 7))
    );
}

#[test]
fn round_trip_preserves_moments() {
    for m in [
        dt(2023, 1, 5, 9, 8, 7),
        dt(2024, 2, 29, 23, 59, 59),
        dt(1970, 1, 1, 0, 0, 0),
        dt(9999, 12, 31, 23, 59, 59),
    ] {
        assert_eq!(parse_timestamp(&format_timestamp(&m)), Some(m));
    }
}

#[test]
fn leap_years_bound_february() {
    assert!(parse_timestamp("2024-02-29T00:00:00Z").is_some());
    assert!(parse_timestamp("2023-02-29T00:00:00Z").is_none());
    assert!(parse_timestamp("1900-02-29T00:00:00Z").is_none());
    assert!(parse_timestamp("2000-02-29T00:00:00Z").is_some());
}

#[test]
fn out_of_range_fields_are_rejected() {
    assert!(parse_timestamp("2023-00-05T09:08:07Z").is_none());
    assert!(parse_timestamp("2023-13-05T09:08:07Z").is_none());
    assert!(parse_timestamp("2023-04-31T09:08:07Z").is_none());
    assert!(parse_timestamp("2023-01-05T24:08:07Z").is_none());
    assert!(parse_timestamp("2023-01-05T09:60:07Z").is_none());
    assert!(parse_timestamp("2023-01-05T09:08:60Z").is_none());
    assert!(parse_timestamp("0000-01-05T09:08:07Z").is_none());
}

#[test]
fn malformed_text_is_rejected() {
    assert!(parse_timestamp("").is_none());
    assert!(parse_timestamp("2023-01-05 09:08:07Z").is_none());
    assert!(parse_timestamp("2023-01-05T09:08:07").is_none());
    assert!(parse_timestamp("2023-01-05T09:08:07+00:00").is_none());
    assert!(parse_timestamp("23-01-05T09:08:07Z").is_none());
}

#[test]
fn chrono_reads_what_format_writes() {
    let text = format_timestamp(&dt(2023, 6, 15, 12, 34, 56));
    let parsed = chrono::DateTime::parse_from_rfc3339(&text).unwrap();
    assert_eq!(parsed.year(), 2023);
    assert_eq!(parsed.month(), 6);
    assert_eq!(parsed.day(), 15);
    assert_eq!(parsed.hour(), 12);
    assert_eq!(parsed.minute(), 34);
    assert_eq!(parsed.second(), 56);
}

#[test]
fn format_matches_chronos_rendering() {
    let c = chrono::Utc.with_ymd_and_hms(2024, 2, 29, 8, 7, 6).unwrap();
    assert_eq!(
        format_timestamp(&dt(2024, 2, 29, 8, 7, 6)),
        c.to_rfc3339_opts(chrono::SecondsFormat::Secs, true)
    );
}
