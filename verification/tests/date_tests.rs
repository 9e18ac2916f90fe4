use epaper_server::date::{
    days_in_month, is_leap_year, is_weekend, parse_ics_date, parse_ics_datetime, weekday,
    CalendarDate,
};

fn d(year: u16, month: u8, day: u8) -> CalendarDate {
    CalendarDate { year, month, day }
}

#[test]
fn leap_years() {
    assert!(is_leap_year(2024));
    assert!(!is_leap_year(2025));
    assert!(!is_leap_year(1900));
    assert!(is_leap_year(2000));
}

#[test]
fn month_lengths() {
    assert_eq!(days_in_month(2025, 1), 31);
    assert_eq!(days_in_month(2025, 2), 28);
    assert_eq!(days_in_month(2024, 2), 29);
    assert_eq!(days_in_month(2025, 4), 30);
    assert_eq!(days_in_month(2025, 12), 31);
}

#[test]
fn weekdays_of_known_dates() {
    // 2025-10-12 is a Sunday.
    assert_eq!(weekday(&d(2025, 10, 12)), 0);
    // 2025-10-11 is a Saturday.
    assert_eq!(weekday(&d(2025, 10, 11)), 6);
    // 2024-02-29 is a Thursday.
    assert_eq!(weekday(&d(2024, 2, 29)), 4);
    // 1970-01-01 is a Thursday.
    assert_eq!(weekday(&d(1970, 1, 1)), 4);
    // 2000-01-01 is a Saturday.
    assert_eq!(weekday(&d(2000, 1, 1)), 6);
}

#[test]
fn weekend_flag() {
    assert!(is_weekend(&d(2025, 10, 12)));
    assert!(is_weekend(&d(2025, 10, 11)));
    assert!(!is_weekend(&d(2025, 10, 13)));
}

#[test]
fn parses_extended_date() {
    assert_eq!(parse_ics_date("2025-01-01"), Some(d(2025, 1, 1)));
}

#[test]
fn parses_basic_date() {
    assert_eq!(parse_ics_date("20250101"), Some(d(2025, 1, 1)));
}

#[test]
fn date_parser_tolerates_a_time_part() {
    assert_eq!(parse_ics_date("20250615T090000"), Some(d(2025, 6, 15)));
    assert_eq!(parse_ics_date("2025-06-15T09:00:00Z"), Some(d(2025, 6, 15)));
}

#[test]
fn date_parser_rejects_malformed_input() {
    assert_eq!(parse_ics_date(""), None);
    assert_eq!(parse_ics_date("2025-13-01"), None);
    assert_eq!(parse_ics_date("2025-02-30"), None);
    assert_eq!(parse_ics_date("20250101x"), None);
    assert_eq!(parse_ics_date("2025-01-0a"), None);
    assert_eq!(parse_ics_date("not a date"), None);
}

#[test]
fn rejects_day_29_only_outside_leap_years() {
    assert_eq!(parse_ics_date("2024-02-29"), Some(d(2024, 2, 29)));
    assert_eq!(parse_ics_date("2025-02-29"), None);
}

#[test]
fn parses_datetimes() {
    let t = parse_ics_datetime("2025-06-15T09:00:00").unwrap();
    assert_eq!(t.date, d(2025, 6, 15));
    assert_eq!((t.hour, t.minute, t.second), (9, 0, 0));

    let t = parse_ics_datetime("20250615T090000Z").unwrap();
    assert_eq!(t.date, d(2025, 6, 15));
    assert_eq!((t.hour, t.minute, t.second), (9, 0, 0));

    let t = parse_ics_datetime("2025-06-15T23:59").unwrap();
    assert_eq!((t.hour, t.minute, t.second), (23, 59, 0));
}

#[test]
fn datetime_parser_requires_a_time() {
    assert_eq!(parse_ics_datetime("2025-06-15"), None);
    assert_eq!(parse_ics_datetime("2025-06-15T25:00:00"), None);
    assert_eq!(parse_ics_datetime("2025-06-15T09:61:00"), None);
}
