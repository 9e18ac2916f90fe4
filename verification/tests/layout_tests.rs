use epaper_server::date::{CalendarDate, LocalDateTime};
use epaper_server::layout::{footer_text, header_text, temp_text, time_text, today_flags};
use epaper_server::store::DateInfo;

fn d(year: u16, month: u8, day: u8) -> CalendarDate {
    CalendarDate { year, month, day }
}

#[test]
fn time_stamps_are_zero_padded() {
    assert_eq!(time_text(9, 5), "09:05");
    assert_eq!(time_text(23, 59), "23:59");
    assert_eq!(time_text(0, 0), "00:00");
}

#[test]
fn temperature_has_one_decimal_and_the_unit() {
    assert_eq!(temp_text(305, "\u{B0}C"), "30.5\u{B0}C");
    assert_eq!(temp_text(-53, "\u{B0}F"), "-5.3\u{B0}F");
    assert_eq!(temp_text(0, "\u{B0}C"), "0.0\u{B0}C");
    assert_eq!(temp_text(1000, "\u{B0}C"), "100.0\u{B0}C");
}

#[test]
fn footer_shows_the_timestamp_without_subseconds() {
    let now = LocalDateTime { date: d(2025, 6, 5), hour: 7, minute: 8, second: 9 };
    assert_eq!(footer_text(&now), "Last update: 2025-06-05 07:08:09");
}

#[test]
fn headers_join_the_holiday_label_and_truncate() {
    let plain = DateInfo { date: d(2025, 1, 1), holiday: None, events: Vec::new() };
    assert_eq!(header_text(&plain), "2025 JAN 1");

    let short = DateInfo {
        date: d(2025, 1, 1),
        holiday: Some("New Year".to_string()),
        events: Vec::new(),
    };
    assert_eq!(header_text(&short), "2025 JAN 1\u{2014}New Year");

    let long = DateInfo {
        date: d(2025, 1, 1),
        holiday: Some("A very long holiday label that overruns".to_string()),
        events: Vec::new(),
    };
    let h = header_text(&long);
    assert_eq!(h.chars().count(), 33);
    assert_eq!(h, "2025 JAN 1\u{2014}A very long holiday l\u{2026}");
}

#[test]
fn today_is_a_holiday_on_weekends_or_with_a_label() {
    // 2025-10-13 is a Monday.
    let monday = d(2025, 10, 13);
    let win = vec![DateInfo { date: monday, holiday: None, events: Vec::new() }];
    assert_eq!(today_flags(&win, &monday), (false, false));

    let win = vec![DateInfo {
        date: monday,
        holiday: Some("Bank holiday".to_string()),
        events: Vec::new(),
    }];
    assert_eq!(today_flags(&win, &monday), (true, false));

    // 2025-10-12 is a Sunday: weekend, holiday without any entry.
    assert_eq!(today_flags(&Vec::new(), &d(2025, 10, 12)), (true, false));
}

#[test]
fn today_is_an_event_day_when_its_entry_has_events() {
    let monday = d(2025, 10, 13);
    let win = vec![DateInfo {
        date: monday,
        holiday: None,
        events: vec![(
            "x".to_string(),
            epaper_server::store::DateInfoEventMode {
                epoch_second: 0,
                hour: 9,
                minute: 0,
                name: "One".to_string(),
            },
        )],
    }];
    assert_eq!(today_flags(&win, &monday), (false, true));
    // Another day's events do not flag today.
    assert_eq!(today_flags(&win, &d(2025, 10, 14)), (false, false));
}
