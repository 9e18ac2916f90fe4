use epaper_server::date::CalendarDate;
use epaper_server::ics::{event_records_from_ics, holiday_records_from_ics};
use epaper_server::store::CalendarMap;

fn d(year: u16, month: u8, day: u8) -> CalendarDate {
    CalendarDate { year, month, day }
}

fn holiday_ics() -> Vec<u8> {
    let mut s = String::new();
    s.push_str("BEGIN:VCALENDAR\r\n");
    s.push_str("VERSION:2.0\r\n");
    s.push_str("PRODID:-//test//test//EN\r\n");
    s.push_str("BEGIN:VEVENT\r\n");
    s.push_str("DTSTART:2025-01-01\r\n");
    s.push_str("SUMMARY:New Year\r\n");
    s.push_str("END:VEVENT\r\n");
    s.push_str("BEGIN:VEVENT\r\n");
    s.push_str("SUMMARY:No start, dropped\r\n");
    s.push_str("END:VEVENT\r\n");
    s.push_str("BEGIN:VEVENT\r\n");
    s.push_str("DTSTART:garbage\r\n");
    s.push_str("SUMMARY:Bad date, dropped\r\n");
    s.push_str("END:VEVENT\r\n");
    s.push_str("END:VCALENDAR\r\n");
    s.into_bytes()
}

#[test]
fn holiday_feed_yields_its_one_good_record() {
    let recs = holiday_records_from_ics(&holiday_ics());
    assert_eq!(recs.len(), 1);
    assert_eq!(recs[0].0, d(2025, 1, 1));
    assert_eq!(recs[0].1, "New Year");
}

#[test]
fn holiday_feed_merge_scenario() {
    // A holiday entry with start 2025-01-01 and summary "New Year" lands in
    // the store under that date, flags a change, and advances last-change.
    let recs = holiday_records_from_ics(&holiday_ics());
    let mut cal = CalendarMap::new();
    let changed = cal.merge_holidays(&recs);
    assert!(changed);
    let entry = cal.lookup(&d(2025, 1, 1)).unwrap();
    assert_eq!(entry.holiday.as_deref(), Some("New Year"));
    assert_eq!(epaper_server::store::finish_cycle(7, changed, 9), 9);

    // The same feed again: no change, last-change stays.
    let changed = cal.merge_holidays(&recs);
    assert!(!changed);
    assert_eq!(epaper_server::store::finish_cycle(9, changed, 11), 9);
}

fn event_ics() -> Vec<u8> {
    let mut s = String::new();
    s.push_str("BEGIN:VCALENDAR\r\n");
    s.push_str("VERSION:2.0\r\n");
    s.push_str("PRODID:-//test//test//EN\r\n");
    s.push_str("BEGIN:VEVENT\r\n");
    s.push_str("DTSTART;TZID=Asia/Bangkok:2025-06-15T09:00:00\r\n");
    s.push_str("SUMMARY:Meeting\r\n");
    s.push_str("UID:abc\r\n");
    s.push_str("END:VEVENT\r\n");
    s.push_str("BEGIN:VEVENT\r\n");
    s.push_str("DTSTART:2025-06-20T10:00:00\r\n");
    s.push_str("SUMMARY:No id, dropped\r\n");
    s.push_str("END:VEVENT\r\n");
    s.push_str("END:VCALENDAR\r\n");
    s.into_bytes()
}

#[test]
fn event_feed_scenario_bangkok_wall_time() {
    // An event with zone Asia/Bangkok starting 2025-06-15T09:00:00 lands
    // under 2025-06-15 with its 09:00 Bangkok-local wall time.
    let recs = event_records_from_ics(&event_ics(), "UTC");
    assert_eq!(recs.len(), 1);
    assert_eq!(recs[0].date, d(2025, 6, 15));
    assert_eq!(recs[0].id, "abc");
    assert_eq!(recs[0].mode.hour, 9);
    assert_eq!(recs[0].mode.minute, 0);
    assert_eq!(recs[0].mode.name, "Meeting");
    // Bangkok is UTC+7 with no daylight saving: the instant is 02:00 UTC.
    assert_eq!(recs[0].mode.epoch_second, 1749952800);

    let mut cal = CalendarMap::new();
    assert!(cal.merge_events(&recs));
    let entry = cal.lookup(&d(2025, 6, 15)).unwrap();
    assert_eq!(entry.events.len(), 1);
    assert_eq!(entry.events[0].0, "abc");
}

#[test]
fn event_feed_falls_back_to_the_default_zone() {
    let mut s = String::new();
    s.push_str("BEGIN:VCALENDAR\r\n");
    s.push_str("BEGIN:VEVENT\r\n");
    s.push_str("DTSTART:2025-06-15T09:00:00\r\n");
    s.push_str("SUMMARY:Plain\r\n");
    s.push_str("UID:xyz\r\n");
    s.push_str("END:VEVENT\r\n");
    s.push_str("END:VCALENDAR\r\n");
    let recs = event_records_from_ics(&s.into_bytes(), "Asia/Bangkok");
    assert_eq!(recs.len(), 1);
    // Same wall time resolved in the default zone: 09:00 UTC+7.
    assert_eq!(recs[0].mode.epoch_second, 1749952800);

    // An unknown default zone falls back to UTC.
    let mut s = String::new();
    s.push_str("BEGIN:VCALENDAR\r\n");
    s.push_str("BEGIN:VEVENT\r\n");
    s.push_str("DTSTART:2025-06-15T09:00:00\r\n");
    s.push_str("SUMMARY:Plain\r\n");
    s.push_str("UID:xyz\r\n");
    s.push_str("END:VEVENT\r\n");
    s.push_str("END:VCALENDAR\r\n");
    let recs = event_records_from_ics(&s.into_bytes(), "Nowhere/Unknown");
    assert_eq!(recs.len(), 1);
    assert_eq!(recs[0].mode.epoch_second, 1749978000); // 09:00 UTC
}

#[test]
fn unreadable_feed_yields_no_records() {
    let recs = holiday_records_from_ics(b"this is not a calendar");
    assert_eq!(recs.len(), 0);
    let recs = event_records_from_ics(b"neither is this", "UTC");
    assert_eq!(recs.len(), 0);
}

fn one_event_ics(dtstart_line: &str) -> Vec<u8> {
    let mut s = String::new();
    s.push_str("BEGIN:VCALENDAR\r\n");
    s.push_str("BEGIN:VEVENT\r\n");
    s.push_str(dtstart_line);
    s.push_str("\r\n");
    s.push_str("SUMMARY:Shifty\r\n");
    s.push_str("UID:dst\r\n");
    s.push_str("END:VEVENT\r\n");
    s.push_str("END:VCALENDAR\r\n");
    s.into_bytes()
}

#[test]
fn a_wall_time_in_a_clock_gap_is_dropped() {
    // Berlin skipped 02:30 on 2025-03-30 when clocks jumped forward.
    let ics = one_event_ics("DTSTART;TZID=Europe/Berlin:2025-03-30T02:30:00");
    let recs = event_records_from_ics(&ics, "UTC");
    assert_eq!(recs.len(), 0);
}

#[test]
fn an_ambiguous_wall_time_takes_the_earlier_instant() {
    // Berlin saw 02:30 twice on 2025-10-26 when clocks fell back; the
    // earlier occurrence is still in summer time, two hours ahead of UTC.
    let ics = one_event_ics("DTSTART;TZID=Europe/Berlin:2025-10-26T02:30:00");
    let recs = event_records_from_ics(&ics, "UTC");
    assert_eq!(recs.len(), 1);
    assert_eq!(recs[0].mode.epoch_second, 1761438600);
    // The wall-clock fields stay what the feed said.
    assert_eq!((recs[0].mode.hour, recs[0].mode.minute), (2, 30));
}
