use epaper_server::date::CalendarDate;
use epaper_server::store::{
    finish_cycle, merge_weather, CalendarMap, DateInfoEventMode, EventRecord,
};
use epaper_server::model::{WeatherInfo, WeatherInfoAttribute, WeatherInfoState};

fn d(year: u16, month: u8, day: u8) -> CalendarDate {
    CalendarDate { year, month, day }
}

fn mode(hour: u8, minute: u8, name: &str) -> DateInfoEventMode {
    DateInfoEventMode {
        epoch_second: 0,
        hour,
        minute,
        name: name.to_string(),
    }
}

fn weather(state: WeatherInfoState, temperature_tenths: i64) -> WeatherInfo {
    WeatherInfo {
        state,
        attributes: WeatherInfoAttribute {
            temperature_tenths,
            dew_point_tenths: 0,
            temperature_unit: "\u{B0}C".to_string(),
            humidity_tenths: 0,
            cloud_coverage_tenths: 0,
            uv_index_tenths: 0,
            pressure_tenths: 0,
            wind_bearing_tenths: 0,
            wind_speed_tenths: 0,
        },
    }
}

#[test]
fn holiday_merge_sets_label_and_flags_change() {
    let mut cal = CalendarMap::new();
    let changed = cal.merge_holiday(d(2025, 1, 1), "New Year".to_string());
    assert!(changed);
    let entry = cal.lookup(&d(2025, 1, 1)).unwrap();
    assert_eq!(entry.holiday.as_deref(), Some("New Year"));

    // The last-change instant advances with the change flag.
    let last = finish_cycle(100, changed, 200);
    assert_eq!(last, 200);
}

#[test]
fn holiday_remerge_reports_no_change() {
    let recs = vec![
        (d(2025, 1, 1), "New Year".to_string()),
        (d(2025, 4, 13), "Songkran".to_string()),
    ];
    let mut cal = CalendarMap::new();
    assert!(cal.merge_holidays(&recs));
    let changed = cal.merge_holidays(&recs);
    assert!(!changed);
    // An unchanged second cycle does not advance the last-change instant.
    assert_eq!(finish_cycle(500, changed, 600), 500);
}

#[test]
fn holiday_label_replacement_flags_change() {
    let mut cal = CalendarMap::new();
    cal.merge_holiday(d(2025, 5, 1), "Old".to_string());
    assert!(cal.merge_holiday(d(2025, 5, 1), "New".to_string()));
    assert_eq!(
        cal.lookup(&d(2025, 5, 1)).unwrap().holiday.as_deref(),
        Some("New")
    );
}

#[test]
fn event_merge_flags_change_only_for_new_ids() {
    let mut cal = CalendarMap::new();
    let c1 = cal.merge_event(d(2025, 6, 15), "abc".to_string(), mode(9, 0, "Meeting"));
    assert!(c1);
    // Same id again, updated fields: no change flag, last write wins.
    let c2 = cal.merge_event(d(2025, 6, 15), "abc".to_string(), mode(10, 30, "Moved"));
    assert!(!c2);
    let entry = cal.lookup(&d(2025, 6, 15)).unwrap();
    assert_eq!(entry.events.len(), 1);
    assert_eq!(entry.events[0].0, "abc");
    assert_eq!(entry.events[0].1.hour, 10);
    assert_eq!(entry.events[0].1.minute, 30);
    assert_eq!(entry.events[0].1.name, "Moved");
    // A different id is a new insertion.
    assert!(cal.merge_event(d(2025, 6, 15), "def".to_string(), mode(12, 0, "Lunch")));
    assert_eq!(cal.lookup(&d(2025, 6, 15)).unwrap().events.len(), 2);
}

#[test]
fn event_batch_merge_keeps_every_id() {
    let mut cal = CalendarMap::new();
    let recs = vec![
        EventRecord { date: d(2025, 6, 15), id: "a".to_string(), mode: mode(9, 0, "One") },
        EventRecord { date: d(2025, 6, 15), id: "b".to_string(), mode: mode(10, 0, "Two") },
        EventRecord { date: d(2025, 6, 16), id: "c".to_string(), mode: mode(11, 0, "Three") },
    ];
    assert!(cal.merge_events(&recs));
    assert_eq!(cal.lookup(&d(2025, 6, 15)).unwrap().events.len(), 2);
    assert_eq!(cal.lookup(&d(2025, 6, 16)).unwrap().events.len(), 1);
    // Remerging inserts nothing new.
    assert!(!cal.merge_events(&recs));
}

#[test]
fn window_is_ascending_and_bounded() {
    let mut cal = CalendarMap::new();
    // Inserted out of order, with gaps between the dates.
    for day in [20u8, 5, 11, 9, 30, 2, 14, 17, 23, 26, 8] {
        cal.merge_holiday(d(2025, 7, day), format!("H{day}"));
    }
    // Eleven entries at or after the 2nd: the window keeps the first nine,
    // ascending.
    let win = cal.window(&d(2025, 7, 2), 9);
    assert_eq!(win.len(), 9);
    let days: Vec<u8> = win.iter().map(|e| e.date.day).collect();
    assert_eq!(days, vec![2, 5, 8, 9, 11, 14, 17, 20, 23]);

    // From the 9th only eight remain, all in ascending order.
    let win = cal.window(&d(2025, 7, 9), 9);
    let days: Vec<u8> = win.iter().map(|e| e.date.day).collect();
    assert_eq!(days, vec![9, 11, 14, 17, 20, 23, 26, 30]);
}

#[test]
fn window_skips_dates_before_the_start() {
    let mut cal = CalendarMap::new();
    cal.merge_holiday(d(2025, 7, 2), "Before".to_string());
    cal.merge_holiday(d(2025, 7, 10), "At".to_string());
    cal.merge_holiday(d(2025, 8, 1), "After".to_string());
    let win = cal.window(&d(2025, 7, 10), 9);
    assert_eq!(win.len(), 2);
    assert_eq!(win[0].date, d(2025, 7, 10));
    assert_eq!(win[1].date, d(2025, 8, 1));
    // Strictly ascending, every key at or after the start.
    assert!(win.windows(2).all(|w| w[0].date.day < w[1].date.day
        || w[0].date.month < w[1].date.month
        || w[0].date.year < w[1].date.year));
}

#[test]
fn weather_remerge_with_same_values_reports_no_change() {
    let mut current: Option<WeatherInfo> = None;
    let first = merge_weather(&mut current, weather(WeatherInfoState::Sunny, 305));
    assert!(first);
    let second = merge_weather(&mut current, weather(WeatherInfoState::Sunny, 305));
    assert!(!second);
    assert_eq!(finish_cycle(10, second, 20), 10);
}

#[test]
fn weather_change_follows_state_and_temperature() {
    let mut current = Some(weather(WeatherInfoState::Sunny, 305));
    assert!(merge_weather(&mut current, weather(WeatherInfoState::Rainy, 305)));
    assert!(merge_weather(&mut current, weather(WeatherInfoState::Rainy, 280)));
    // Other attributes do not matter for the flag.
    let mut with_other = current.clone().unwrap();
    with_other.attributes.humidity_tenths = 999;
    assert!(!merge_weather(&mut current, with_other));
}

#[test]
fn failed_sources_leave_other_contributions_in_place() {
    // A cycle where only the holiday source succeeded: the event data from
    // the previous cycle stays untouched.
    let mut cal = CalendarMap::new();
    cal.merge_event(d(2025, 6, 15), "abc".to_string(), mode(9, 0, "Meeting"));
    cal.merge_holiday(d(2025, 1, 1), "New Year".to_string());
    assert!(cal.lookup(&d(2025, 6, 15)).is_some());
    assert!(cal.lookup(&d(2025, 1, 1)).is_some());
}
