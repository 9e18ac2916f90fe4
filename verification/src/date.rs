//! Calendar dates as plain year/month/day values, with the calendar math the
//! agenda needs: validity, ordering keys, weekday computation and parsing of
//! ISO-style date and date-time strings found in calendar feeds.

use vstd::prelude::*;

verus! {

/// A calendar date held as plain fields. Valid dates satisfy [`CalendarDate::valid`].
#[derive(Clone, Copy, PartialEq, Eq, Structural, Debug)]
pub struct CalendarDate {
    pub year: u16,
    pub month: u8,
    pub day: u8,
}

/// A wall-clock date and time in the display timezone.
#[derive(Clone, Copy, PartialEq, Eq, Structural, Debug)]
pub struct LocalDateTime {
    pub date: CalendarDate,
    pub hour: u8,
    pub minute: u8,
    pub second: u8,
}

pub open spec fn spec_is_leap_year(y: int) -> bool {
    y % 4 == 0 && (y % 100 != 0 || y % 400 == 0)
}

pub open spec fn spec_days_in_month(y: int, m: int) -> int {
    if m == 2 {
        if spec_is_leap_year(y) {
            29
        } else {
            28
        }
    } else if m == 4 || m == 6 || m == 9 || m == 11 {
        30
    } else {
        31
    }
}

impl CalendarDate {
    /// Year 0 to 9999, month 1 to 12, day within the month.
    pub open spec fn valid(self) -> bool {
        &&& self.year <= 9999
        &&& 1 <= self.month <= 12
        &&& 1 <= self.day <= spec_days_in_month(self.year as int, self.month as int)
    }

    /// Order-preserving integer key: later dates have strictly larger keys.
    pub open spec fn key(self) -> int {
        self.year * 10000 + self.month * 100 + self.day
    }
}

impl LocalDateTime {
    pub open spec fn valid(self) -> bool {
        &&& self.date.valid()
        &&& self.hour < 24
        &&& self.minute < 60
        &&& self.second < 60
    }
}

impl CalendarDate {
    /// Exec form of [`CalendarDate::valid`].
    pub fn is_valid(&self) -> (r: bool)
        ensures
            r == self.valid(),
    {
        self.year <= 9999 && 1 <= self.month && self.month <= 12 && 1 <= self.day && self.day
            <= days_in_month(self.year, self.month)
    }
}

impl LocalDateTime {
    /// Exec form of [`LocalDateTime::valid`].
    pub fn is_valid(&self) -> (r: bool)
        ensures
            r == self.valid(),
    {
        self.date.is_valid() && self.hour < 24 && self.minute < 60 && self.second < 60
    }
}

pub fn is_leap_year(y: u16) -> (r: bool)
    ensures
        r == spec_is_leap_year(y as int),
{
    y % 4 == 0 && (y % 100 != 0 || y % 400 == 0)
}

pub fn days_in_month(y: u16, m: u8) -> (r: u8)
    ensures
        r as int == spec_days_in_month(y as int, m as int),
{
    if m == 2 {
        if is_leap_year(y) {
            29
        } else {
            28
        }
    } else if m == 4 || m == 6 || m == 9 || m == 11 {
        30
    } else {
        31
    }
}

/// Days from the epoch of 0000-03-01 of the proleptic Gregorian calendar,
/// counted over whole 400-year eras; used only to derive the weekday.
pub open spec fn spec_day_count(d: CalendarDate) -> int {
    let y = if d.month <= 2 {
        d.year + 399
    } else {
        d.year + 400
    };
    let mp = if d.month > 2 {
        d.month - 3
    } else {
        d.month + 9
    };
    let era: int = y / 400;
    let yoe: int = y % 400;
    let doy: int = (153 * mp + 2) / 5 + d.day - 1;
    era * 146097 + yoe * 365 + yoe / 4 - yoe / 100 + doy
}

/// Weekday as a number, 0 = Sunday through 6 = Saturday.
pub open spec fn spec_weekday(d: CalendarDate) -> int {
    (spec_day_count(d) + 3) % 7
}

pub fn weekday(d: &CalendarDate) -> (r: u8)
    requires
        d.valid(),
    ensures
        r as int == spec_weekday(*d),
        r < 7,
{
    let y: u32 = if d.month <= 2 {
        d.year as u32 + 399
    } else {
        d.year as u32 + 400
    };
    let mp: u32 = if d.month > 2 {
        (d.month - 3) as u32
    } else {
        (d.month + 9) as u32
    };
    let era: u32 = y / 400;
    let yoe: u32 = y % 400;
    let doy: u32 = (153 * mp + 2) / 5 + d.day as u32 - 1;
    let days: u32 = era * 146097 + yoe * 365 + yoe / 4 - yoe / 100 + doy;
    ((days + 3) % 7) as u8
}

/// Saturday or Sunday.
pub open spec fn spec_is_weekend(d: CalendarDate) -> bool {
    spec_weekday(d) == 0 || spec_weekday(d) == 6
}

pub fn is_weekend(d: &CalendarDate) -> (r: bool)
    requires
        d.valid(),
    ensures
        r == spec_is_weekend(*d),
{
    let w = weekday(d);
    w == 0 || w == 6
}

pub open spec fn spec_is_digit(c: char) -> bool {
    48 <= c as int <= 57
}

pub open spec fn spec_digit(c: char) -> int {
    c as int - 48
}

/// Value of the two digits of `s` at `i` and `i + 1`, if both are digits.
pub open spec fn spec_num2(s: Seq<char>, i: int) -> Option<int> {
    if spec_is_digit(s[i]) && spec_is_digit(s[i + 1]) {
        Some(10 * spec_digit(s[i]) + spec_digit(s[i + 1]))
    } else {
        None
    }
}

/// Value of the four digits of `s` starting at `i`, if all four are digits.
pub open spec fn spec_num4(s: Seq<char>, i: int) -> Option<int> {
    if spec_is_digit(s[i]) && spec_is_digit(s[i + 1]) && spec_is_digit(s[i + 2]) && spec_is_digit(
        s[i + 3],
    ) {
        Some(
            1000 * spec_digit(s[i]) + 100 * spec_digit(s[i + 1]) + 10 * spec_digit(s[i + 2])
                + spec_digit(s[i + 3]),
        )
    } else {
        None
    }
}

/// A leading calendar date, either in the basic form `YYYYMMDD` or in the
/// extended form `YYYY-MM-DD`; yields the date and the number of characters
/// consumed. The date must exist in the calendar.
pub open spec fn spec_date_prefix(s: Seq<char>) -> Option<(CalendarDate, int)> {
    if s.len() >= 5 && s[4] == '-' {
        if s.len() >= 10 && s[7] == '-' && spec_num4(s, 0) is Some && spec_num2(s, 5) is Some
            && spec_num2(s, 8) is Some {
            let d = CalendarDate {
                year: spec_num4(s, 0)->0 as u16,
                month: spec_num2(s, 5)->0 as u8,
                day: spec_num2(s, 8)->0 as u8,
            };
            if d.valid() && d.month >= 1 && d.day >= 1 {
                Some((d, 10))
            } else {
                None
            }
        } else {
            None
        }
    } else {
        if s.len() >= 8 && spec_num4(s, 0) is Some && spec_num2(s, 4) is Some && spec_num2(s, 6)
            is Some {
            let d = CalendarDate {
                year: spec_num4(s, 0)->0 as u16,
                month: spec_num2(s, 4)->0 as u8,
                day: spec_num2(s, 6)->0 as u8,
            };
            if d.valid() && d.month >= 1 && d.day >= 1 {
                Some((d, 8))
            } else {
                None
            }
        } else {
            None
        }
    }
}

/// A whole time-of-day string: `HH`, `HHMM`, `HHMMSS`, `HH:MM` or `HH:MM:SS`,
/// optionally ending in `Z`; omitted minutes and seconds are zero.
pub open spec fn spec_time_of_day(s: Seq<char>) -> Option<(int, int, int)> {
    let t = if s.len() >= 1 && s[s.len() - 1] == 'Z' {
        s.drop_last()
    } else {
        s
    };
    let hms: Option<(Option<int>, Option<int>, Option<int>)> = if t.len() == 2 {
        Some((spec_num2(t, 0), Some(0), Some(0)))
    } else if t.len() == 4 {
        Some((spec_num2(t, 0), spec_num2(t, 2), Some(0)))
    } else if t.len() == 6 {
        Some((spec_num2(t, 0), spec_num2(t, 2), spec_num2(t, 4)))
    } else if t.len() == 5 && t[2] == ':' {
        Some((spec_num2(t, 0), spec_num2(t, 3), Some(0)))
    } else if t.len() == 8 && t[2] == ':' && t[5] == ':' {
        Some((spec_num2(t, 0), spec_num2(t, 3), spec_num2(t, 6)))
    } else {
        None
    };
    match hms {
        Some((Some(h), Some(m), Some(sec))) => if h < 24 && m < 60 && sec < 60 {
            Some((h, m, sec))
        } else {
            None
        },
        _ => None,
    }
}

/// A date-only feed value: a calendar date, alone or followed by `T` and a
/// time of day, which is ignored.
pub open spec fn spec_parse_date(s: Seq<char>) -> Option<CalendarDate> {
    match spec_date_prefix(s) {
        Some((d, used)) => if s.len() == used {
            Some(d)
        } else if s.len() > used && s[used] == 'T' && spec_time_of_day(
            s.subrange(used + 1, s.len() as int),
        ) is Some {
            Some(d)
        } else {
            None
        },
        None => None,
    }
}

/// A date-time feed value: a calendar date, then `T`, then a time of day.
pub open spec fn spec_parse_datetime(s: Seq<char>) -> Option<LocalDateTime> {
    match spec_date_prefix(s) {
        Some((d, used)) => if s.len() > used && s[used] == 'T' {
            match spec_time_of_day(s.subrange(used + 1, s.len() as int)) {
                Some((h, m, sec)) => Some(
                    LocalDateTime {
                        date: d,
                        hour: h as u8,
                        minute: m as u8,
                        second: sec as u8,
                    },
                ),
                None => None,
            }
        } else {
            None
        },
        None => None,
    }
}

fn num2(s: &str, n: usize, i: usize) -> (r: Option<u8>)
    requires
        n == s@.len(),
        i + 2 <= n,
    ensures
        r matches Some(v) ==> spec_num2(s@, i as int) == Some(v as int) && v < 100,
        r is None ==> spec_num2(s@, i as int) is None,
{
    let c0 = s.get_char(i) as u32;
    let c1 = s.get_char(i + 1) as u32;
    if 48 <= c0 && c0 <= 57 && 48 <= c1 && c1 <= 57 {
        Some((10 * (c0 - 48) + (c1 - 48)) as u8)
    } else {
        None
    }
}

fn num4(s: &str, n: usize, i: usize) -> (r: Option<u16>)
    requires
        n == s@.len(),
        i + 4 <= n,
    ensures
        r matches Some(v) ==> spec_num4(s@, i as int) == Some(v as int) && v < 10000,
        r is None ==> spec_num4(s@, i as int) is None,
{
    let c0 = s.get_char(i) as u32;
    let c1 = s.get_char(i + 1) as u32;
    let c2 = s.get_char(i + 2) as u32;
    let c3 = s.get_char(i + 3) as u32;
    if 48 <= c0 && c0 <= 57 && 48 <= c1 && c1 <= 57 && 48 <= c2 && c2 <= 57 && 48 <= c3 && c3
        <= 57 {
        Some((1000 * (c0 - 48) + 100 * (c1 - 48) + 10 * (c2 - 48) + (c3 - 48)) as u16)
    } else {
        None
    }
}

fn date_prefix(s: &str, n: usize) -> (r: Option<(CalendarDate, usize)>)
    requires
        n == s@.len(),
    ensures
        r matches Some((d, used)) ==> spec_date_prefix(s@) == Some((d, used as int)) && used <= n
            && d.valid(),
        r is None ==> spec_date_prefix(s@) is None,
{
    if n >= 5 && s.get_char(4) == '-' {
        if n >= 10 && s.get_char(7) == '-' {
            let (y, mo, dy) = match (num4(s, n, 0), num2(s, n, 5), num2(s, n, 8)) {
                (Some(y), Some(mo), Some(dy)) => (y, mo, dy),
                _ => {
                    return None;
                },
            };
            let d = CalendarDate { year: y, month: mo, day: dy };
            if 1 <= mo && mo <= 12 && 1 <= dy && dy <= days_in_month(y, mo) {
                Some((d, 10))
            } else {
                None
            }
        } else {
            None
        }
    } else {
        if n >= 8 {
            let (y, mo, dy) = match (num4(s, n, 0), num2(s, n, 4), num2(s, n, 6)) {
                (Some(y), Some(mo), Some(dy)) => (y, mo, dy),
                _ => {
                    return None;
                },
            };
            let d = CalendarDate { year: y, month: mo, day: dy };
            if 1 <= mo && mo <= 12 && 1 <= dy && dy <= days_in_month(y, mo) {
                Some((d, 8))
            } else {
                None
            }
        } else {
            None
        }
    }
}

/// Parses the time-of-day part of `s` from `from` to its end.
fn time_of_day(s: &str, n: usize, from: usize) -> (r: Option<(u8, u8, u8)>)
    requires
        n == s@.len(),
        from <= n,
    ensures
        r matches Some((h, m, sec)) ==> spec_time_of_day(s@.subrange(from as int, n as int))
            == Some((h as int, m as int, sec as int)),
        r is None ==> spec_time_of_day(s@.subrange(from as int, n as int)) is None,
{
    let ghost whole = s@.subrange(from as int, n as int);
    let end = if n > from && s.get_char(n - 1) == 'Z' {
        n - 1
    } else {
        n
    };
    let ghost t = s@.subrange(from as int, end as int);
    proof {
        if end < n {
            assert(t =~= whole.drop_last());
        } else {
            assert(t =~= whole);
        }
    }
    let len = end - from;
    let hms: Option<(Option<u8>, Option<u8>, Option<u8>)> = if len == 2 {
        Some((num2(s, n, from), Some(0), Some(0)))
    } else if len == 4 {
        Some((num2(s, n, from), num2(s, n, from + 2), Some(0)))
    } else if len == 6 {
        Some((num2(s, n, from), num2(s, n, from + 2), num2(s, n, from + 4)))
    } else if len == 5 && s.get_char(from + 2) == ':' {
        Some((num2(s, n, from), num2(s, n, from + 3), Some(0)))
    } else if len == 8 && s.get_char(from + 2) == ':' && s.get_char(from + 5) == ':' {
        Some((num2(s, n, from), num2(s, n, from + 3), num2(s, n, from + 6)))
    } else {
        None
    };
    proof {
        assert forall|j: int| 0 <= j < t.len() implies t[j] == s@[from + j] by {}
    }
    match hms {
        Some((Some(h), Some(m), Some(sec))) => {
            if h < 24 && m < 60 && sec < 60 {
                Some((h, m, sec))
            } else {
                None
            }
        },
        _ => None,
    }
}

/// Parses a date-only feed value; see [`spec_parse_date`] for the grammar.
pub fn parse_ics_date(s: &str) -> (r: Option<CalendarDate>)
    ensures
        r == spec_parse_date(s@),
        r matches Some(d) ==> d.valid(),
{
    let n = s.unicode_len();
    match date_prefix(s, n) {
        Some((d, used)) => {
            if n == used {
                Some(d)
            } else if n > used && s.get_char(used) == 'T' {
                match time_of_day(s, n, used + 1) {
                    Some(_) => Some(d),
                    None => None,
                }
            } else {
                None
            }
        },
        None => None,
    }
}

/// Parses a date-time feed value; see [`spec_parse_datetime`] for the grammar.
pub fn parse_ics_datetime(s: &str) -> (r: Option<LocalDateTime>)
    ensures
        r == spec_parse_datetime(s@),
        r matches Some(t) ==> t.valid(),
{
    let n = s.unicode_len();
    match date_prefix(s, n) {
        Some((d, used)) => {
            if n > used && s.get_char(used) == 'T' {
                match time_of_day(s, n, used + 1) {
                    Some((h, m, sec)) => Some(
                        LocalDateTime { date: d, hour: h, minute: m, second: sec },
                    ),
                    None => None,
                }
            } else {
                None
            }
        },
        None => None,
    }
}

} // verus!
