//! The page layout: turns the bounded calendar window, the weather snapshot
//! and the clock into a flat list of drawing commands over the fixed 400x300
//! canvas — a date block, a weather line, the agenda rows, and a footer
//! strip that the agenda never overruns.

use vstd::prelude::*;

use crate::date::{CalendarDate, LocalDateTime, spec_is_weekend, is_weekend};
use crate::model::{WeatherInfo, WeatherInfoState};
use crate::store::DateInfo;
use crate::text::{dec_u64, month_abbr, pad2, spec_dec, spec_digit_char, spec_month_abbr,
    spec_pad2, spec_substr_th, substr_th};

verus! {

/// The five faces the page is set in.
#[derive(Clone, Copy, PartialEq, Eq, Structural, Debug)]
pub enum FontKind {
    Anta,
    ChakraRegular,
    ChakraBold,
    ChakraSemiBold,
    Material,
}

/// One drawing command over the canvas.
#[derive(Debug)]
pub enum DrawCmd {
    Rect { x: u32, y: u32, w: u32, h: u32, col: (u8, u8, u8) },
    Cross { x: u32, y: u32, col: (u8, u8, u8) },
    Text { x: u32, y: u32, sx: u16, sy: u16, font: FontKind, col: (u8, u8, u8), text: String },
}

/// Mathematical value of a drawing command.
pub enum CmdView {
    Rect { x: u32, y: u32, w: u32, h: u32, col: (u8, u8, u8) },
    Cross { x: u32, y: u32, col: (u8, u8, u8) },
    Text {
        x: u32,
        y: u32,
        sx: u16,
        sy: u16,
        font: FontKind,
        col: (u8, u8, u8),
        text: Seq<char>,
    },
}

pub open spec fn cmd_view(c: DrawCmd) -> CmdView {
    match c {
        DrawCmd::Rect { x, y, w, h, col } => CmdView::Rect { x, y, w, h, col },
        DrawCmd::Cross { x, y, col } => CmdView::Cross { x, y, col },
        DrawCmd::Text { x, y, sx, sy, font, col, text } => CmdView::Text {
            x,
            y,
            sx,
            sy,
            font,
            col,
            text: text@,
        },
    }
}

pub open spec fn cmds_view(s: Seq<DrawCmd>) -> Seq<CmdView> {
    Seq::new(s.len(), |i: int| cmd_view(s[i]))
}

proof fn lemma_cmds_view_push(s: Seq<DrawCmd>, c: DrawCmd)
    ensures
        cmds_view(s.push(c)) == cmds_view(s).push(cmd_view(c)),
{
    assert(cmds_view(s.push(c)) =~= cmds_view(s).push(cmd_view(c)));
}

/// The header line of a day: year, month abbreviation and day number, with
/// the holiday label dash-joined and the whole truncated to 32 visible
/// characters when a label is present.
pub open spec fn spec_header_text(e: DateInfo) -> Seq<char> {
    let base = spec_dec(e.date.year as int).add(" "@).add(
        spec_month_abbr(e.date.month as int),
    ).add(" "@).add(spec_dec(e.date.day as int));
    match e.holiday {
        Some(l) => spec_substr_th(base.add("\u{2014}"@).add(l@), 32),
        None => base,
    }
}

pub fn header_text(e: &DateInfo) -> (r: String)
    requires
        e.date.valid(),
    ensures
        r@ == spec_header_text(*e),
{
    let mut s = dec_u64(e.date.year as u64);
    s.append(" ");
    let m = month_abbr(e.date.month);
    s.append(m.as_str());
    s.append(" ");
    let d = dec_u64(e.date.day as u64);
    s.append(d.as_str());
    match &e.holiday {
        Some(l) => {
            s.append("\u{2014}");
            s.append(l.as_str());
            proof {
                assert(s@ =~= spec_dec(e.date.year as int).add(" "@).add(
                    spec_month_abbr(e.date.month as int),
                ).add(" "@).add(spec_dec(e.date.day as int)).add("\u{2014}"@).add(l@));
            }
            substr_th(s, 32)
        },
        None => {
            proof {
                assert(s@ =~= spec_header_text(*e));
            }
            s
        },
    }
}

/// An event row's `HH:MM` stamp.
pub open spec fn spec_time_text(h: int, m: int) -> Seq<char> {
    spec_pad2(h).add(":"@).add(spec_pad2(m))
}

pub fn time_text(h: u8, m: u8) -> (r: String)
    ensures
        r@ == spec_time_text(h as int, m as int),
{
    let mut s = pad2(h);
    s.append(":");
    let mm = pad2(m);
    s.append(mm.as_str());
    proof {
        assert(s@ =~= spec_time_text(h as int, m as int));
    }
    s
}

/// The temperature with one decimal place and its unit appended.
pub open spec fn spec_temp_text(t: int, unit: Seq<char>) -> Seq<char> {
    let mag = if t < 0 {
        -t
    } else {
        t
    };
    let body = spec_dec(mag / 10).add("."@).add(seq![spec_digit_char(mag % 10)]).add(unit);
    if t < 0 {
        "-"@.add(body)
    } else {
        body
    }
}

pub fn temp_text(t: i64, unit: &str) -> (r: String)
    requires
        t > i64::MIN,
    ensures
        r@ == spec_temp_text(t as int, unit@),
{
    let neg = t < 0;
    let mag: u64 = if neg {
        (-t) as u64
    } else {
        t as u64
    };
    let mut s = if neg {
        let mut s0 = String::from_str("-");
        let w = dec_u64(mag / 10);
        s0.append(w.as_str());
        s0
    } else {
        dec_u64(mag / 10)
    };
    s.append(".");
    let fr = dec_u64(mag % 10);
    s.append(fr.as_str());
    s.append(unit);
    proof {
        assert(spec_dec(mag as int % 10) =~= seq![spec_digit_char(mag as int % 10)]);
        assert(s@ =~= spec_temp_text(t as int, unit@));
    }
    s
}

/// The footer line: the rendering timestamp with the sub-second part
/// dropped.
pub open spec fn spec_footer_text(now: LocalDateTime) -> Seq<char> {
    "Last update: "@.add(spec_dec(now.date.year as int)).add("-"@).add(
        spec_pad2(now.date.month as int),
    ).add("-"@).add(spec_pad2(now.date.day as int)).add(" "@).add(spec_pad2(now.hour as int)).add(
        ":"@,
    ).add(spec_pad2(now.minute as int)).add(":"@).add(spec_pad2(now.second as int))
}

pub fn footer_text(now: &LocalDateTime) -> (r: String)
    ensures
        r@ == spec_footer_text(*now),
{
    let mut s = String::from_str("Last update: ");
    let y = dec_u64(now.date.year as u64);
    s.append(y.as_str());
    s.append("-");
    let mo = pad2(now.date.month);
    s.append(mo.as_str());
    s.append("-");
    let d = pad2(now.date.day);
    s.append(d.as_str());
    s.append(" ");
    let h = pad2(now.hour);
    s.append(h.as_str());
    s.append(":");
    let mi = pad2(now.minute);
    s.append(mi.as_str());
    s.append(":");
    let sec = pad2(now.second);
    s.append(sec.as_str());
    proof {
        assert(s@ =~= spec_footer_text(*now));
    }
    s
}

/// The glyph of each condition code in the icon face; unknown or absent
/// weather falls back to a plain question mark.
pub open spec fn spec_weather_icon(w: Option<WeatherInfoState>) -> Seq<char> {
    match w {
        Some(WeatherInfoState::Cloudy) => "\u{F0590}"@,
        Some(WeatherInfoState::Fog) => "\u{F0591}"@,
        Some(WeatherInfoState::Hail) => "\u{F0592}"@,
        Some(WeatherInfoState::Lightning) => "\u{F0593}"@,
        Some(WeatherInfoState::LightningRainy) => "\u{F067E}"@,
        Some(WeatherInfoState::ClearNight) => "\u{F0594}"@,
        Some(WeatherInfoState::Partlycloudy) => "\u{F0595}"@,
        Some(WeatherInfoState::Pouring) => "\u{F0596}"@,
        Some(WeatherInfoState::Rainy) => "\u{F0597}"@,
        Some(WeatherInfoState::Snowy) => "\u{F0598}"@,
        Some(WeatherInfoState::SnowyRainy) => "\u{F067F}"@,
        Some(WeatherInfoState::Sunny) => "\u{F0599}"@,
        Some(WeatherInfoState::Windy) => "\u{F059D}"@,
        Some(WeatherInfoState::WindyVariant) => "\u{F059E}"@,
        Some(WeatherInfoState::Exceptional) => "?"@,
        None => "?"@,
    }
}

fn weather_icon(w: &Option<WeatherInfo>) -> (r: &'static str)
    ensures
        r@ == spec_weather_icon(match *w {
            Some(wi) => Some(wi.state),
            None => None,
        }),
{
    match w {
        Some(wi) => match wi.state {
            WeatherInfoState::Cloudy => "\u{F0590}",
            WeatherInfoState::Fog => "\u{F0591}",
            WeatherInfoState::Hail => "\u{F0592}",
            WeatherInfoState::Lightning => "\u{F0593}",
            WeatherInfoState::LightningRainy => "\u{F067E}",
            WeatherInfoState::ClearNight => "\u{F0594}",
            WeatherInfoState::Partlycloudy => "\u{F0595}",
            WeatherInfoState::Pouring => "\u{F0596}",
            WeatherInfoState::Rainy => "\u{F0597}",
            WeatherInfoState::Snowy => "\u{F0598}",
            WeatherInfoState::SnowyRainy => "\u{F067F}",
            WeatherInfoState::Sunny => "\u{F0599}",
            WeatherInfoState::Windy => "\u{F059D}",
            WeatherInfoState::WindyVariant => "\u{F059E}",
            WeatherInfoState::Exceptional => "?",
        },
        None => "?",
    }
}

/// Today is treated as a holiday on weekends, and whenever its entry in the
/// window carries a holiday label.
pub open spec fn spec_is_today_holiday(win: Seq<DateInfo>, today: CalendarDate) -> bool {
    spec_is_weekend(today) || exists|i: int|
        0 <= i < win.len() && (#[trigger] win[i]).date == today && win[i].holiday is Some
}

/// Today is an event day when its entry in the window has at least one
/// event.
pub open spec fn spec_is_today_event(win: Seq<DateInfo>, today: CalendarDate) -> bool {
    exists|i: int|
        0 <= i < win.len() && (#[trigger] win[i]).date == today && win[i].events@.len() > 0
}

/// Computes the two derived predicates of the date block.
pub fn today_flags(win: &Vec<DateInfo>, today: &CalendarDate) -> (r: (bool, bool))
    requires
        today.valid(),
    ensures
        r.0 == spec_is_today_holiday(win@, *today),
        r.1 == spec_is_today_event(win@, *today),
{
    let mut holiday = is_weekend(today);
    let mut event = false;
    let n = win.len();
    let mut i: usize = 0;
    while i < n
        invariant
            i <= n,
            n == win@.len(),
            holiday == (spec_is_weekend(*today) || exists|j: int|
                0 <= j < i && (#[trigger] win@[j]).date == *today && win@[j].holiday is Some),
            event == exists|j: int|
                0 <= j < i && (#[trigger] win@[j]).date == *today && win@[j].events@.len() > 0,
        decreases n - i,
    {
        let e = &win[i];
        if e.date == *today {
            if e.holiday.is_some() {
                holiday = true;
            }
            if e.events.len() > 0 {
                event = true;
            }
        }
        i = i + 1;
    }
    (holiday, event)
}

/// The dot pattern of an event day: one cross every four pixels over the
/// date block, column by column.
pub open spec fn spec_dot_col(x: int, y: int) -> Seq<CmdView>
    decreases 124 - y,
{
    if y >= 120 {
        Seq::empty()
    } else {
        seq![
            CmdView::Cross { x: (20 + x) as u32, y: (10 + y) as u32, col: (255u8, 255u8, 255u8) },
        ].add(spec_dot_col(x, y + 4))
    }
}

pub open spec fn spec_dots(x: int) -> Seq<CmdView>
    decreases 94 - x,
{
    if x >= 90 {
        Seq::empty()
    } else {
        spec_dot_col(x, 0).add(spec_dots(x + 4))
    }
}

fn push_dot_col(out: &mut Vec<DrawCmd>, x: u32, y: u32)
    requires
        x < 90,
        y % 4 == 0,
        y <= 120,
    ensures
        cmds_view(final(out)@) == cmds_view(old(out)@).add(spec_dot_col(x as int, y as int)),
    decreases 124 - y,
{
    if y >= 120 {
        proof {
            assert(cmds_view(out@) =~= cmds_view(out@).add(spec_dot_col(x as int, y as int)));
        }
    } else {
        let ghost before = out@;
        let c = DrawCmd::Cross { x: 20 + x, y: 10 + y, col: (255, 255, 255) };
        out.push(c);
        proof {
            lemma_cmds_view_push(before, DrawCmd::Cross {
                x: (20 + x) as u32,
                y: (10 + y) as u32,
                col: (255u8, 255u8, 255u8),
            });
        }
        push_dot_col(out, x, y + 4);
        proof {
            assert(cmds_view(out@) =~= cmds_view(before).add(
                spec_dot_col(x as int, y as int),
            ));
        }
    }
}

fn push_dots(out: &mut Vec<DrawCmd>, x: u32)
    requires
        x % 4 == 0,
        x <= 92,
    ensures
        cmds_view(final(out)@) == cmds_view(old(out)@).add(spec_dots(x as int)),
    decreases 94 - x,
{
    if x >= 90 {
        proof {
            assert(cmds_view(out@) =~= cmds_view(out@).add(spec_dots(x as int)));
        }
    } else {
        let ghost before = out@;
        push_dot_col(out, x, 0);
        push_dots(out, x + 4);
        proof {
            assert(cmds_view(out@) =~= cmds_view(before).add(spec_dots(x as int)));
        }
    }
}

/// The rows of one day's events from vertical position `y`: each event draws
/// a gray backing box, its `HH:MM` stamp and its truncated name, and the
/// cursor stops once it passes the reserved footer strip.
pub open spec fn spec_event_rows(
    evs: Seq<(String, crate::store::DateInfoEventMode)>,
    y: int,
    is_holiday: bool,
) -> (Seq<CmdView>, int)
    decreases evs.len(),
{
    if evs.len() == 0 {
        (Seq::empty(), y)
    } else {
        let ev = evs[0].1;
        let tcol = if is_holiday {
            (255u8, 0u8, 0u8)
        } else {
            (0u8, 0u8, 0u8)
        };
        let row = seq![
            CmdView::Rect {
                x: 140u32,
                y: y as u32,
                w: 250u32,
                h: 24u32,
                col: (137u8, 136u8, 136u8),
            },
            CmdView::Text {
                x: 150u32,
                y: (y + 5) as u32,
                sx: 16u16,
                sy: 16u16,
                font: FontKind::ChakraRegular,
                col: tcol,
                text: spec_time_text(ev.hour as int, ev.minute as int),
            },
            CmdView::Text {
                x: 190u32,
                y: (y + 5) as u32,
                sx: 16u16,
                sy: 16u16,
                font: FontKind::ChakraSemiBold,
                col: tcol,
                text: spec_substr_th(ev.name@, 32),
            },
        ];
        let y2 = y + 21;
        if y2 > 260 {
            (row, y2)
        } else {
            let rest = spec_event_rows(evs.drop_first(), y2, is_holiday);
            (row.add(rest.0), rest.1)
        }
    }
}

/// The agenda from vertical position `y`: each day draws a header bar in its
/// holiday color and then its event rows; nothing more is drawn once the
/// cursor passes the reserved footer strip.
pub open spec fn spec_agenda(entries: Seq<DateInfo>, y: int) -> Seq<CmdView>
    decreases entries.len(),
{
    if entries.len() == 0 || y > 260 {
        Seq::empty()
    } else {
        let e = entries[0];
        let holiday = e.holiday is Some;
        let hcol = if holiday {
            (255u8, 0u8, 0u8)
        } else {
            (0u8, 0u8, 0u8)
        };
        let hdr = seq![
            CmdView::Rect { x: 140u32, y: y as u32, w: 250u32, h: 24u32, col: hcol },
            CmdView::Text {
                x: 150u32,
                y: (y + 4) as u32,
                sx: 16u16,
                sy: 16u16,
                font: FontKind::ChakraBold,
                col: (255u8, 255u8, 255u8),
                text: spec_header_text(e),
            },
        ];
        let y2 = y + 24;
        if y2 > 260 {
            hdr
        } else {
            let rows = spec_event_rows(e.events@, y2, holiday);
            hdr.add(rows.0).add(spec_agenda(entries.drop_first(), rows.1))
        }
    }
}

fn push_event_rows(
    evs: &Vec<(String, crate::store::DateInfoEventMode)>,
    j: usize,
    y: u32,
    is_holiday: bool,
    out: &mut Vec<DrawCmd>,
) -> (yf: u32)
    requires
        j <= evs@.len(),
        y <= 260,
    ensures
        cmds_view(final(out)@) == cmds_view(old(out)@).add(
            spec_event_rows(evs@.skip(j as int), y as int, is_holiday).0,
        ),
        yf as int == spec_event_rows(evs@.skip(j as int), y as int, is_holiday).1,
        yf >= y,
    decreases evs@.len() - j,
{
    let ghost tail = evs@.skip(j as int);
    if j >= evs.len() {
        proof {
            assert(tail =~= Seq::<(String, crate::store::DateInfoEventMode)>::empty());
            assert(cmds_view(out@) =~= cmds_view(out@).add(Seq::<CmdView>::empty()));
        }
        y
    } else {
        proof {
            assert(tail[0] == evs@[j as int]);
            assert(tail.drop_first() =~= evs@.skip(j as int + 1));
        }
        let ghost before = out@;
        let ev = &evs[j].1;
        let tcol: (u8, u8, u8) = if is_holiday {
            (255, 0, 0)
        } else {
            (0, 0, 0)
        };
        let c1 = DrawCmd::Rect { x: 140, y, w: 250, h: 24, col: (137, 136, 136) };
        let ghost gc1 = c1;
        out.push(c1);
        proof {
            lemma_cmds_view_push(before, gc1);
        }
        let ghost b2 = out@;
        let tt = time_text(ev.hour, ev.minute);
        let c2 = DrawCmd::Text {
            x: 150,
            y: y + 5,
            sx: 16,
            sy: 16,
            font: FontKind::ChakraRegular,
            col: tcol,
            text: tt,
        };
        let ghost gc2 = c2;
        out.push(c2);
        proof {
            lemma_cmds_view_push(b2, gc2);
        }
        let ghost b3 = out@;
        let nm = substr_th(ev.name.clone(), 32);
        let c3 = DrawCmd::Text {
            x: 190,
            y: y + 5,
            sx: 16,
            sy: 16,
            font: FontKind::ChakraSemiBold,
            col: tcol,
            text: nm,
        };
        let ghost gc3 = c3;
        out.push(c3);
        proof {
            lemma_cmds_view_push(b3, gc3);
        }
        let y2 = y + 21;
        if y2 > 260 {
            proof {
                assert(cmds_view(out@) =~= cmds_view(before).add(
                    spec_event_rows(tail, y as int, is_holiday).0,
                ));
            }
            y2
        } else {
            let yf = push_event_rows(evs, j + 1, y2, is_holiday, out);
            proof {
                assert(cmds_view(out@) =~= cmds_view(before).add(
                    spec_event_rows(tail, y as int, is_holiday).0,
                ));
            }
            yf
        }
    }
}

fn push_agenda(entries: &Vec<DateInfo>, i: usize, y: u32, out: &mut Vec<DrawCmd>)
    requires
        i <= entries@.len(),
        forall|a: int| 0 <= a < entries@.len() ==> (#[trigger] entries@[a]).date.valid(),
    ensures
        cmds_view(final(out)@) == cmds_view(old(out)@).add(
            spec_agenda(entries@.skip(i as int), y as int),
        ),
    decreases entries@.len() - i,
{
    let ghost tail = entries@.skip(i as int);
    if i >= entries.len() || y > 260 {
        proof {
            if i >= entries@.len() {
                assert(tail =~= Seq::<DateInfo>::empty());
            }
            assert(cmds_view(out@) =~= cmds_view(out@).add(Seq::<CmdView>::empty()));
        }
    } else {
        proof {
            assert(tail[0] == entries@[i as int]);
            assert(tail.drop_first() =~= entries@.skip(i as int + 1));
        }
        let ghost before = out@;
        let e = &entries[i];
        let holiday = e.holiday.is_some();
        let hcol: (u8, u8, u8) = if holiday {
            (255, 0, 0)
        } else {
            (0, 0, 0)
        };
        let c1 = DrawCmd::Rect { x: 140, y, w: 250, h: 24, col: hcol };
        let ghost gc1 = c1;
        out.push(c1);
        proof {
            lemma_cmds_view_push(before, gc1);
        }
        let ghost b2 = out@;
        let ht = header_text(e);
        let c2 = DrawCmd::Text {
            x: 150,
            y: y + 4,
            sx: 16,
            sy: 16,
            font: FontKind::ChakraBold,
            col: (255, 255, 255),
            text: ht,
        };
        let ghost gc2 = c2;
        out.push(c2);
        proof {
            lemma_cmds_view_push(b2, gc2);
        }
        let y2 = y + 24;
        if y2 > 260 {
            proof {
                assert(cmds_view(out@) =~= cmds_view(before).add(
                    spec_agenda(tail, y as int),
                ));
            }
        } else {
            let yf = push_event_rows(&e.events, 0, y2, holiday, out);
            proof {
                assert(e.events@.skip(0) =~= e.events@);
            }
            push_agenda(entries, i + 1, yf, out);
            proof {
                assert(cmds_view(out@) =~= cmds_view(before).add(
                    spec_agenda(tail, y as int),
                ));
            }
        }
    }
}

pub open spec fn spec_absdiff(a: int, b: int) -> int {
    if a >= b {
        a - b
    } else {
        b - a
    }
}

fn absdiff(a: u32, b: u32) -> (r: u32)
    ensures
        r as int == spec_absdiff(a as int, b as int),
{
    if a >= b {
        a - b
    } else {
        b - a
    }
}

/// Everything above the agenda: background, date block, weather glyph and
/// temperature.
pub open spec fn spec_page_head(
    weather: Option<WeatherInfo>,
    now: LocalDateTime,
    is_holiday: bool,
    is_event: bool,
    day_w: int,
    mth_w: int,
    mth_h: int,
    yr_w: int,
) -> Seq<CmdView> {
    let white = (255u8, 255u8, 255u8);
    let black = (0u8, 0u8, 0u8);
    let red = (255u8, 0u8, 0u8);
    let gray = (137u8, 136u8, 136u8);
    let daycol = if is_holiday {
        red
    } else {
        black
    };
    let day_x = 10 + if 7 >= spec_absdiff(90, day_w) / 2 {
        7
    } else {
        spec_absdiff(90, day_w) / 2
    };
    let mth_x = 10 + spec_absdiff(mth_w, 90) / 2;
    let yr_x = 10 + spec_absdiff(yr_w, 110) / 2;
    let yr_y = if mth_h <= u32::MAX - 140 {
        140 + mth_h
    } else {
        u32::MAX as int
    };
    let head = seq![
        CmdView::Rect { x: 0u32, y: 0u32, w: 400u32, h: 300u32, col: white },
        CmdView::Rect { x: 20u32, y: 10u32, w: 90u32, h: 120u32, col: daycol },
    ].add(
        if is_event {
            spec_dots(0)
        } else {
            Seq::empty()
        },
    ).add(
        seq![
            CmdView::Text {
                x: day_x as u32,
                y: 10u32,
                sx: 90u16,
                sy: 135u16,
                font: FontKind::Anta,
                col: white,
                text: spec_dec(now.date.day as int),
            },
            CmdView::Text {
                x: mth_x as u32,
                y: 130u32,
                sx: 60u16,
                sy: 60u16,
                font: FontKind::Anta,
                col: black,
                text: spec_month_abbr(now.date.month as int),
            },
            CmdView::Text {
                x: yr_x as u32,
                y: yr_y as u32,
                sx: 90u16,
                sy: 90u16,
                font: FontKind::Anta,
                col: black,
                text: spec_dec(now.date.year as int % 100),
            },
            CmdView::Text {
                x: 150u32,
                y: 10u32,
                sx: 45u16,
                sy: 45u16,
                font: FontKind::Material,
                col: black,
                text: spec_weather_icon(
                    match weather {
                        Some(wi) => Some(wi.state),
                        None => None,
                    },
                ),
            },
        ],
    ).add(
        match weather {
            Some(w) => seq![
                CmdView::Text {
                    x: 205u32,
                    y: 17u32,
                    sx: 30u16,
                    sy: 30u16,
                    font: FontKind::Anta,
                    col: black,
                    text: spec_temp_text(
                        w.attributes.temperature_tenths as int,
                        w.attributes.temperature_unit@,
                    ),
                },
            ],
            None => Seq::empty(),
        },
    );
    head
}

/// The whole page as one command list, given the measured widths and height
/// of the date block's three text runs.
pub open spec fn spec_page_cmds(
    win: Seq<DateInfo>,
    weather: Option<WeatherInfo>,
    now: LocalDateTime,
    is_holiday: bool,
    is_event: bool,
    day_w: int,
    mth_w: int,
    mth_h: int,
    yr_w: int,
) -> Seq<CmdView> {
    spec_page_head(weather, now, is_holiday, is_event, day_w, mth_w, mth_h, yr_w).add(
        spec_agenda(win, 60),
    ).add(
        seq![
            CmdView::Rect {
                x: 0u32,
                y: 275u32,
                w: 400u32,
                h: 25u32,
                col: (137u8, 136u8, 136u8),
            },
            CmdView::Text {
                x: 10u32,
                y: 280u32,
                sx: 12u16,
                sy: 12u16,
                font: FontKind::ChakraSemiBold,
                col: (0u8, 0u8, 0u8),
                text: spec_footer_text(now),
            },
        ],
    )
}

/// Lays the whole page out as drawing commands: the date block (accent color
/// on holidays, dotted on event days), the weather glyph and temperature,
/// the agenda, and the footer strip.
pub fn build_page(
    win: &Vec<DateInfo>,
    weather: &Option<WeatherInfo>,
    now: &LocalDateTime,
    is_holiday: bool,
    is_event: bool,
    day_w: u32,
    mth_w: u32,
    mth_h: u32,
    yr_w: u32,
) -> (r: Vec<DrawCmd>)
    requires
        now.valid(),
        forall|a: int| 0 <= a < win@.len() ==> (#[trigger] win@[a]).date.valid(),
        weather matches Some(w) ==> w.attributes.temperature_tenths > i64::MIN,
    ensures
        cmds_view(r@) == spec_page_cmds(
            win@,
            *weather,
            *now,
            is_holiday,
            is_event,
            day_w as int,
            mth_w as int,
            mth_h as int,
            yr_w as int,
        ),
{
    let white: (u8, u8, u8) = (255, 255, 255);
    let black: (u8, u8, u8) = (0, 0, 0);
    let red: (u8, u8, u8) = (255, 0, 0);
    let gray: (u8, u8, u8) = (137, 136, 136);
    let mut out: Vec<DrawCmd> = Vec::new();
    out.push(DrawCmd::Rect { x: 0, y: 0, w: 400, h: 300, col: white });
    let daycol = if is_holiday {
        red
    } else {
        black
    };
    out.push(DrawCmd::Rect { x: 20, y: 10, w: 90, h: 120, col: daycol });
    let ghost rects = seq![
        CmdView::Rect { x: 0u32, y: 0u32, w: 400u32, h: 300u32, col: (255u8, 255u8, 255u8) },
        CmdView::Rect { x: 20u32, y: 10u32, w: 90u32, h: 120u32, col: daycol },
    ];
    proof {
        assert(cmds_view(out@) =~= rects);
    }
    if is_event {
        push_dots(&mut out, 0);
    }
    let ghost with_dots = rects.add(
        if is_event {
            spec_dots(0)
        } else {
            Seq::<CmdView>::empty()
        },
    );
    proof {
        if is_event {
        } else {
            assert(cmds_view(out@) =~= with_dots);
        }
    }
    let hd = absdiff(90, day_w) / 2;
    let day_x = 10 + if 7 >= hd {
        7
    } else {
        hd
    };
    let ds = dec_u64(now.date.day as u64);
    out.push(
        DrawCmd::Text {
            x: day_x,
            y: 10,
            sx: 90,
            sy: 135,
            font: FontKind::Anta,
            col: white,
            text: ds,
        },
    );
    let mth_x = 10 + absdiff(mth_w, 90) / 2;
    let ms = month_abbr(now.date.month);
    out.push(
        DrawCmd::Text {
            x: mth_x,
            y: 130,
            sx: 60,
            sy: 60,
            font: FontKind::Anta,
            col: black,
            text: ms,
        },
    );
    let yr_x = 10 + absdiff(yr_w, 110) / 2;
    let yr_y = if mth_h <= u32::MAX - 140 {
        140 + mth_h
    } else {
        u32::MAX
    };
    let ys = dec_u64((now.date.year % 100) as u64);
    out.push(
        DrawCmd::Text {
            x: yr_x,
            y: yr_y,
            sx: 90,
            sy: 90,
            font: FontKind::Anta,
            col: black,
            text: ys,
        },
    );
    let icon = weather_icon(weather);
    out.push(
        DrawCmd::Text {
            x: 150,
            y: 10,
            sx: 45,
            sy: 45,
            font: FontKind::Material,
            col: black,
            text: icon.to_owned(),
        },
    );
    match weather {
        Some(w) => {
            let ts = temp_text(w.attributes.temperature_tenths, w.attributes.temperature_unit.as_str());
            out.push(
                DrawCmd::Text {
                    x: 205,
                    y: 17,
                    sx: 30,
                    sy: 30,
                    font: FontKind::Anta,
                    col: black,
                    text: ts,
                },
            );
        },
        None => {},
    }
    let ghost head = spec_page_head(
        *weather,
        *now,
        is_holiday,
        is_event,
        day_w as int,
        mth_w as int,
        mth_h as int,
        yr_w as int,
    );
    proof {
        assert(cmds_view(out@) =~= head);
    }
    push_agenda(win, 0, 60, &mut out);
    let ghost with_agenda = head.add(spec_agenda(win@, 60));
    proof {
        assert(win@.skip(0) =~= win@);
        assert(cmds_view(out@) == with_agenda);
    }
    out.push(DrawCmd::Rect { x: 0, y: 275, w: 400, h: 25, col: gray });
    let ft = footer_text(now);
    out.push(
        DrawCmd::Text {
            x: 10,
            y: 280,
            sx: 12,
            sy: 12,
            font: FontKind::ChakraSemiBold,
            col: black,
            text: ft,
        },
    );
    proof {
        assert(cmds_view(out@) =~= spec_page_cmds(
            win@,
            *weather,
            *now,
            is_holiday,
            is_event,
            day_w as int,
            mth_w as int,
            mth_h as int,
            yr_w as int,
        ));
    }
    out
}

} // verus!
