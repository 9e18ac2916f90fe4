//! Calendar-feed ingestion: the ICS byte stream is parsed by an outside
//! parser into plain property lists, and the verified extraction below turns
//! those into holiday and event records, silently dropping any entry that
//! lacks a required field or carries an unparsable date.

use vstd::prelude::*;

use crate::date::{CalendarDate, LocalDateTime, parse_ics_date, parse_ics_datetime,
    spec_parse_date, spec_parse_datetime};
use crate::store::{DateInfoEventMode, EventRecord};
use crate::tz::{resolve_wall_time, resolved_in, spec_resolve_policy};

verus! {

/// One property of a calendar component: its uppercase name, its value, and
/// its parameter list.
#[derive(Debug)]
pub struct RawProperty {
    pub name: String,
    pub value: Option<String>,
    pub params: Vec<(String, Vec<String>)>,
}

/// One event component of a calendar feed, as a bare property list.
#[derive(Debug)]
pub struct RawEvent {
    pub properties: Vec<RawProperty>,
}

/// The event components an ICS byte stream parses into. The parser draws on
/// nothing but the bytes, so the split is a function of them alone.
pub uninterp spec fn ics_events_of(bytes: Seq<u8>) -> Seq<RawEvent>;

/// Relies on ical::IcalParser: splits an ICS byte stream into calendars and
/// their event components. Calendars that fail to parse are skipped;
/// properties are carried over field for field, an absent parameter list as
/// an empty one.
#[verifier::external_body]
fn parse_ics_events(bytes: &[u8]) -> (r: Vec<RawEvent>)
    ensures
        r@ == ics_events_of(bytes@),
{
    ical::IcalParser::new(std::io::Cursor::new(bytes))
        .filter_map(|c| c.ok())
        .flat_map(|c| c.events)
        .map(
            |e| RawEvent {
                properties: e.properties.into_iter().map(
                    |p| RawProperty {
                        name: p.name,
                        value: p.value,
                        params: p.params.unwrap_or_default(),
                    },
                ).collect(),
            },
        )
        .collect()
}

/// The first property of the list that carries the given name.
pub open spec fn spec_first_prop(props: Seq<RawProperty>, name: Seq<char>) -> Option<int>
    decreases props.len(),
{
    if props.len() == 0 {
        None
    } else if props[0].name@ == name {
        Some(0int)
    } else {
        match spec_first_prop(props.drop_first(), name) {
            Some(i) => Some(i + 1),
            None => None,
        }
    }
}

/// The value of the first property with the given name, if that property
/// exists and has a value.
pub open spec fn spec_prop_value(e: RawEvent, name: Seq<char>) -> Option<Seq<char>> {
    match spec_first_prop(e.properties@, name) {
        Some(i) => match e.properties@[i].value {
            Some(v) => Some(v@),
            None => None,
        },
        None => None,
    }
}

proof fn lemma_first_prop_skip(props: Seq<RawProperty>, name: Seq<char>, k: int)
    requires
        0 <= k <= props.len(),
        forall|j: int| 0 <= j < k ==> (#[trigger] props[j]).name@ != name,
    ensures
        spec_first_prop(props, name) == match spec_first_prop(props.skip(k), name) {
            Some(i) => Some(i + k),
            None => None::<int>,
        },
    decreases k,
{
    if k > 0 {
        assert(props.drop_first() =~= props.skip(1));
        assert forall|j: int| 0 <= j < k - 1 implies (#[trigger] props.skip(1)[j]).name@
            != name by {
            assert(props.skip(1)[j] == props[j + 1]);
        }
        lemma_first_prop_skip(props.skip(1), name, k - 1);
        assert(props.skip(1).skip(k - 1) =~= props.skip(k));
    } else {
        assert(props.skip(0) =~= props);
    }
}

/// Index of the first property named `name`, as the parser delivers it.
fn first_prop(props: &Vec<RawProperty>, name: &str) -> (r: Option<usize>)
    ensures
        r matches Some(i) ==> spec_first_prop(props@, name@) == Some(i as int) && i < props@.len()
            && props@[i as int].name@ == name@,
        r is None ==> spec_first_prop(props@, name@) is None,
{
    let n = props.len();
    let mut i: usize = 0;
    while i < n
        invariant
            i <= n,
            n == props@.len(),
            forall|j: int| 0 <= j < i ==> (#[trigger] props@[j]).name@ != name@,
        decreases n - i,
    {
        let pn = props[i].name.clone();
        if pn == name.to_owned() {
            proof {
                lemma_first_prop_skip(props@, name@, i as int);
                assert(props@.skip(i as int)[0] == props@[i as int]);
            }
            return Some(i);
        }
        i = i + 1;
    }
    proof {
        lemma_first_prop_skip(props@, name@, n as int);
        assert(props@.skip(n as int) =~= Seq::<RawProperty>::empty());
    }
    None
}

/// The value of the first property named `name`, cloned out of the event.
fn prop_value(e: &RawEvent, name: &str) -> (r: Option<String>)
    ensures
        r matches Some(v) ==> spec_prop_value(*e, name@) == Some(v@),
        r is None ==> spec_prop_value(*e, name@) is None,
{
    match first_prop(&e.properties, name) {
        Some(i) => match &e.properties[i].value {
            Some(v) => Some(v.clone()),
            None => None,
        },
        None => None,
    }
}

/// One record of the holiday feed: a parsable date-only start and a summary.
pub open spec fn spec_holiday_rec(e: RawEvent) -> Option<(CalendarDate, Seq<char>)> {
    match (spec_prop_value(e, "DTSTART"@), spec_prop_value(e, "SUMMARY"@)) {
        (Some(d), Some(s)) => match spec_parse_date(d) {
            Some(date) => Some((date, s)),
            None => None,
        },
        _ => None,
    }
}

/// All holiday records of a feed, in feed order; malformed entries dropped.
pub open spec fn spec_holiday_recs(evs: Seq<RawEvent>) -> Seq<(CalendarDate, Seq<char>)>
    decreases evs.len(),
{
    if evs.len() == 0 {
        Seq::empty()
    } else {
        match spec_holiday_rec(evs[0]) {
            Some(r) => seq![r].add(spec_holiday_recs(evs.drop_first())),
            None => spec_holiday_recs(evs.drop_first()),
        }
    }
}

/// View of a built holiday record list.
pub open spec fn holiday_recs_view(s: Seq<(CalendarDate, String)>) -> Seq<
    (CalendarDate, Seq<char>),
> {
    Seq::new(s.len(), |i: int| (s[i].0, s[i].1@))
}

/// Extracts every holiday record of the parsed feed: each event that has a
/// date-only start and a summary yields one `(date, label)` pair, in feed
/// order; events missing either field or with an unparsable date are dropped.
pub fn extract_holidays(events: &Vec<RawEvent>) -> (r: Vec<(CalendarDate, String)>)
    ensures
        holiday_recs_view(r@) == spec_holiday_recs(events@),
        forall|i: int| 0 <= i < r@.len() ==> (#[trigger] r@[i]).0.valid(),
{
    let n = events.len();
    let mut i: usize = 0;
    let mut r: Vec<(CalendarDate, String)> = Vec::new();
    proof {
        assert(events@.skip(0) =~= events@);
        assert(holiday_recs_view(r@) =~= Seq::<(CalendarDate, Seq<char>)>::empty());
    }
    while i < n
        invariant
            i <= n,
            n == events@.len(),
            spec_holiday_recs(events@) == holiday_recs_view(r@).add(
                spec_holiday_recs(events@.skip(i as int)),
            ),
            forall|a: int| 0 <= a < r@.len() ==> (#[trigger] r@[a]).0.valid(),
        decreases n - i,
    {
        let ghost tail = events@.skip(i as int);
        proof {
            assert(tail[0] == events@[i as int]);
            assert(tail.drop_first() =~= events@.skip(i as int + 1));
        }
        let e = &events[i];
        let ghost r0 = r@;
        match (prop_value(e, "DTSTART"), prop_value(e, "SUMMARY")) {
            (Some(d), Some(s)) => {
                match parse_ics_date(d.as_str()) {
                    Some(date) => {
                        r.push((date, s));
                        proof {
                            assert(holiday_recs_view(r@) =~= holiday_recs_view(r0).add(
                                seq![(date, s@)],
                            ));
                        }
                    },
                    None => {},
                }
            },
            _ => {},
        }
        proof {
            assert(spec_holiday_recs(events@) == holiday_recs_view(r@).add(
                spec_holiday_recs(events@.skip(i as int + 1)),
            ));
        }
        i = i + 1;
    }
    proof {
        assert(events@.skip(n as int) =~= Seq::<RawEvent>::empty());
        assert(holiday_recs_view(r@).add(Seq::<(CalendarDate, Seq<char>)>::empty())
            =~= holiday_recs_view(r@));
    }
    r
}

/// Holiday records straight from feed bytes: exactly the records of
/// [`spec_holiday_recs`] over the parsed event components.
pub fn holiday_records_from_ics(bytes: &[u8]) -> (r: Vec<(CalendarDate, String)>)
    ensures
        holiday_recs_view(r@) == spec_holiday_recs(ics_events_of(bytes@)),
        forall|i: int| 0 <= i < r@.len() ==> (#[trigger] r@[i]).0.valid(),
{
    let events = parse_ics_events(bytes);
    extract_holidays(&events)
}

/// The first `TZID` parameter that carries a value.
pub open spec fn spec_first_tzid(params: Seq<(String, Vec<String>)>) -> Option<Seq<char>>
    decreases params.len(),
{
    if params.len() == 0 {
        None
    } else if params[0].0@ == "TZID"@ && params[0].1@.len() > 0 {
        Some(params[0].1@[0]@)
    } else {
        spec_first_tzid(params.drop_first())
    }
}

fn first_tzid(params: &Vec<(String, Vec<String>)>) -> (r: Option<String>)
    ensures
        r matches Some(v) ==> spec_first_tzid(params@) == Some(v@),
        r is None ==> spec_first_tzid(params@) is None,
{
    let n = params.len();
    let mut i: usize = 0;
    proof {
        assert(params@.skip(0) =~= params@);
    }
    while i < n
        invariant
            i <= n,
            n == params@.len(),
            spec_first_tzid(params@) == spec_first_tzid(params@.skip(i as int)),
        decreases n - i,
    {
        let ghost tail = params@.skip(i as int);
        proof {
            assert(tail[0] == params@[i as int]);
            assert(tail.drop_first() =~= params@.skip(i as int + 1));
        }
        let p = &params[i];
        if p.0.clone() == String::from_str("TZID") && p.1.len() > 0 {
            return Some(p.1[0].clone());
        }
        i = i + 1;
    }
    proof {
        assert(params@.skip(n as int) =~= Seq::<(String, Vec<String>)>::empty());
    }
    None
}

/// What one event component offers before timezone resolution: its parsed
/// wall-clock start, the zone name to resolve it in, its id and its summary.
#[derive(Debug)]
pub struct EventCandidate {
    pub start: LocalDateTime,
    pub zone: String,
    pub id: String,
    pub summary: String,
}

/// The candidate of one event component: it needs a start property whose
/// value parses as a date-time, a summary and an id; the zone is the start's
/// `TZID` parameter, else the configured default.
pub open spec fn spec_event_candidate(e: RawEvent, default_tz: Seq<char>) -> Option<
    (LocalDateTime, Seq<char>, Seq<char>, Seq<char>),
> {
    match spec_first_prop(e.properties@, "DTSTART"@) {
        Some(pi) => {
            let p = e.properties@[pi];
            match (p.value, spec_prop_value(e, "SUMMARY"@), spec_prop_value(e, "UID"@)) {
                (Some(v), Some(sum), Some(uid)) => match spec_parse_datetime(v@) {
                    Some(ldt) => {
                        let zone = match spec_first_tzid(p.params@) {
                            Some(z) => z,
                            None => default_tz,
                        };
                        Some((ldt, zone, uid, sum))
                    },
                    None => None,
                },
                _ => None,
            }
        },
        None => None,
    }
}

/// Extracts the candidate of one parsed event component.
pub fn event_candidate(e: &RawEvent, default_tz: &str) -> (r: Option<EventCandidate>)
    ensures
        r matches Some(c) ==> spec_event_candidate(*e, default_tz@) == Some(
            (c.start, c.zone@, c.id@, c.summary@),
        ) && c.start.valid(),
        r is None ==> spec_event_candidate(*e, default_tz@) is None,
{
    let pi = match first_prop(&e.properties, "DTSTART") {
        Some(pi) => pi,
        None => {
            return None;
        },
    };
    let sum = match prop_value(e, "SUMMARY") {
        Some(s) => s,
        None => {
            return None;
        },
    };
    let uid = match prop_value(e, "UID") {
        Some(u) => u,
        None => {
            return None;
        },
    };
    let p = &e.properties[pi];
    let v = match &p.value {
        Some(v) => v,
        None => {
            return None;
        },
    };
    let ldt = match parse_ics_datetime(v.as_str()) {
        Some(l) => l,
        None => {
            return None;
        },
    };
    let zone = match first_tzid(&p.params) {
        Some(z) => z,
        None => default_tz.to_owned(),
    };
    Some(EventCandidate { start: ldt, zone, id: uid, summary: sum })
}

/// The record a resolved candidate yields: the event is keyed by its local
/// date and keeps its local wall-clock time of day; a candidate whose wall
/// time does not exist in its zone yields nothing.
pub open spec fn spec_build_event_record(c: EventCandidate, resolved: Option<i64>) -> Option<
    (CalendarDate, Seq<char>, (i64, u8, u8, Seq<char>)),
> {
    match resolved {
        Some(t) => Some((c.start.date, c.id@, (t, c.start.hour, c.start.minute, c.summary@))),
        None => None,
    }
}

/// Builds the store record of one candidate from its resolved instant.
pub fn build_event_record(c: EventCandidate, resolved: Option<i64>) -> (r: Option<EventRecord>)
    ensures
        r matches Some(rec) ==> spec_build_event_record(c, resolved) == Some(
            (rec.date, rec.id@, crate::store::ev_view(rec.mode)),
        ) && rec.date == c.start.date && rec.mode.hour == c.start.hour && rec.mode.minute
            == c.start.minute,
        r is None ==> resolved is None,
{
    match resolved {
        Some(t) => Some(
            EventRecord {
                date: c.start.date,
                id: c.id,
                mode: DateInfoEventMode {
                    epoch_second: t,
                    hour: c.start.hour,
                    minute: c.start.minute,
                    name: c.summary,
                },
            },
        ),
        None => None,
    }
}

/// All event records of a feed, in feed order: each component's candidate,
/// resolved in its zone, unless its wall time falls into a clock gap or a
/// required field is missing or malformed.
pub open spec fn spec_event_records(evs: Seq<RawEvent>, default_tz: Seq<char>) -> Seq<
    (CalendarDate, Seq<char>, (i64, u8, u8, Seq<char>)),
>
    decreases evs.len(),
{
    if evs.len() == 0 {
        Seq::empty()
    } else {
        let rest = spec_event_records(evs.drop_first(), default_tz);
        match spec_event_candidate(evs[0], default_tz) {
            Some((ldt, zone, id, sum)) => match spec_resolve_policy(resolved_in(ldt, zone)) {
                Some(inst) => seq![
                    (ldt.date, id, (inst, ldt.hour, ldt.minute, sum)),
                ].add(rest),
                None => rest,
            },
            None => rest,
        }
    }
}

/// View of a built event record list.
pub open spec fn event_recs_view(s: Seq<EventRecord>) -> Seq<
    (CalendarDate, Seq<char>, (i64, u8, u8, Seq<char>)),
> {
    Seq::new(s.len(), |i: int| (s[i].date, s[i].id@, crate::store::ev_view(s[i].mode)))
}

/// Event records straight from feed bytes: exactly the records of
/// [`spec_event_records`] over the parsed event components, each resolved in
/// its zone under the daylight-saving policy.
pub fn event_records_from_ics(bytes: &[u8], default_tz: &str) -> (r: Vec<EventRecord>)
    ensures
        event_recs_view(r@) == spec_event_records(ics_events_of(bytes@), default_tz@),
        forall|i: int|
            0 <= i < r@.len() ==> (#[trigger] r@[i]).date.valid() && r@[i].mode.hour < 24
                && r@[i].mode.minute < 60,
{
    let events = parse_ics_events(bytes);
    let n = events.len();
    let mut i: usize = 0;
    let mut r: Vec<EventRecord> = Vec::new();
    proof {
        assert(events@.skip(0) =~= events@);
        assert(event_recs_view(r@) =~= Seq::<
            (CalendarDate, Seq<char>, (i64, u8, u8, Seq<char>)),
        >::empty());
    }
    while i < n
        invariant
            i <= n,
            n == events@.len(),
            events@ == ics_events_of(bytes@),
            spec_event_records(events@, default_tz@) == event_recs_view(r@).add(
                spec_event_records(events@.skip(i as int), default_tz@),
            ),
            forall|a: int|
                0 <= a < r@.len() ==> (#[trigger] r@[a]).date.valid() && r@[a].mode.hour < 24
                    && r@[a].mode.minute < 60,
        decreases n - i,
    {
        let ghost tail = events@.skip(i as int);
        proof {
            assert(tail[0] == events@[i as int]);
            assert(tail.drop_first() =~= events@.skip(i as int + 1));
        }
        let ghost r0 = r@;
        if let Some(c) = event_candidate(&events[i], default_tz) {
            let resolved = resolve_wall_time(&c.start, c.zone.as_str());
            let ghost gc = c;
            if let Some(rec) = build_event_record(c, resolved) {
                r.push(rec);
                proof {
                    assert(event_recs_view(r@) =~= event_recs_view(r0).add(
                        seq![
                            (
                                gc.start.date,
                                gc.id@,
                                (
                                    resolved->0,
                                    gc.start.hour,
                                    gc.start.minute,
                                    gc.summary@,
                                ),
                            ),
                        ],
                    ));
                }
            }
        }
        proof {
            assert(spec_event_records(events@, default_tz@) == event_recs_view(r@).add(
                spec_event_records(events@.skip(i as int + 1), default_tz@),
            ));
        }
        i = i + 1;
    }
    proof {
        assert(events@.skip(n as int) =~= Seq::<RawEvent>::empty());
        assert(event_recs_view(r@).add(
            Seq::<(CalendarDate, Seq<char>, (i64, u8, u8, Seq<char>))>::empty(),
        ) =~= event_recs_view(r@));
    }
    r
}

} // verus!
