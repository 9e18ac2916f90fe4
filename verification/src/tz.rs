//! Timezone resolution for event start times: a wall-clock time and a zone
//! name yield the candidate instants, and the policy below maps them onto
//! one instant — the earlier one in a clock fold — or drops the time when it
//! falls into a clock gap.

use vstd::prelude::*;

use crate::date::LocalDateTime;
use time_tz::PrimitiveDateTimeExt;

verus! {

/// The instants at which a wall-clock time occurs in some timezone: exactly
/// one, two (the clocks were set back across it), or none (the clocks were
/// set forward over it).
#[derive(Clone, Copy, PartialEq, Eq, Structural, Debug)]
pub enum LocalResolution {
    Unique(i64),
    Ambiguous(i64, i64),
    Gap,
}

/// The candidate instants of a wall-clock time in the named zone, an unknown
/// name standing for UTC. The zone database is compiled into the program, so
/// the resolution is a function of the wall time and the name alone.
pub uninterp spec fn resolved_in(t: LocalDateTime, zone_name: Seq<char>) -> LocalResolution;

/// Relies on time_tz: `timezones::get_by_name` for the lookup (its miss
/// falling back to `timezones::db::UTC`) and `assume_timezone` on time's
/// PrimitiveDateTime for the resolution. Every candidate keeps the same
/// wall-clock fields; only the offsets differ.
#[verifier::external_body]
fn resolve_in_named_zone(t: &LocalDateTime, zone_name: &str) -> (r: LocalResolution)
    requires
        t.valid(),
    ensures
        r == resolved_in(*t, zone_name@),
{
    let tz = time_tz::timezones::get_by_name(zone_name).unwrap_or(time_tz::timezones::db::UTC);
    let month = time::Month::try_from(t.date.month).unwrap();
    let date = time::Date::from_calendar_date(t.date.year as i32, month, t.date.day).unwrap();
    let tod = time::Time::from_hms(t.hour, t.minute, t.second).unwrap();
    match time::PrimitiveDateTime::new(date, tod).assume_timezone(tz) {
        time_tz::OffsetResult::Some(a) => LocalResolution::Unique(a.unix_timestamp()),
        time_tz::OffsetResult::Ambiguous(a, b) => LocalResolution::Ambiguous(
            a.unix_timestamp(),
            b.unix_timestamp(),
        ),
        time_tz::OffsetResult::None => LocalResolution::Gap,
    }
}

/// The documented daylight-saving policy: a unique instant stands; of an
/// ambiguous pair the earlier instant is taken; a gap drops the record.
pub open spec fn spec_resolve_policy(r: LocalResolution) -> Option<i64> {
    match r {
        LocalResolution::Unique(t) => Some(t),
        LocalResolution::Ambiguous(a, b) => Some(
            if a <= b {
                a
            } else {
                b
            },
        ),
        LocalResolution::Gap => None,
    }
}

pub fn resolve_policy(r: &LocalResolution) -> (o: Option<i64>)
    ensures
        o == spec_resolve_policy(*r),
{
    match r {
        LocalResolution::Unique(t) => Some(*t),
        LocalResolution::Ambiguous(a, b) => Some(
            if *a <= *b {
                *a
            } else {
                *b
            },
        ),
        LocalResolution::Gap => None,
    }
}

/// The instant of a wall-clock time in the named zone: the zone database's
/// candidates under the policy of [`spec_resolve_policy`]; an unknown zone
/// name falls back to UTC.
pub fn resolve_wall_time(t: &LocalDateTime, zone_name: &str) -> (r: Option<i64>)
    requires
        t.valid(),
    ensures
        r == spec_resolve_policy(resolved_in(*t, zone_name@)),
{
    let res = resolve_in_named_zone(t, zone_name);
    resolve_policy(&res)
}

} // verus!
