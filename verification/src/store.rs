//! The aggregation store: a date-keyed snapshot of holidays and events,
//! ordered by date, with change-tracked merge operations and a bounded
//! ascending window query for rendering.

use vstd::prelude::*;

use crate::date::CalendarDate;
use crate::model::WeatherInfo;

verus! {

/// One event occurrence: the instant it starts, its local wall-clock time of
/// day, and its display name.
#[derive(Debug)]
pub struct DateInfoEventMode {
    pub epoch_second: i64,
    pub hour: u8,
    pub minute: u8,
    pub name: String,
}

/// The per-day record: an optional holiday label and the day's events, keyed
/// by their feed id.
#[derive(Debug)]
pub struct DateInfo {
    pub date: CalendarDate,
    pub holiday: Option<String>,
    pub events: Vec<(String, DateInfoEventMode)>,
}

/// The date-keyed calendar snapshot, ascending by date.
#[derive(Debug)]
pub struct CalendarMap {
    pub entries: Vec<DateInfo>,
}

/// Mathematical value of one event occurrence.
pub type EvView = (i64, u8, u8, Seq<char>);

/// Mathematical value of one day: its holiday label and its events by id.
pub type EntryView = (Option<Seq<char>>, Map<Seq<char>, EvView>);

pub open spec fn ev_view(e: DateInfoEventMode) -> EvView {
    (e.epoch_second, e.hour, e.minute, e.name@)
}

/// The id-keyed map held by an event list; a later duplicate id overrides an
/// earlier one, though well-formed lists have no duplicates.
pub open spec fn events_map(s: Seq<(String, DateInfoEventMode)>) -> Map<Seq<char>, EvView>
    decreases s.len(),
{
    if s.len() == 0 {
        Map::empty()
    } else {
        events_map(s.drop_last()).insert(s.last().0@, ev_view(s.last().1))
    }
}

pub open spec fn holiday_view(h: Option<String>) -> Option<Seq<char>> {
    match h {
        Some(s) => Some(s@),
        None => None,
    }
}

pub open spec fn entry_view(e: DateInfo) -> EntryView {
    (holiday_view(e.holiday), events_map(e.events@))
}

/// The date-keyed map held by an entry list.
pub open spec fn cal_map(s: Seq<DateInfo>) -> Map<int, EntryView>
    decreases s.len(),
{
    if s.len() == 0 {
        Map::empty()
    } else {
        cal_map(s.drop_last()).insert(s.last().date.key(), entry_view(s.last()))
    }
}

impl DateInfo {
    /// Valid date, and event ids unique within the day.
    pub open spec fn wf(self) -> bool {
        &&& self.date.valid()
        &&& forall|i: int, j: int|
            0 <= i < j < self.events.len() ==> self.events[i].0@ != self.events[j].0@
    }
}

impl CalendarMap {
    /// Entries strictly ascending by date, each well formed.
    pub open spec fn wf(self) -> bool {
        &&& forall|i: int, j: int|
            0 <= i < j < self.entries.len() ==> self.entries[i].date.key()
                < self.entries[j].date.key()
        &&& forall|i: int| 0 <= i < self.entries.len() ==> (#[trigger] self.entries[i]).wf()
    }
}

impl View for CalendarMap {
    type V = Map<int, EntryView>;

    open spec fn view(&self) -> Map<int, EntryView> {
        cal_map(self.entries@)
    }
}

/// The events of `m` at key `k`, or the empty map when the day is absent.
pub open spec fn events_of(m: Map<int, EntryView>, k: int) -> Map<Seq<char>, EvView> {
    if m.contains_key(k) {
        m[k].1
    } else {
        Map::empty()
    }
}

/// The holiday label of `m` at key `k`, or absent when the day is absent.
pub open spec fn holiday_of(m: Map<int, EntryView>, k: int) -> Option<Seq<char>> {
    if m.contains_key(k) {
        m[k].0
    } else {
        None
    }
}

proof fn lemma_events_map_contains(s: Seq<(String, DateInfoEventMode)>, k: Seq<char>)
    ensures
        events_map(s).contains_key(k) <==> exists|i: int| 0 <= i < s.len() && s[i].0@ == k,
    decreases s.len(),
{
    if s.len() > 0 {
        lemma_events_map_contains(s.drop_last(), k);
        if exists|i: int| 0 <= i < s.len() - 1 && s.drop_last()[i].0@ == k {
            let i = choose|i: int| 0 <= i < s.len() - 1 && s.drop_last()[i].0@ == k;
            assert(s[i].0@ == k);
        }
        if exists|i: int| 0 <= i < s.len() && s[i].0@ == k {
            let i = choose|i: int| 0 <= i < s.len() && s[i].0@ == k;
            if i < s.len() - 1 {
                assert(s.drop_last()[i].0@ == k);
            }
        }
    }
}

proof fn lemma_events_map_update(
    s: Seq<(String, DateInfoEventMode)>,
    j: int,
    p: (String, DateInfoEventMode),
)
    requires
        0 <= j < s.len(),
        forall|a: int, b: int| 0 <= a < b < s.len() ==> s[a].0@ != s[b].0@,
        p.0@ == s[j].0@,
    ensures
        events_map(s.update(j, p)) == events_map(s).insert(p.0@, ev_view(p.1)),
    decreases s.len(),
{
    let su = s.update(j, p);
    if j == s.len() - 1 {
        assert(su.drop_last() =~= s.drop_last());
        assert(events_map(su) =~= events_map(s).insert(p.0@, ev_view(p.1)));
    } else {
        lemma_events_map_update(s.drop_last(), j, p);
        assert(su.drop_last() =~= s.drop_last().update(j, p));
        assert(su.last() == s.last());
        assert(events_map(su) =~= events_map(s).insert(p.0@, ev_view(p.1)));
    }
}

proof fn lemma_cal_map_contains(s: Seq<DateInfo>, k: int)
    ensures
        cal_map(s).contains_key(k) <==> exists|i: int| 0 <= i < s.len() && s[i].date.key() == k,
    decreases s.len(),
{
    if s.len() > 0 {
        lemma_cal_map_contains(s.drop_last(), k);
        if exists|i: int| 0 <= i < s.len() - 1 && s.drop_last()[i].date.key() == k {
            let i = choose|i: int| 0 <= i < s.len() - 1 && s.drop_last()[i].date.key() == k;
            assert(s[i].date.key() == k);
        }
        if exists|i: int| 0 <= i < s.len() && s[i].date.key() == k {
            let i = choose|i: int| 0 <= i < s.len() && s[i].date.key() == k;
            if i < s.len() - 1 {
                assert(s.drop_last()[i].date.key() == k);
            }
        }
    }
}

proof fn lemma_cal_map_at(s: Seq<DateInfo>, i: int)
    requires
        0 <= i < s.len(),
        forall|a: int, b: int| 0 <= a < b < s.len() ==> s[a].date.key() != s[b].date.key(),
    ensures
        cal_map(s).contains_key(s[i].date.key()),
        cal_map(s)[s[i].date.key()] == entry_view(s[i]),
    decreases s.len(),
{
    if i < s.len() - 1 {
        lemma_cal_map_at(s.drop_last(), i);
    }
}

proof fn lemma_cal_map_update(s: Seq<DateInfo>, i: int, e: DateInfo)
    requires
        0 <= i < s.len(),
        forall|a: int, b: int| 0 <= a < b < s.len() ==> s[a].date.key() != s[b].date.key(),
        e.date.key() == s[i].date.key(),
    ensures
        cal_map(s.update(i, e)) == cal_map(s).insert(e.date.key(), entry_view(e)),
    decreases s.len(),
{
    let su = s.update(i, e);
    if i == s.len() - 1 {
        assert(su.drop_last() =~= s.drop_last());
        assert(cal_map(su) =~= cal_map(s).insert(e.date.key(), entry_view(e)));
    } else {
        lemma_cal_map_update(s.drop_last(), i, e);
        assert(su.drop_last() =~= s.drop_last().update(i, e));
        assert(su.last() == s.last());
        assert(cal_map(su) =~= cal_map(s).insert(e.date.key(), entry_view(e)));
    }
}

proof fn lemma_cal_map_insert(s: Seq<DateInfo>, i: int, e: DateInfo)
    requires
        0 <= i <= s.len(),
        forall|a: int| 0 <= a < s.len() ==> (#[trigger] s[a]).date.key() != e.date.key(),
    ensures
        cal_map(s.insert(i, e)) == cal_map(s).insert(e.date.key(), entry_view(e)),
    decreases s.len(),
{
    let si = s.insert(i, e);
    if i == s.len() {
        assert(si.drop_last() =~= s);
        assert(si.last() == e);
    } else {
        lemma_cal_map_insert(s.drop_last(), i, e);
        assert(si.drop_last() =~= s.drop_last().insert(i, e));
        assert(si.last() == s.last());
        assert(cal_map(si) =~= cal_map(s).insert(e.date.key(), entry_view(e)));
    }
}

/// Exec form of a date's ordering key.
pub fn date_key_u32(d: &CalendarDate) -> (r: u32)
    requires
        d.valid(),
    ensures
        r as int == d.key(),
{
    d.year as u32 * 10000 + d.month as u32 * 100 + d.day as u32
}

impl CalendarMap {
    pub fn new() -> (r: CalendarMap)
        ensures
            r.wf(),
            r@ == Map::<int, EntryView>::empty(),
            r.entries@.len() == 0,
    {
        CalendarMap { entries: Vec::new() }
    }

    /// First position whose date key is at least `k`.
    fn find_from(&self, k: u32) -> (idx: usize)
        requires
            self.wf(),
            forall|i: int|
                0 <= i < self.entries@.len() ==> (#[trigger] self.entries@[i]).date.valid(),
        ensures
            idx <= self.entries@.len(),
            forall|j: int| 0 <= j < idx ==> (#[trigger] self.entries@[j]).date.key() < k,
            idx < self.entries@.len() ==> self.entries@[idx as int].date.key() >= k,
    {
        let n = self.entries.len();
        let mut i: usize = 0;
        while i < n
            invariant
                i <= n,
                n == self.entries@.len(),
                self.wf(),
                forall|j: int| 0 <= j < i ==> (#[trigger] self.entries@[j]).date.key() < k,
            decreases n - i,
        {
            if date_key_u32(&self.entries[i].date) >= k {
                return i;
            }
            i = i + 1;
        }
        i
    }

    /// The day's record for `date`, if the snapshot holds one.
    pub fn lookup(&self, date: &CalendarDate) -> (r: Option<&DateInfo>)
        requires
            self.wf(),
            date.valid(),
        ensures
            r is Some <==> self@.contains_key(date.key()),
            r matches Some(e) ==> entry_view(*e) == self@[date.key()] && e.wf() && e.date
                == *date,
    {
        let k = date_key_u32(date);
        let idx = self.find_from(k);
        proof {
            lemma_cal_map_contains(self.entries@, date.key());
        }
        if idx < self.entries.len() {
            let e = &self.entries[idx];
            if date_key_u32(&e.date) == k {
                proof {
                    lemma_cal_map_at(self.entries@, idx as int);
                    assert(e.date.key() == date.key());
                    assert(e.date.year as int * 10000 + e.date.month * 100 + e.date.day
                        == date.year as int * 10000 + date.month * 100 + date.day);
                    assert(e.date.year == date.year && e.date.month == date.month && e.date.day
                        == date.day);
                }
                Some(e)
            } else {
                None
            }
        } else {
            None
        }
    }

    /// Upserts the holiday label of `date`, reporting whether the label
    /// differs from what the snapshot already held.
    pub fn merge_holiday(&mut self, date: CalendarDate, label: String) -> (changed: bool)
        requires
            old(self).wf(),
            date.valid(),
        ensures
            final(self).wf(),
            final(self)@ == old(self)@.insert(
                date.key(),
                (Some(label@), events_of(old(self)@, date.key())),
            ),
            changed == !(old(self)@.contains_key(date.key()) && holiday_of(
                old(self)@,
                date.key(),
            ) == Some(label@)),
    {
        let ghost m0 = self@;
        let k = date_key_u32(&date);
        let idx = self.find_from(k);
        proof {
            lemma_cal_map_contains(self.entries@, date.key());
        }
        let found = idx < self.entries.len() && date_key_u32(&self.entries[idx].date) == k;
        if found {
            proof {
                lemma_cal_map_at(self.entries@, idx as int);
            }
            let ghost s0 = self.entries@;
            let mut e = self.entries.remove(idx);
            let changed = match &e.holiday {
                Some(prev) => !(*prev == label),
                None => true,
            };
            e.holiday = Some(label);
            self.entries.insert(idx, e);
            proof {
                assert(self.entries@ =~= s0.update(idx as int, self.entries@[idx as int]));
                lemma_cal_map_update(s0, idx as int, self.entries@[idx as int]);
            }
            changed
        } else {
            let e = DateInfo { date, holiday: Some(label), events: Vec::new() };
            let ghost s0 = self.entries@;
            self.entries.insert(idx, e);
            proof {
                assert forall|a: int| 0 <= a < s0.len() implies (#[trigger] s0[a]).date.key()
                    != date.key() by {
                    if a < idx {
                        assert(s0[a].date.key() < k);
                    } else {
                        assert(s0[a].date.key() >= k);
                        assert(s0[a].date.key() != k);
                    }
                }
                lemma_cal_map_insert(s0, idx as int, self.entries@[idx as int]);
                assert(events_map(Seq::<(String, DateInfoEventMode)>::empty()) =~= Map::<
                    Seq<char>,
                    EvView,
                >::empty());
                assert(events_of(m0, date.key()) =~= Map::<Seq<char>, EvView>::empty());
            }
            true
        }
    }

    /// Upserts one event occurrence under its feed id, reporting whether the
    /// id is new for that date.
    pub fn merge_event(
        &mut self,
        date: CalendarDate,
        id: String,
        mode: DateInfoEventMode,
    ) -> (changed: bool)
        requires
            old(self).wf(),
            date.valid(),
        ensures
            final(self).wf(),
            final(self)@ == old(self)@.insert(
                date.key(),
                (
                    holiday_of(old(self)@, date.key()),
                    events_of(old(self)@, date.key()).insert(id@, ev_view(mode)),
                ),
            ),
            changed == !(old(self)@.contains_key(date.key()) && events_of(
                old(self)@,
                date.key(),
            ).contains_key(id@)),
    {
        let ghost m0 = self@;
        let k = date_key_u32(&date);
        let idx = self.find_from(k);
        proof {
            lemma_cal_map_contains(self.entries@, date.key());
        }
        let found = idx < self.entries.len() && date_key_u32(&self.entries[idx].date) == k;
        if found {
            proof {
                lemma_cal_map_at(self.entries@, idx as int);
            }
            let ghost s0 = self.entries@;
            let mut e = self.entries.remove(idx);
            let ghost ev0 = e.events@;
            proof {
                lemma_events_map_contains(ev0, id@);
            }
            // Find the id among the day's events.
            let mut j: usize = 0;
            let n = e.events.len();
            let mut pos: Option<usize> = None;
            while j < n
                invariant
                    j <= n,
                    n == e.events@.len(),
                    pos is None ==> forall|a: int| 0 <= a < j ==> e.events@[a].0@ != id@,
                    pos matches Some(p) ==> p < n && e.events@[p as int].0@ == id@,
                decreases n - j,
            {
                if pos.is_none() && e.events[j].0 == id {
                    pos = Some(j);
                }
                j = j + 1;
            }
            let changed = match pos {
                Some(p) => {
                    e.events.set(p, (id, mode));
                    proof {
                        lemma_events_map_update(ev0, p as int, e.events@[p as int]);
                    }
                    false
                },
                None => {
                    e.events.push((id, mode));
                    proof {
                        assert(forall|a: int| 0 <= a < ev0.len() ==> ev0[a].0@ != id@);
                        assert(e.events@.drop_last() =~= ev0);
                    }
                    true
                },
            };
            self.entries.insert(idx, e);
            proof {
                assert(self.entries@ =~= s0.update(idx as int, self.entries@[idx as int]));
                lemma_cal_map_update(s0, idx as int, self.entries@[idx as int]);
            }
            changed
        } else {
            let mut events: Vec<(String, DateInfoEventMode)> = Vec::new();
            let ghost gid = id@;
            let ghost gmode = mode;
            events.push((id, mode));
            let e = DateInfo { date, holiday: None, events };
            let ghost ge = e;
            let ghost s0 = self.entries@;
            self.entries.insert(idx, e);
            proof {
                assert forall|a: int| 0 <= a < s0.len() implies (#[trigger] s0[a]).date.key()
                    != date.key() by {
                    if a < idx {
                        assert(s0[a].date.key() < k);
                    } else {
                        assert(s0[a].date.key() >= k);
                    }
                }
                assert(self.entries@[idx as int] == ge);
                lemma_cal_map_insert(s0, idx as int, ge);
                let ev1 = ge.events@;
                assert(ev1.len() == 1);
                assert(ev1.last().0@ == gid);
                assert(ev1.last().1 == gmode);
                assert(ev1.drop_last() =~= Seq::<(String, DateInfoEventMode)>::empty());
                assert(events_map(ev1) == events_map(ev1.drop_last()).insert(
                    ev1.last().0@,
                    ev_view(ev1.last().1),
                ));
                assert(!m0.contains_key(date.key()));
                assert(events_of(m0, date.key()) =~= Map::<Seq<char>, EvView>::empty());
                assert(events_map(ev1) =~= events_of(m0, date.key()).insert(
                    gid,
                    ev_view(gmode),
                ));
                assert(entry_view(ge) == (None::<Seq<char>>, events_map(ev1)));
            }
            true
        }
    }
}

fn clone_event_mode(e: &DateInfoEventMode) -> (r: DateInfoEventMode)
    ensures
        r == *e,
{
    DateInfoEventMode {
        epoch_second: e.epoch_second,
        hour: e.hour,
        minute: e.minute,
        name: e.name.clone(),
    }
}

fn clone_events(v: &Vec<(String, DateInfoEventMode)>) -> (r: Vec<(String, DateInfoEventMode)>)
    ensures
        r@ == v@,
{
    let mut r: Vec<(String, DateInfoEventMode)> = Vec::new();
    let n = v.len();
    let mut i: usize = 0;
    while i < n
        invariant
            i <= n,
            n == v@.len(),
            r@ =~= v@.take(i as int),
        decreases n - i,
    {
        let p = &v[i];
        r.push((p.0.clone(), clone_event_mode(&p.1)));
        i = i + 1;
    }
    proof {
        assert(v@.take(n as int) =~= v@);
    }
    r
}

/// An exact copy: same date, same holiday label, same event list.
pub fn clone_date_info(e: &DateInfo) -> (r: DateInfo)
    ensures
        r.date == e.date,
        r.holiday == e.holiday,
        r.events@ == e.events@,
        entry_view(r) == entry_view(*e),
        r.wf() == e.wf(),
{
    let holiday = match &e.holiday {
        Some(s) => Some(s.clone()),
        None => None,
    };
    DateInfo { date: e.date, holiday, events: clone_events(&e.events) }
}

/// The first `n` entries of `s` whose date key is at least `fromk`, in order.
pub open spec fn spec_window(s: Seq<DateInfo>, fromk: int, n: int) -> Seq<DateInfo>
    decreases s.len(),
{
    if n <= 0 || s.len() == 0 {
        Seq::empty()
    } else if s[0].date.key() >= fromk {
        seq![s[0]].add(spec_window(s.drop_first(), fromk, n - 1))
    } else {
        spec_window(s.drop_first(), fromk, n)
    }
}

/// Same date, holiday and event list, without requiring the holders to be the
/// same objects.
pub open spec fn entry_like(a: DateInfo, b: DateInfo) -> bool {
    a.date == b.date && a.holiday == b.holiday && a.events@ == b.events@
}

proof fn lemma_spec_window_props(s: Seq<DateInfo>, fromk: int, n: int)
    requires
        forall|i: int, j: int| 0 <= i < j < s.len() ==> s[i].date.key() < s[j].date.key(),
    ensures
        spec_window(s, fromk, n).len() <= if n >= 0 {
            n
        } else {
            0
        },
        forall|i: int|
            0 <= i < spec_window(s, fromk, n).len() ==> (#[trigger] spec_window(s, fromk, n)[i])
                .date.key() >= fromk && exists|j: int|
                0 <= j < s.len() && spec_window(s, fromk, n)[i] == s[j],
        forall|i: int, j: int|
            0 <= i < j < spec_window(s, fromk, n).len() ==> spec_window(s, fromk, n)[i].date.key()
                < spec_window(s, fromk, n)[j].date.key(),
    decreases s.len(),
{
    let w = spec_window(s, fromk, n);
    if n <= 0 || s.len() == 0 {
    } else {
        let rest = s.drop_first();
        if s[0].date.key() >= fromk {
            lemma_spec_window_props(rest, fromk, n - 1);
            let w2 = spec_window(rest, fromk, n - 1);
            assert forall|i: int| 0 <= i < w.len() implies (#[trigger] w[i]).date.key() >= fromk
                && exists|j: int| 0 <= j < s.len() && w[i] == s[j] by {
                if i == 0 {
                    assert(w[0] == s[0]);
                } else {
                    assert(w[i] == w2[i - 1]);
                    let j = choose|j: int| 0 <= j < rest.len() && w2[i - 1] == rest[j];
                    assert(w[i] == s[j + 1]);
                }
            }
            assert forall|i: int, j: int| 0 <= i < j < w.len() implies w[i].date.key()
                < w[j].date.key() by {
                if i == 0 {
                    assert(w[j] == w2[j - 1]);
                    let a = choose|a: int| 0 <= a < rest.len() && w2[j - 1] == rest[a];
                    assert(rest[a] == s[a + 1]);
                    assert(s[0].date.key() < s[a + 1].date.key());
                } else {
                    assert(w[i] == w2[i - 1] && w[j] == w2[j - 1]);
                }
            }
        } else {
            lemma_spec_window_props(rest, fromk, n);
        }
    }
}

fn window_rec(entries: &Vec<DateInfo>, i: usize, fromk: u32, n: usize) -> (r: Vec<DateInfo>)
    requires
        i <= entries@.len(),
        forall|a: int| 0 <= a < entries@.len() ==> (#[trigger] entries@[a]).date.valid(),
    ensures
        r@.len() == spec_window(entries@.skip(i as int), fromk as int, n as int).len(),
        forall|j: int|
            0 <= j < r@.len() ==> entry_like(
                #[trigger] r@[j],
                spec_window(entries@.skip(i as int), fromk as int, n as int)[j],
            ),
    decreases entries@.len() - i,
{
    let ghost tail = entries@.skip(i as int);
    if n == 0 || i >= entries.len() {
        let r: Vec<DateInfo> = Vec::new();
        r
    } else {
        proof {
            assert(tail[0] == entries@[i as int]);
            assert(tail.drop_first() =~= entries@.skip(i as int + 1));
        }
        if date_key_u32(&entries[i].date) >= fromk {
            let mut r: Vec<DateInfo> = Vec::new();
            r.push(clone_date_info(&entries[i]));
            let mut rest = window_rec(entries, i + 1, fromk, n - 1);
            r.append(&mut rest);
            r
        } else {
            window_rec(entries, i + 1, fromk, n)
        }
    }
}

impl CalendarMap {
    /// A bounded point-in-time copy: the first `n` days at or after `from`,
    /// ascending by date, days without an entry skipped.
    pub fn window(&self, from: &CalendarDate, n: usize) -> (r: Vec<DateInfo>)
        requires
            self.wf(),
            from.valid(),
        ensures
            r@.len() == spec_window(self.entries@, from.key(), n as int).len(),
            forall|j: int|
                0 <= j < r@.len() ==> entry_like(
                    #[trigger] r@[j],
                    spec_window(self.entries@, from.key(), n as int)[j],
                ),
            r@.len() <= n,
            forall|j: int|
                0 <= j < r@.len() ==> (#[trigger] r@[j]).wf() && r@[j].date.key() >= from.key()
                    && self@.contains_key(r@[j].date.key()) && entry_view(r@[j])
                    == self@[r@[j].date.key()],
            forall|i: int, j: int|
                0 <= i < j < r@.len() ==> r@[i].date.key() < r@[j].date.key(),
    {
        let fromk = date_key_u32(from);
        let r = window_rec(&self.entries, 0, fromk, n);
        proof {
            assert(self.entries@.skip(0) =~= self.entries@);
            lemma_spec_window_props(self.entries@, from.key(), n as int);
            let w = spec_window(self.entries@, from.key(), n as int);
            assert forall|j: int| 0 <= j < r@.len() implies (#[trigger] r@[j]).wf()
                && r@[j].date.key() >= from.key() && self@.contains_key(r@[j].date.key())
                && entry_view(r@[j]) == self@[r@[j].date.key()] by {
                let a = choose|a: int| 0 <= a < self.entries@.len() && w[j] == self.entries@[a];
                lemma_cal_map_at(self.entries@, a);
                assert(entry_view(r@[j]) == entry_view(w[j]));
                assert(r@[j].wf() == w[j].wf());
            }
        }
        r
    }
}

/// One fetched event record: the local date it falls on, its feed id, and
/// its occurrence data.
#[derive(Debug)]
pub struct EventRecord {
    pub date: CalendarDate,
    pub id: String,
    pub mode: DateInfoEventMode,
}

/// The snapshot after one holiday upsert.
pub open spec fn holiday_step(m: Map<int, EntryView>, d: CalendarDate, label: Seq<char>) -> Map<
    int,
    EntryView,
> {
    m.insert(d.key(), (Some(label), events_of(m, d.key())))
}

/// Whether one holiday upsert alters the snapshot.
pub open spec fn holiday_step_changed(
    m: Map<int, EntryView>,
    d: CalendarDate,
    label: Seq<char>,
) -> bool {
    !(m.contains_key(d.key()) && holiday_of(m, d.key()) == Some(label))
}

/// The snapshot after a whole holiday feed is merged, record by record.
pub open spec fn spec_merge_holidays(
    m: Map<int, EntryView>,
    recs: Seq<(CalendarDate, String)>,
) -> Map<int, EntryView>
    decreases recs.len(),
{
    if recs.len() == 0 {
        m
    } else {
        spec_merge_holidays(holiday_step(m, recs[0].0, recs[0].1@), recs.drop_first())
    }
}

/// Whether merging a whole holiday feed alters the snapshot anywhere.
pub open spec fn spec_holidays_changed(
    m: Map<int, EntryView>,
    recs: Seq<(CalendarDate, String)>,
) -> bool
    decreases recs.len(),
{
    if recs.len() == 0 {
        false
    } else {
        holiday_step_changed(m, recs[0].0, recs[0].1@) || spec_holidays_changed(
            holiday_step(m, recs[0].0, recs[0].1@),
            recs.drop_first(),
        )
    }
}

/// The snapshot after one event upsert.
pub open spec fn event_step(m: Map<int, EntryView>, r: EventRecord) -> Map<int, EntryView> {
    m.insert(
        r.date.key(),
        (holiday_of(m, r.date.key()), events_of(m, r.date.key()).insert(r.id@, ev_view(r.mode))),
    )
}

/// Whether one event upsert inserts a new id.
pub open spec fn event_step_changed(m: Map<int, EntryView>, r: EventRecord) -> bool {
    !(m.contains_key(r.date.key()) && events_of(m, r.date.key()).contains_key(r.id@))
}

/// The snapshot after a whole event feed is merged, record by record.
pub open spec fn spec_merge_events(m: Map<int, EntryView>, recs: Seq<EventRecord>) -> Map<
    int,
    EntryView,
>
    decreases recs.len(),
{
    if recs.len() == 0 {
        m
    } else {
        spec_merge_events(event_step(m, recs[0]), recs.drop_first())
    }
}

/// Whether merging a whole event feed inserts any new id.
pub open spec fn spec_events_changed(m: Map<int, EntryView>, recs: Seq<EventRecord>) -> bool
    decreases recs.len(),
{
    if recs.len() == 0 {
        false
    } else {
        event_step_changed(m, recs[0]) || spec_events_changed(
            event_step(m, recs[0]),
            recs.drop_first(),
        )
    }
}

impl CalendarMap {
    /// Merges a fetched holiday feed, upserting each record's label.
    pub fn merge_holidays(&mut self, recs: &Vec<(CalendarDate, String)>) -> (changed: bool)
        requires
            old(self).wf(),
            forall|i: int| 0 <= i < recs@.len() ==> (#[trigger] recs@[i]).0.valid(),
        ensures
            final(self).wf(),
            final(self)@ == spec_merge_holidays(old(self)@, recs@),
            changed == spec_holidays_changed(old(self)@, recs@),
    {
        let ghost m0 = self@;
        let n = recs.len();
        let mut i: usize = 0;
        let mut changed = false;
        proof {
            assert(recs@.skip(0) =~= recs@);
        }
        while i < n
            invariant
                i <= n,
                n == recs@.len(),
                self.wf(),
                forall|a: int| 0 <= a < recs@.len() ==> (#[trigger] recs@[a]).0.valid(),
                spec_merge_holidays(m0, recs@) == spec_merge_holidays(
                    self@,
                    recs@.skip(i as int),
                ),
                spec_holidays_changed(m0, recs@) == (changed || spec_holidays_changed(
                    self@,
                    recs@.skip(i as int),
                )),
            decreases n - i,
        {
            let ghost tail = recs@.skip(i as int);
            proof {
                assert(tail[0] == recs@[i as int]);
                assert(tail.drop_first() =~= recs@.skip(i as int + 1));
            }
            let r = &recs[i];
            let c = self.merge_holiday(r.0, r.1.clone());
            changed = changed || c;
            i = i + 1;
        }
        proof {
            assert(recs@.skip(n as int) =~= Seq::<(CalendarDate, String)>::empty());
        }
        changed
    }

    /// Merges a fetched event feed, upserting each record under its id.
    pub fn merge_events(&mut self, recs: &Vec<EventRecord>) -> (changed: bool)
        requires
            old(self).wf(),
            forall|i: int| 0 <= i < recs@.len() ==> (#[trigger] recs@[i]).date.valid(),
        ensures
            final(self).wf(),
            final(self)@ == spec_merge_events(old(self)@, recs@),
            changed == spec_events_changed(old(self)@, recs@),
    {
        let ghost m0 = self@;
        let n = recs.len();
        let mut i: usize = 0;
        let mut changed = false;
        proof {
            assert(recs@.skip(0) =~= recs@);
        }
        while i < n
            invariant
                i <= n,
                n == recs@.len(),
                self.wf(),
                forall|a: int| 0 <= a < recs@.len() ==> (#[trigger] recs@[a]).date.valid(),
                spec_merge_events(m0, recs@) == spec_merge_events(self@, recs@.skip(i as int)),
                spec_events_changed(m0, recs@) == (changed || spec_events_changed(
                    self@,
                    recs@.skip(i as int),
                )),
            decreases n - i,
        {
            let ghost tail = recs@.skip(i as int);
            proof {
                assert(tail[0] == recs@[i as int]);
                assert(tail.drop_first() =~= recs@.skip(i as int + 1));
            }
            let r = &recs[i];
            let c = self.merge_event(r.date, r.id.clone(), clone_event_mode(&r.mode));
            changed = changed || c;
            i = i + 1;
        }
        proof {
            assert(recs@.skip(n as int) =~= Seq::<EventRecord>::empty());
        }
        changed
    }
}

proof fn lemma_merge_holidays_frame(
    m: Map<int, EntryView>,
    recs: Seq<(CalendarDate, String)>,
    k: int,
)
    requires
        forall|i: int| 0 <= i < recs.len() ==> (#[trigger] recs[i]).0.key() != k,
    ensures
        spec_merge_holidays(m, recs).contains_key(k) == m.contains_key(k),
        m.contains_key(k) ==> spec_merge_holidays(m, recs)[k] == m[k],
    decreases recs.len(),
{
    if recs.len() > 0 {
        let m1 = holiday_step(m, recs[0].0, recs[0].1@);
        assert(forall|i: int|
            0 <= i < recs.drop_first().len() ==> (#[trigger] recs.drop_first()[i]).0.key() != k);
        lemma_merge_holidays_frame(m1, recs.drop_first(), k);
    }
}

/// Merging an unchanged holiday feed a second time alters nothing: every
/// record's label is already in place, so no upsert reports a change (and so
/// the last-change instant is not advanced). The feed must not carry two
/// records for the same date.
pub proof fn lemma_holiday_remerge_unchanged(
    m: Map<int, EntryView>,
    recs: Seq<(CalendarDate, String)>,
)
    requires
        forall|i: int, j: int|
            0 <= i < j < recs.len() ==> (#[trigger] recs[i]).0.key() != (#[trigger] recs[j]).0.key(),
    ensures
        !spec_holidays_changed(spec_merge_holidays(m, recs), recs),
    decreases recs.len(),
{
    if recs.len() > 0 {
        let d = recs[0].0;
        let l = recs[0].1@;
        let k = d.key();
        let m1 = holiday_step(m, d, l);
        let rest = recs.drop_first();
        let merged = spec_merge_holidays(m1, rest);
        assert(forall|i: int| 0 <= i < rest.len() ==> (#[trigger] rest[i]).0.key() != k);
        lemma_merge_holidays_frame(m1, rest, k);
        assert(merged.contains_key(k) && merged[k] == m1[k]);
        assert(!holiday_step_changed(merged, d, l));
        assert(holiday_step(merged, d, l) =~= merged);
        lemma_holiday_remerge_unchanged(m1, rest);
    }
}

/// The fields of the last record in `recs` that targets date key `k` and id
/// `id`, if any record does.
pub open spec fn spec_last_event(recs: Seq<EventRecord>, k: int, id: Seq<char>) -> Option<EvView>
    decreases recs.len(),
{
    if recs.len() == 0 {
        None
    } else {
        let rest = spec_last_event(recs.drop_first(), k, id);
        if rest is Some {
            rest
        } else if recs[0].date.key() == k && recs[0].id@ == id {
            Some(ev_view(recs[0].mode))
        } else {
            None
        }
    }
}

/// After an event-path merge, a lookup finds every merged id with the fields
/// of its most recent record (last write wins per id), and every id the
/// snapshot already held stays with its value unless the feed rewrote it.
pub proof fn lemma_event_merge_lookup(
    m: Map<int, EntryView>,
    recs: Seq<EventRecord>,
    k: int,
    id: Seq<char>,
)
    ensures
        spec_last_event(recs, k, id) matches Some(v) ==> spec_merge_events(m, recs).contains_key(
            k,
        ) && spec_merge_events(m, recs)[k].1.contains_key(id) && spec_merge_events(m, recs)[k].1[id]
            == v,
        spec_last_event(recs, k, id) is None && m.contains_key(k) && m[k].1.contains_key(id)
            ==> spec_merge_events(m, recs).contains_key(k) && spec_merge_events(
            m,
            recs,
        )[k].1.contains_key(id) && spec_merge_events(m, recs)[k].1[id] == m[k].1[id],
    decreases recs.len(),
{
    if recs.len() > 0 {
        let r0 = recs[0];
        let m1 = event_step(m, r0);
        let rest = recs.drop_first();
        lemma_event_merge_lookup(m1, rest, k, id);
        if spec_last_event(rest, k, id) is None {
            if r0.date.key() == k && r0.id@ == id {
                assert(m1.contains_key(k) && m1[k].1.contains_key(id) && m1[k].1[id] == ev_view(
                    r0.mode,
                ));
            } else if m.contains_key(k) && m[k].1.contains_key(id) {
                assert(m1.contains_key(k) && m1[k].1.contains_key(id) && m1[k].1[id]
                    == m[k].1[id]);
            }
        }
    }
}

/// Whether replacing the weather snapshot counts as a change: a first
/// snapshot always does, afterwards only a different condition code or a
/// different temperature does.
pub open spec fn weather_changed(cur: Option<WeatherInfo>, new: WeatherInfo) -> bool {
    match cur {
        None => true,
        Some(w) => w.state != new.state || w.attributes.temperature_tenths
            != new.attributes.temperature_tenths,
    }
}

/// Replaces the weather snapshot wholesale; the change flag follows the
/// condition code and the temperature alone.
pub fn merge_weather(current: &mut Option<WeatherInfo>, new: WeatherInfo) -> (changed: bool)
    ensures
        *final(current) == Some(new),
        changed == weather_changed(*old(current), new),
{
    let changed = match &*current {
        None => true,
        Some(w) => w.state != new.state || w.attributes.temperature_tenths
            != new.attributes.temperature_tenths,
    };
    *current = Some(new);
    changed
}

/// Fetching the same weather twice in a row reports no change the second
/// time: the change flag compares only the condition code and temperature,
/// which the first merge just stored.
pub proof fn lemma_weather_remerge_unchanged(first: WeatherInfo, second: WeatherInfo)
    requires
        first.state == second.state,
        first.attributes.temperature_tenths == second.attributes.temperature_tenths,
    ensures
        !weather_changed(Some(first), second),
{
}

/// The last-change instant after a refresh cycle: advanced to `now` exactly
/// when some merge of the cycle reported a change.
pub fn finish_cycle(last_change: i64, any_changed: bool, now: i64) -> (r: i64)
    requires
        now >= last_change,
    ensures
        r == if any_changed {
            now
        } else {
            last_change
        },
        r >= last_change,
{
    if any_changed {
        now
    } else {
        last_change
    }
}

} // verus!
