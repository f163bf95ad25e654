//! Running statistics over the triggers: totals, a count per calendar day,
//! the gap since the previous trigger, and the append-only event log.
use vstd::prelude::*;
use chrono::{DateTime, Utc};

verus! {

/// The latest timestamp, in seconds since the Unix epoch, that the statistics
/// accept: far inside the calendar's range (about the year 128,000).
pub const MAX_EVENT_SECS: i64 = 4_000_000_000_000;

/// The UTC calendar day of the instant `ts` (seconds since the Unix epoch),
/// written as an ISO date such as `1970-01-01`.
pub uninterp spec fn utc_day_of(ts: i64) -> Seq<char>;

/// Relies on chrono's `DateTime::<Utc>::from_timestamp`, `date_naive` and the
/// `Display` of `NaiveDate`: the ISO date of the instant, given whenever the
/// instant lies in the calendar's range, which holds from the epoch up to
/// `MAX_EVENT_SECS`.
#[verifier::external_body]
fn utc_day_key(ts: i64) -> (r: Option<String>)
    ensures
        r matches Some(k) ==> k@ == utc_day_of(ts),
        0 <= ts <= MAX_EVENT_SECS ==> r is Some,
{
    match DateTime::<Utc>::from_timestamp(ts, 0) {
        Some(d) => Some(d.date_naive().to_string()),
        None => None,
    }
}

/// The content of one recorded trigger.
pub struct EventView {
    pub timestamp: i64,
    pub was_rare: bool,
    pub sound_path: Seq<char>,
    pub time_since_last: Option<u64>,
}

/// One recorded trigger: when, whether a rare variant played, which sound,
/// and the gap in seconds since the previous trigger (none for the first).
#[derive(Debug)]
pub struct BoomEvent {
    timestamp: i64,
    was_rare: bool,
    sound_path: String,
    time_since_last: Option<u64>,
}

impl View for BoomEvent {
    type V = EventView;

    closed spec fn view(&self) -> EventView {
        EventView {
            timestamp: self.timestamp,
            was_rare: self.was_rare,
            sound_path: self.sound_path@,
            time_since_last: self.time_since_last,
        }
    }
}

impl BoomEvent {
    /// An event as it was read back from storage.
    pub fn new(timestamp: i64, was_rare: bool, sound_path: String, time_since_last: Option<u64>) -> (r: BoomEvent)
        ensures
            r@ == (EventView { timestamp, was_rare, sound_path: sound_path@, time_since_last }),
    {
        BoomEvent { timestamp, was_rare, sound_path, time_since_last }
    }

    pub fn timestamp(&self) -> (r: i64)
        ensures
            r == self@.timestamp,
    {
        self.timestamp
    }

    pub fn was_rare(&self) -> (r: bool)
        ensures
            r == self@.was_rare,
    {
        self.was_rare
    }

    pub fn sound_path(&self) -> (r: String)
        ensures
            r@ == self@.sound_path,
    {
        self.sound_path.clone()
    }

    pub fn time_since_last(&self) -> (r: Option<u64>)
        ensures
            r == self@.time_since_last,
    {
        self.time_since_last
    }

    fn copy(&self) -> (r: BoomEvent)
        ensures
            r@ == self@,
    {
        BoomEvent {
            timestamp: self.timestamp,
            was_rare: self.was_rare,
            sound_path: self.sound_path.clone(),
            time_since_last: self.time_since_last,
        }
    }
}

/// The content of the statistics: counts, per-day counts in order of first
/// appearance, the time of the last trigger, and the log.
pub struct StatsView {
    pub total: nat,
    pub rare: nat,
    pub daily: Seq<(Seq<char>, nat)>,
    pub last: Option<i64>,
    pub events: Seq<EventView>,
}

/// The aggregate over all triggers so far.
pub struct BoomStats {
    total_booms: u64,
    rare_booms: u64,
    daily_booms: Vec<(String, u64)>,
    last_boom: Option<i64>,
    events: Vec<BoomEvent>,
}

pub open spec fn day_entry_view(e: (String, u64)) -> (Seq<char>, nat) {
    (e.0@, e.1 as nat)
}

pub open spec fn event_view(e: BoomEvent) -> EventView {
    e@
}

impl View for BoomStats {
    type V = StatsView;

    closed spec fn view(&self) -> StatsView {
        StatsView {
            total: self.total_booms as nat,
            rare: self.rare_booms as nat,
            daily: days_view(self.daily_booms@),
            last: self.last_boom,
            events: events_view(self.events@),
        }
    }
}

/// Seconds from `last` to `ts`; a clock that stepped back gives zero.
pub open spec fn gap(last: i64, ts: i64) -> u64 {
    if ts >= last {
        (ts - last) as u64
    } else {
        0
    }
}

/// The log held in `v`.
pub open spec fn events_view(v: Seq<BoomEvent>) -> Seq<EventView> {
    v.map_values(|e: BoomEvent| event_view(e))
}

/// The per-day counts held in `d`.
pub open spec fn days_view(d: Seq<(String, u64)>) -> Seq<(Seq<char>, nat)> {
    d.map_values(|e: (String, u64)| day_entry_view(e))
}

/// Day `k` has a count in `d`.
pub open spec fn has_day(d: Seq<(Seq<char>, nat)>, k: Seq<char>) -> bool {
    exists|i: int| first_day_index(d, k, i)
}

/// `i` is the first position of day `k` in `d`.
pub open spec fn first_day_index(d: Seq<(Seq<char>, nat)>, k: Seq<char>, i: int) -> bool {
    0 <= i < d.len() && d[i].0 == k && forall|j: int| 0 <= j < i ==> d[j].0 != k
}

/// The per-day counts with one more trigger on day `k`: a new day is added
/// at the end with a count of one.
pub open spec fn bump_day(d: Seq<(Seq<char>, nat)>, k: Seq<char>) -> Seq<(Seq<char>, nat)> {
    if has_day(d, k) {
        let i = choose|i: int| first_day_index(d, k, i);
        d.update(i, (k, d[i].1 + 1))
    } else {
        d.push((k, 1))
    }
}

/// The count of day `k` in `d`, zero if it has none.
pub open spec fn day_count(d: Seq<(Seq<char>, nat)>, k: Seq<char>) -> nat {
    if has_day(d, k) {
        d[choose|i: int| first_day_index(d, k, i)].1
    } else {
        0
    }
}

/// Sum of all per-day counts.
pub open spec fn days_total(d: Seq<(Seq<char>, nat)>) -> nat
    decreases d.len(),
{
    if d.len() == 0 {
        0
    } else {
        days_total(d.drop_last()) + d.last().1
    }
}

/// The gap recorded for a trigger at `ts` after the state `s`.
pub open spec fn gap_after(s: StatsView, ts: i64) -> Option<u64> {
    match s.last {
        Some(l) => Some(gap(l, ts)),
        None => None,
    }
}

/// The statistics after one more trigger at `ts`, counted on day `day`.
pub open spec fn record_on_day_spec(
    s: StatsView,
    ts: i64,
    day: Seq<char>,
    rare: bool,
    path: Seq<char>,
) -> StatsView {
    StatsView {
        total: s.total + 1,
        rare: if rare { s.rare + 1 } else { s.rare },
        daily: bump_day(s.daily, day),
        last: Some(ts),
        events: s.events.push(
            EventView { timestamp: ts, was_rare: rare, sound_path: path, time_since_last: gap_after(s, ts) },
        ),
    }
}

/// The statistics after one more trigger at `ts`, counted on its UTC day.
pub open spec fn record_spec(s: StatsView, ts: i64, rare: bool, path: Seq<char>) -> StatsView {
    record_on_day_spec(s, ts, utc_day_of(ts), rare, path)
}

/// The counts agree with the log: one entry and one count per trigger, rare
/// triggers among them, and per-day counts that add up to the total.
pub open spec fn counts_agree(s: StatsView) -> bool {
    &&& s.total == s.events.len()
    &&& s.rare <= s.total
    &&& days_total(s.daily) == s.total
}

pub open spec fn empty_stats() -> StatsView {
    StatsView { total: 0, rare: 0, daily: Seq::empty(), last: None, events: Seq::empty() }
}

/// The statistics obtained by recording, in order, the triggers of `evs`
/// (their time, rarity and sound) into fresh statistics; the recorded gaps
/// of `evs` play no part.
pub open spec fn replayed(evs: Seq<EventView>) -> StatsView
    decreases evs.len(),
{
    if evs.len() == 0 {
        empty_stats()
    } else {
        let e = evs.last();
        record_spec(replayed(evs.drop_last()), e.timestamp, e.was_rare, e.sound_path)
    }
}

/// The gaps recorded in `evs`, in order, leaving out the first trigger's.
pub open spec fn intervals_of(evs: Seq<EventView>) -> Seq<u64>
    decreases evs.len(),
{
    if evs.len() == 0 {
        Seq::empty()
    } else {
        match evs.last().time_since_last {
            Some(g) => intervals_of(evs.drop_last()).push(g),
            None => intervals_of(evs.drop_last()),
        }
    }
}

proof fn lemma_entry_le_total(d: Seq<(Seq<char>, nat)>, i: int)
    requires
        0 <= i < d.len(),
    ensures
        d[i].1 <= days_total(d),
    decreases d.len(),
{
    if i < d.len() - 1 {
        lemma_entry_le_total(d.drop_last(), i);
    }
}

proof fn lemma_update_total(d: Seq<(Seq<char>, nat)>, i: int, e: (Seq<char>, nat))
    requires
        0 <= i < d.len(),
    ensures
        days_total(d.update(i, e)) + d[i].1 == days_total(d) + e.1,
    decreases d.len(),
{
    let u = d.update(i, e);
    if i == d.len() - 1 {
        assert(u.drop_last() =~= d.drop_last());
    } else {
        assert(u.drop_last() =~= d.drop_last().update(i, e));
        lemma_update_total(d.drop_last(), i, e);
    }
}

proof fn lemma_bump_total(d: Seq<(Seq<char>, nat)>, k: Seq<char>)
    ensures
        days_total(bump_day(d, k)) == days_total(d) + 1,
{
    if has_day(d, k) {
        let i = choose|i: int| first_day_index(d, k, i);
        lemma_update_total(d, i, (k, d[i].1 + 1));
    } else {
        assert(d.push((k, 1nat)).drop_last() =~= d);
    }
}

/// Recording a trigger keeps the counts in agreement with the log.
pub proof fn lemma_record_keeps_counts(s: StatsView, ts: i64, day: Seq<char>, rare: bool, path: Seq<char>)
    requires
        counts_agree(s),
    ensures
        counts_agree(record_on_day_spec(s, ts, day, rare, path)),
{
    lemma_bump_total(s.daily, day);
}

proof fn lemma_replayed_log_length(evs: Seq<EventView>)
    ensures
        replayed(evs).events.len() == evs.len(),
        counts_agree(replayed(evs)),
    decreases evs.len(),
{
    if evs.len() > 0 {
        let e = evs.last();
        lemma_replayed_log_length(evs.drop_last());
        lemma_record_keeps_counts(replayed(evs.drop_last()), e.timestamp, utc_day_of(e.timestamp), e.was_rare, e.sound_path);
    }
}

/// The first position of day `key` in `d`, if it has one.
fn find_day(d: &Vec<(String, u64)>, key: &String) -> (r: Option<usize>)
    ensures
        r matches Some(i) ==> first_day_index(days_view(d@), key@, i as int),
        r is None ==> !has_day(days_view(d@), key@),
{
    let ghost dv = days_view(d@);
    let mut i: usize = 0;
    while i < d.len()
        invariant
            i <= d.len(),
            dv == days_view(d@),
            forall|j: int| 0 <= j < i ==> dv[j].0 != key@,
        decreases d.len() - i,
    {
        if d[i].0 == *key {
            return Some(i);
        }
        i = i + 1;
    }
    proof {
        assert forall|j: int| !first_day_index(dv, key@, j) by {
            if 0 <= j < dv.len() {
                assert(dv[j].0 != key@);
            }
        }
    }
    None
}

impl BoomStats {
    /// The counts agree with the log.
    pub open spec fn wf(&self) -> bool {
        counts_agree(self@)
    }

    /// The statistics are what recording their own log, in order, into fresh
    /// statistics gives.
    pub open spec fn recorded(&self) -> bool {
        self@ == replayed(self@.events)
    }

    /// Fresh statistics: nothing recorded.
    pub fn new() -> (r: BoomStats)
        ensures
            r@ == empty_stats(),
            r.wf(),
            r.recorded(),
    {
        let r = BoomStats {
            total_booms: 0,
            rare_booms: 0,
            daily_booms: Vec::new(),
            last_boom: None,
            events: Vec::new(),
        };
        proof {
            assert(r@.daily =~= Seq::<(Seq<char>, nat)>::empty());
            assert(r@.events =~= Seq::<EventView>::empty());
        }
        r
    }

    pub fn total_booms(&self) -> (r: u64)
        ensures
            r == self@.total,
    {
        self.total_booms
    }

    pub fn rare_booms(&self) -> (r: u64)
        ensures
            r == self@.rare,
    {
        self.rare_booms
    }

    pub fn last_boom(&self) -> (r: Option<i64>)
        ensures
            r == self@.last,
    {
        self.last_boom
    }

    /// The log, oldest first.
    pub fn events(&self) -> (r: &Vec<BoomEvent>)
        ensures
            events_view(r@) == self@.events,
    {
        &self.events
    }

    /// The number of triggers on day `day` (an ISO date).
    pub fn count_for_day(&self, day: &String) -> (r: u64)
        ensures
            r == day_count(self@.daily, day@),
    {
        match find_day(&self.daily_booms, day) {
            Some(i) => self.daily_booms[i].1,
            None => 0,
        }
    }

    /// The per-day counts, in order of each day's first trigger.
    pub fn daily_booms(&self) -> (r: Vec<(String, u64)>)
        ensures
            days_view(r@) == self@.daily,
    {
        let mut r: Vec<(String, u64)> = Vec::new();
        let mut i: usize = 0;
        while i < self.daily_booms.len()
            invariant
                i <= self.daily_booms.len(),
                r.len() == i,
                days_view(r@) =~= self@.daily.take(i as int),
            decreases self.daily_booms.len() - i,
        {
            let e = (self.daily_booms[i].0.clone(), self.daily_booms[i].1);
            r.push(e);
            proof {
                assert(self@.daily == days_view(self.daily_booms@));
                assert(days_view(r@)[i as int] == day_entry_view(r@[i as int]));
                assert(self@.daily[i as int] == day_entry_view(self.daily_booms@[i as int]));
                assert(days_view(r@) =~= self@.daily.take(i + 1));
            }
            i = i + 1;
        }
        proof {
            assert(self@.daily.take(self.daily_booms.len() as int) =~= self@.daily);
        }
        r
    }

    /// The gaps between consecutive triggers, oldest first: the samples of
    /// the moving average of the interval.
    pub fn observed_intervals(&self) -> (r: Vec<u64>)
        ensures
            r@ == intervals_of(self@.events),
    {
        let ghost evs = self@.events;
        let mut r: Vec<u64> = Vec::new();
        let mut i: usize = 0;
        while i < self.events.len()
            invariant
                i <= self.events.len(),
                evs == self@.events,
                evs.len() == self.events.len(),
                r@ == intervals_of(evs.take(i as int)),
            decreases self.events.len() - i,
        {
            proof {
                assert(evs.take(i + 1).drop_last() =~= evs.take(i as int));
            }
            match self.events[i].time_since_last {
                Some(g) => r.push(g),
                None => {},
            }
            i = i + 1;
        }
        proof {
            assert(evs.take(self.events.len() as int) =~= evs);
        }
        r
    }
}

/// Records one trigger at `timestamp`, counted on the day `day`: the counts,
/// the count of that day and the time of the last trigger are updated, and
/// the event, with its gap since the previous one, joins the log.
pub fn record_on_day(stats: &mut BoomStats, was_rare: bool, sound_path: String, timestamp: i64, day: String)
    requires
        old(stats).wf(),
        old(stats)@.total < u64::MAX,
    ensures
        final(stats)@ == record_on_day_spec(old(stats)@, timestamp, day@, was_rare, sound_path@),
        final(stats).wf(),
{
    let ghost s0 = stats@;
    let ghost k = day@;
    let key = day;
    stats.total_booms = stats.total_booms + 1;
    if was_rare {
        stats.rare_booms = stats.rare_booms + 1;
    }
    let ghost d0 = s0.daily;
    match find_day(&stats.daily_booms, &key) {
        Some(i) => {
            proof {
                lemma_entry_le_total(d0, i as int);
            }
            let c = stats.daily_booms[i].1;
            stats.daily_booms.set(i, (key, c + 1));
            proof {
                assert(stats@.daily =~= d0.update(i as int, (k, d0[i as int].1 + 1)));
            }
        },
        None => {
            stats.daily_booms.push((key, 1));
            proof {
                assert(stats@.daily =~= d0.push((k, 1nat)));
            }
        },
    }
    let time_since_last = match stats.last_boom {
        Some(l) => {
            if timestamp >= l {
                Some((timestamp as i128 - l as i128) as u64)
            } else {
                Some(0)
            }
        },
        None => None,
    };
    stats.events.push(BoomEvent { timestamp, was_rare, sound_path, time_since_last });
    stats.last_boom = Some(timestamp);
    proof {
        let ev = EventView { timestamp, was_rare, sound_path: sound_path@, time_since_last: gap_after(s0, timestamp) };
        assert(stats@.events =~= s0.events.push(ev));
        assert(stats@.daily == bump_day(d0, k));
        assert(stats@ == record_on_day_spec(s0, timestamp, k, was_rare, sound_path@));
        lemma_record_keeps_counts(s0, timestamp, k, was_rare, sound_path@);
    }
}

/// Records one trigger at `timestamp` (seconds since the Unix epoch), counted
/// on its UTC day.
pub fn record_boom(stats: &mut BoomStats, was_rare: bool, sound_path: String, timestamp: i64)
    requires
        old(stats).wf(),
        old(stats)@.total < u64::MAX,
        0 <= timestamp <= MAX_EVENT_SECS,
    ensures
        final(stats)@ == record_spec(old(stats)@, timestamp, was_rare, sound_path@),
        final(stats).wf(),
        old(stats).recorded() ==> final(stats).recorded(),
{
    let ghost s0 = stats@;
    let day = match utc_day_key(timestamp) {
        Some(k) => k,
        None => {
            proof {
                assert(false);
            }
            return;
        },
    };
    record_on_day(stats, was_rare, sound_path, timestamp, day);
    proof {
        assert(stats@.events.drop_last() =~= s0.events);
    }
}

/// A deep copy of the statistics, for display.
pub fn get_stats(stats: &BoomStats) -> (r: BoomStats)
    ensures
        r@ == stats@,
        stats.wf() ==> r.wf(),
        stats.recorded() ==> r.recorded(),
{
    let mut events: Vec<BoomEvent> = Vec::new();
    let mut i: usize = 0;
    while i < stats.events.len()
        invariant
            i <= stats.events.len(),
            events.len() == i,
            events_view(events@) =~= stats@.events.take(i as int),
        decreases stats.events.len() - i,
    {
        let e = stats.events[i].copy();
        events.push(e);
        proof {
            assert(stats@.events == events_view(stats.events@));
            assert(events_view(events@)[i as int] == event_view(events@[i as int]));
            assert(stats@.events[i as int] == event_view(stats.events@[i as int]));
            assert(events_view(events@) =~= stats@.events.take(i + 1));
        }
        i = i + 1;
    }
    proof {
        assert(stats@.events.take(stats.events.len() as int) =~= stats@.events);
    }
    BoomStats {
        total_booms: stats.total_booms,
        rare_booms: stats.rare_booms,
        daily_booms: stats.daily_booms(),
        last_boom: stats.last_boom,
        events,
    }
}

/// Fresh statistics with the triggers of `events` recorded in order; the gaps
/// stored in `events` are computed anew.
pub fn replay(events: &Vec<BoomEvent>) -> (r: BoomStats)
    requires
        events.len() < u64::MAX,
        forall|i: int| 0 <= i < events.len() ==> 0 <= #[trigger] events@[i]@.timestamp <= MAX_EVENT_SECS,
    ensures
        r@ == replayed(events_view(events@)),
        r.wf(),
        r.recorded(),
{
    let ghost ev = events_view(events@);
    let mut r = BoomStats::new();
    let mut i: usize = 0;
    proof {
        assert(ev.take(0) =~= Seq::<EventView>::empty());
    }
    while i < events.len()
        invariant
            i <= events.len(),
            events.len() < u64::MAX,
            ev == events_view(events@),
            forall|j: int| 0 <= j < events.len() ==> 0 <= #[trigger] events@[j]@.timestamp <= MAX_EVENT_SECS,
            r.wf(),
            r.recorded(),
            r@ == replayed(ev.take(i as int)),
        decreases events.len() - i,
    {
        proof {
            lemma_replayed_log_length(ev.take(i as int));
            assert(ev.take(i + 1).drop_last() =~= ev.take(i as int));
            assert(ev[i as int] == events@[i as int]@);
        }
        let e = &events[i];
        record_boom(&mut r, e.was_rare(), e.sound_path(), e.timestamp());
        i = i + 1;
    }
    proof {
        assert(ev.take(events.len() as int) =~= ev);
    }
    r
}

/// `a` and `b` hold the same triggers (time, rarity and sound), in order.
pub open spec fn same_triggers(a: Seq<EventView>, b: Seq<EventView>) -> bool {
    a.len() == b.len() && forall|i: int|
        0 <= i < a.len() ==> (#[trigger] a[i]).timestamp == b[i].timestamp && a[i].was_rare
            == b[i].was_rare && a[i].sound_path == b[i].sound_path
}

proof fn lemma_replay_same_triggers(a: Seq<EventView>, b: Seq<EventView>)
    requires
        same_triggers(a, b),
    ensures
        replayed(a) == replayed(b),
    decreases a.len(),
{
    if a.len() > 0 {
        assert(same_triggers(a.drop_last(), b.drop_last()));
        lemma_replay_same_triggers(a.drop_last(), b.drop_last());
    }
}

proof fn lemma_replayed_log_keeps_triggers(evs: Seq<EventView>)
    ensures
        same_triggers(replayed(evs).events, evs),
    decreases evs.len(),
{
    if evs.len() > 0 {
        lemma_replayed_log_keeps_triggers(evs.drop_last());
        lemma_replayed_log_length(evs.drop_last());
    }
}

/// Replaying the log of any statistics, in order, into fresh statistics
/// reproduces them exactly: counts, per-day counts, the gaps and therefore
/// the moving average computed from them.
pub proof fn lemma_replay_reproduces(evs: Seq<EventView>)
    ensures
        replayed(replayed(evs).events) == replayed(evs),
        replayed(replayed(evs).events).total == replayed(evs).total,
        replayed(replayed(evs).events).rare == replayed(evs).rare,
        replayed(replayed(evs).events).daily == replayed(evs).daily,
        intervals_of(replayed(replayed(evs).events).events) == intervals_of(replayed(evs).events),
{
    lemma_replayed_log_keeps_triggers(evs);
    lemma_replay_same_triggers(replayed(evs).events, evs);
}

} // verus!
