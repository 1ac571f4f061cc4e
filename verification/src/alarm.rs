//! The alarm scheduler: which configured alarm rings at a given wall-clock second, and the
//! bookkeeping that keeps one alarm from ringing twice for the same second.
use chrono::{Datelike, Timelike};
use vstd::prelude::*;

use crate::config::{AlarmConfig, AlarmDay, Weekday};

verus! {

/// The wall-clock reading that the scheduler compares alarms against.
#[derive(Clone, Copy, Debug, PartialEq, Eq, Structural)]
pub struct WallClock {
    /// Whether the reading is in UTC (else in local time).
    pub utc: bool,
    pub weekday: Weekday,
    pub year: i32,
    /// Day of the year, starting from 1.
    pub ordinal: u32,
    pub hour: u32,
    pub minute: u32,
    pub second: u32,
}

/// Which alarm rang, and at which second of which day.
#[derive(Clone, Copy, Debug, PartialEq, Eq, Structural)]
pub struct TriggerStamp {
    pub alarm_index: usize,
    pub year: i32,
    pub ordinal: u32,
    pub hour: u32,
    pub minute: u32,
    pub second: u32,
}

/// The calendar fields of a reading: the weekday counted from Monday (0 to 6), the year, the
/// ordinal day, the hour, the minute and the second.
pub type CalendarFields = (u32, i32, u32, u32, u32, u32);

/// Whether calendar fields lie in the ranges that chrono documents: weekday 0 to 6, ordinal day
/// 1 to 366, hour 0 to 23, minute and second 0 to 59.
pub open spec fn fields_in_range(f: CalendarFields) -> bool {
    &&& f.0 < 7
    &&& 1 <= f.2 <= 366
    &&& f.3 < 24
    &&& f.4 < 60
    &&& f.5 < 60
}

/// The UTC calendar fields of the instant `secs` seconds and `nanos` nanoseconds after the Unix
/// epoch, as chrono computes them (`None` when chrono cannot represent the instant).
pub uninterp spec fn utc_calendar(secs: i64, nanos: u32) -> Option<CalendarFields>;

/// std's `SystemTime`, carried from the clock read to the epoch offset without being looked into.
#[verifier::external_type_specification]
#[verifier::external_body]
pub struct ExSystemTime(std::time::SystemTime);

/// Reads the system clock: std's `SystemTime::now`. Nothing is stated of the result, which
/// depends on the clock.
#[verifier::external_body]
fn system_time_now() -> std::time::SystemTime {
    std::time::SystemTime::now()
}

/// The time from the Unix epoch to `t`: std's `t.duration_since(UNIX_EPOCH)`, as whole seconds
/// and the nanoseconds beyond them; `None` when `t` lies before the epoch (std's
/// `duration_since` then returns an error).
///
/// `SystemTime` is opaque here, so only the range of the nanoseconds (below one second, as std's
/// `Duration::subsec_nanos` documents) is stated.
#[verifier::external_body]
fn since_unix_epoch(t: std::time::SystemTime) -> (r: Option<(u64, u32)>)
    ensures
        r matches Some(d) ==> d.1 < 1_000_000_000,
{
    let d = t.duration_since(std::time::UNIX_EPOCH).ok()?;
    Some((d.as_secs(), d.subsec_nanos()))
}

/// The UTC calendar fields of an instant: chrono's `DateTime::from_timestamp(secs, nanos)`
/// (which returns `None` for an instant it cannot represent, and does not panic), then the
/// `naive_utc()` weekday (by `Weekday::num_days_from_monday`), year, ordinal day, hour, minute
/// and second.
///
/// The result is named [`utc_calendar`]; beside the name, the ranges that chrono documents for
/// these fields are stated.
#[verifier::external_body]
fn utc_fields(secs: i64, nanos: u32) -> (r: Option<CalendarFields>)
    ensures
        r == utc_calendar(secs, nanos),
        r matches Some(f) ==> fields_in_range(f),
{
    let t = chrono::DateTime::from_timestamp(secs, nanos)?.naive_utc();
    Some((t.weekday().num_days_from_monday(), t.year(), t.ordinal(), t.hour(), t.minute(), t.second()))
}

/// Whether a reading lies in the documented ranges.
pub open spec fn reading_in_range(now: WallClock) -> bool {
    &&& 1 <= now.ordinal <= 366
    &&& now.hour < 24
    &&& now.minute < 60
    &&& now.second < 60
}

/// The UTC wall-clock reading of the instant `secs` seconds and `nanos` nanoseconds after the
/// Unix epoch: `None` when `secs` does not fit in an `i64` or chrono cannot represent the
/// instant, else the reading made of chrono's calendar fields.
pub open spec fn utc_reading(secs: u64, nanos: u32) -> Option<WallClock> {
    if secs > i64::MAX {
        None
    } else {
        match utc_calendar(secs as i64, nanos) {
            Some(f) => Some(
                WallClock {
                    utc: true,
                    weekday: Weekday::numbered(f.0 as int),
                    year: f.1,
                    ordinal: f.2,
                    hour: f.3,
                    minute: f.4,
                    second: f.5,
                },
            ),
            None => None,
        }
    }
}

/// The UTC wall-clock reading of the instant `secs` seconds and `nanos` nanoseconds after the
/// Unix epoch.
pub fn utc_clock_at(secs: u64, nanos: u32) -> (r: Option<WallClock>)
    ensures
        r == utc_reading(secs, nanos),
        r matches Some(now) ==> reading_in_range(now),
{
    if secs > i64::MAX as u64 {
        return None;
    }
    match utc_fields(secs as i64, nanos) {
        Some((weekday, year, ordinal, hour, minute, second)) => Some(
            WallClock {
                utc: true,
                weekday: Weekday::from_days_from_monday(weekday),
                year,
                ordinal,
                hour,
                minute,
                second,
            },
        ),
        None => None,
    }
}

/// The current wall-clock reading in UTC: the reading of the instant that the system clock
/// gives, taken from the Unix epoch; `None` when the system clock reads a time before the Unix
/// epoch or one that cannot be represented.
///
/// Which instant the system clock gives is not stated: it depends on the machine and the time.
pub fn current_utc_clock() -> (r: Option<WallClock>)
    ensures
        r matches Some(now) ==> now.utc && reading_in_range(now) && exists|secs: u64, nanos: u32|
            nanos < 1_000_000_000 && #[trigger] utc_reading(secs, nanos) == r,
{
    match since_unix_epoch(system_time_now()) {
        Some((secs, nanos)) => utc_clock_at(secs, nanos),
        None => None,
    }
}

/// The abstract state of an [`AlarmScheduler`].
pub struct SchedulerState {
    pub alarms: Seq<AlarmConfig>,
    pub use_utc: bool,
    pub active: bool,
    pub last_trigger: Option<TriggerStamp>,
}

/// Decides when a configured alarm starts ringing and remembers that it rings until it is
/// dismissed.
pub struct AlarmScheduler {
    alarms: Vec<AlarmConfig>,
    use_utc: bool,
    active: bool,
    last_trigger: Option<TriggerStamp>,
}

impl View for AlarmScheduler {
    type V = SchedulerState;

    closed spec fn view(&self) -> SchedulerState {
        SchedulerState {
            alarms: self.alarms@,
            use_utc: self.use_utc,
            active: self.active,
            last_trigger: self.last_trigger,
        }
    }
}

/// Whether one of `days` is the given weekday.
pub open spec fn rings_on(days: Seq<AlarmDay>, weekday: Weekday) -> bool {
    exists|i: int| 0 <= i < days.len() && (#[trigger] days[i]).weekday() == weekday
}

/// Whether `alarm` is set for the day and second that `now` reads.
pub open spec fn alarm_due(alarm: AlarmConfig, now: WallClock) -> bool {
    &&& rings_on(alarm.days@, now.weekday)
    &&& alarm.time.hour == now.hour
    &&& alarm.time.minute == now.minute
    &&& alarm.time.second == now.second
}

/// The stamp of alarm `i` ringing at `now`.
pub open spec fn stamp_of(i: int, now: WallClock) -> TriggerStamp {
    TriggerStamp {
        alarm_index: i as usize,
        year: now.year,
        ordinal: now.ordinal,
        hour: now.hour,
        minute: now.minute,
        second: now.second,
    }
}

/// Whether alarm `i` may start ringing at `now`: it is due, and the last alarm that rang was not
/// this alarm at this very second.
pub open spec fn can_ring(st: SchedulerState, i: int, now: WallClock) -> bool {
    &&& 0 <= i < st.alarms.len()
    &&& alarm_due(st.alarms[i], now)
    &&& st.last_trigger != Some(stamp_of(i, now))
}

/// The first alarm from index `i` on that may start ringing at `now`.
pub open spec fn first_ringing_from(st: SchedulerState, now: WallClock, i: int) -> Option<int>
    decreases st.alarms.len() - i,
{
    if i < 0 || i >= st.alarms.len() {
        None
    } else if can_ring(st, i, now) {
        Some(i)
    } else {
        first_ringing_from(st, now, i + 1)
    }
}

/// The first alarm that may start ringing at `now`.
pub open spec fn first_ringing(st: SchedulerState, now: WallClock) -> Option<int> {
    first_ringing_from(st, now, 0)
}

/// The state after the scheduler looked at the clock reading `now`: nothing changes while an
/// alarm rings or when no alarm may start; otherwise the first alarm that may start rings and
/// its stamp is remembered.
pub open spec fn refreshed(st: SchedulerState, now: WallClock) -> SchedulerState {
    if st.active {
        st
    } else {
        match first_ringing(st, now) {
            None => st,
            Some(i) => SchedulerState { active: true, last_trigger: Some(stamp_of(i, now)), ..st },
        }
    }
}

/// The state after the ringing alarm was dismissed.
pub open spec fn dismissed(st: SchedulerState) -> SchedulerState {
    SchedulerState { active: false, ..st }
}

proof fn lemma_first_ringing_from_found(st: SchedulerState, now: WallClock, i: int)
    requires
        0 <= i,
        first_ringing_from(st, now, i) is Some,
    ensures
        ({
            let k = first_ringing_from(st, now, i)->0;
            &&& i <= k < st.alarms.len()
            &&& can_ring(st, k, now)
            &&& forall|j: int| i <= j < k ==> !can_ring(st, j, now)
        }),
    decreases st.alarms.len() - i,
{
    if i < st.alarms.len() && !can_ring(st, i, now) {
        lemma_first_ringing_from_found(st, now, i + 1);
    }
}

impl AlarmScheduler {
    /// A scheduler for `alarms`, with no alarm ringing.
    pub fn new(alarms: Vec<AlarmConfig>, use_utc: bool) -> (r: Self)
        ensures
            r@.alarms == alarms@,
            r@.use_utc == use_utc,
            !r@.active,
            r@.last_trigger is None,
    {
        AlarmScheduler { alarms, use_utc, active: false, last_trigger: None }
    }

    /// Whether one of `days` is `weekday`.
    fn matches_day(days: &Vec<AlarmDay>, weekday: Weekday) -> (r: bool)
        ensures
            r == rings_on(days@, weekday),
    {
        let mut i: usize = 0;
        while i < days.len()
            invariant
                i <= days.len(),
                forall|j: int| 0 <= j < i ==> (#[trigger] days@[j]).weekday() != weekday,
            decreases days.len() - i,
        {
            if days[i].matches(weekday) {
                return true;
            }
            i = i + 1;
        }
        false
    }

    /// Looks at the clock reading `now`: when no alarm rings, the first alarm that is set for
    /// this weekday and second, and that did not already ring for this very second, starts
    /// ringing.
    pub fn refresh_at(&mut self, now: WallClock)
        ensures
            final(self)@ == refreshed(old(self)@, now),
    {
        if self.active {
            return;
        }
        if self.alarms.len() == 0 {
            return;
        }
        let ghost st = self@;
        let mut i: usize = 0;
        while i < self.alarms.len()
            invariant
                self@ == st,
                st == old(self)@,
                !st.active,
                i <= st.alarms.len(),
                first_ringing(st, now) == first_ringing_from(st, now, i as int),
            decreases self.alarms.len() - i,
        {
            let alarm = &self.alarms[i];
            let due = Self::matches_day(&alarm.days, now.weekday) && alarm.time.hour == now.hour
                && alarm.time.minute == now.minute && alarm.time.second == now.second;
            if due {
                let stamp = TriggerStamp {
                    alarm_index: i,
                    year: now.year,
                    ordinal: now.ordinal,
                    hour: now.hour,
                    minute: now.minute,
                    second: now.second,
                };
                let repeated = match self.last_trigger {
                    Some(last) => last == stamp,
                    None => false,
                };
                assert(stamp == stamp_of(i as int, now));
                if !repeated {
                    assert(alarm_due(st.alarms[i as int], now));
                    assert(can_ring(st, i as int, now));
                    assert(first_ringing(st, now) == Some(i as int));
                    self.last_trigger = Some(stamp);
                    self.active = true;
                    assert(self@.alarms =~= st.alarms);
                    assert(self@ == refreshed(st, now));
                    return;
                }
            }
            i = i + 1;
        }
    }

    /// Looks at the clock when that is needed: nothing happens while an alarm rings or when no
    /// alarm is configured. Otherwise a scheduler that follows UTC reads the UTC clock and looks
    /// at the reading as [`AlarmScheduler::refresh_at`] does (nothing changes when no reading can
    /// be had: the system clock reads a time before the Unix epoch); a scheduler that follows
    /// local time changes nothing and answers `true`, and the caller reads the local clock and
    /// hands the reading to [`AlarmScheduler::refresh_at`].
    ///
    /// The UTC reading is [`utc_reading`] of the instant that the system clock gives; which
    /// instant that is depends on the machine and the time, and is not stated.
    pub fn refresh(&mut self) -> (needs_local_reading: bool)
        ensures
            needs_local_reading == (!old(self)@.active && old(self)@.alarms.len() > 0
                && !old(self)@.use_utc),
            old(self)@.active || old(self)@.alarms.len() == 0 || !old(self)@.use_utc
                ==> final(self)@ == old(self)@,
            final(self)@ == old(self)@ || exists|secs: u64, nanos: u32, now: WallClock|
                #![trigger utc_reading(secs, nanos), refreshed(old(self)@, now)]
                utc_reading(secs, nanos) == Some(now) && old(self)@.use_utc
                    && final(self)@ == refreshed(old(self)@, now),
    {
        if self.active {
            return false;
        }
        if self.alarms.len() == 0 {
            return false;
        }
        if !self.use_utc {
            return true;
        }
        match current_utc_clock() {
            Some(now) => self.refresh_at(now),
            None => {},
        }
        false
    }

    /// Whether the scheduler follows UTC (else local time).
    pub fn uses_utc(&self) -> (r: bool)
        ensures
            r == self@.use_utc,
    {
        self.use_utc
    }

    /// Stops the ringing alarm.
    pub fn dismiss(&mut self)
        ensures
            final(self)@ == dismissed(old(self)@),
    {
        self.active = false;
    }

    /// Whether an alarm rings.
    pub fn is_active(&self) -> (r: bool)
        ensures
            r == self@.active,
    {
        self.active
    }

    /// Replaces the alarms and the time zone setting; whether an alarm rings, and which rang
    /// last, stay as they were.
    pub fn reconfigure(&mut self, alarms: Vec<AlarmConfig>, use_utc: bool)
        ensures
            final(self)@.alarms == alarms@,
            final(self)@.use_utc == use_utc,
            final(self)@.active == old(self)@.active,
            final(self)@.last_trigger == old(self)@.last_trigger,
    {
        self.alarms = alarms;
        self.use_utc = use_utc;
    }
}

/// While an alarm rings, looking at the clock changes nothing: it rings until it is dismissed.
pub proof fn law_ringing_until_dismissed(st: SchedulerState, now: WallClock)
    requires
        st.active,
    ensures
        refreshed(st, now) == st,
        !dismissed(st).active,
{
}

/// An alarm starts ringing only at a second for which it is set: then the stamp that is kept
/// names an alarm that is due at that reading, and every alarm before it either is not due or
/// already rang for that very second.
pub proof fn law_rings_only_when_due(st: SchedulerState, now: WallClock)
    requires
        !st.active,
        refreshed(st, now).active,
    ensures
        exists|i: int|
            0 <= i < st.alarms.len() && alarm_due(#[trigger] st.alarms[i], now) && refreshed(
                st,
                now,
            ).last_trigger == Some(stamp_of(i, now)) && forall|j: int|
                0 <= j < i ==> !can_ring(st, j, now),
{
    lemma_first_ringing_from_found(st, now, 0);
    let k = first_ringing(st, now)->0;
    assert(alarm_due(st.alarms[k], now));
}

/// With no alarms configured, no alarm ever rings.
pub proof fn law_no_alarms_never_ring(st: SchedulerState, now: WallClock)
    requires
        st.alarms.len() == 0,
    ensures
        refreshed(st, now) == st,
{
}

/// An alarm that rang and was dismissed does not ring again for the same second: looking at the
/// same clock reading again either leaves the scheduler quiet or starts an alarm with another
/// stamp.
pub proof fn law_dismissed_alarm_stays_quiet(st: SchedulerState, now: WallClock)
    requires
        !st.active,
        refreshed(st, now).active,
    ensures
        ({
            let rang = refreshed(st, now);
            let again = refreshed(dismissed(rang), now);
            again.active ==> again.last_trigger != rang.last_trigger
        }),
{
    let rang = refreshed(st, now);
    let again = refreshed(dismissed(rang), now);
    if again.active {
        lemma_first_ringing_from_found(dismissed(rang), now, 0);
    }
}

/// With a single alarm configured, once it rang and was dismissed, looking at the same clock
/// reading again keeps the scheduler quiet.
pub proof fn law_single_alarm_rings_once_per_second(st: SchedulerState, now: WallClock)
    requires
        !st.active,
        st.alarms.len() == 1,
        refreshed(st, now).active,
    ensures
        refreshed(dismissed(refreshed(st, now)), now) == dismissed(refreshed(st, now)),
{
    let rang = refreshed(st, now);
    lemma_first_ringing_from_found(st, now, 0);
    let d = dismissed(rang);
    assert(!can_ring(d, 0, now));
    assert(first_ringing_from(d, now, 1) is None);
}

/// One call on a scheduler, as a trace records it: a look at a clock reading (`refresh_at`, or a
/// `refresh` that read the UTC clock; a `refresh` that changed nothing leaves no trace), a
/// dismissal, or a reconfiguration.
pub enum SchedulerOp {
    Refresh(WallClock),
    Dismiss,
    Reconfigure(Seq<AlarmConfig>, bool),
}

/// The state after one call.
pub open spec fn apply_op(st: SchedulerState, op: SchedulerOp) -> SchedulerState {
    match op {
        SchedulerOp::Refresh(now) => refreshed(st, now),
        SchedulerOp::Dismiss => dismissed(st),
        SchedulerOp::Reconfigure(alarms, use_utc) => SchedulerState { alarms, use_utc, ..st },
    }
}

/// The state after a sequence of calls.
pub open spec fn run_ops(st: SchedulerState, ops: Seq<SchedulerOp>) -> SchedulerState
    decreases ops.len(),
{
    if ops.len() == 0 {
        st
    } else {
        apply_op(run_ops(st, ops.drop_last()), ops.last())
    }
}

/// Whether the `i`-th call of a trace started an alarm: it looked at the clock while no alarm
/// rang, and an alarm rang after it.
pub open spec fn started_alarm(st: SchedulerState, ops: Seq<SchedulerOp>, i: int) -> bool {
    &&& 0 <= i < ops.len()
    &&& ops[i] is Refresh
    &&& !run_ops(st, ops.take(i)).active
    &&& apply_op(run_ops(st, ops.take(i)), ops[i]).active
}

proof fn lemma_run_ops_prefix(st: SchedulerState, ops: Seq<SchedulerOp>, i: int)
    requires
        0 <= i < ops.len(),
    ensures
        ops.drop_last().take(i) == ops.take(i),
        run_ops(st, ops.take(i + 1)) == apply_op(run_ops(st, ops.take(i)), ops[i]),
{
    assert(ops.drop_last().take(i) =~= ops.take(i));
    assert(ops.take(i + 1).drop_last() =~= ops.take(i));
}

/// A scheduler that starts quiet (as [`AlarmScheduler::new`] makes it) rings after a trace of
/// calls exactly when some call of the trace started an alarm and no dismissal came after it;
/// looking at whether it rings changes nothing.
pub proof fn law_rings_iff_started_and_not_dismissed(st: SchedulerState, ops: Seq<SchedulerOp>)
    requires
        !st.active,
    ensures
        run_ops(st, ops).active <==> exists|i: int|
            started_alarm(st, ops, i) && forall|j: int|
                i < j < ops.len() ==> !(#[trigger] ops[j] is Dismiss),
    decreases ops.len(),
{
    if ops.len() == 0 {
        assert(!(exists|i: int|
            started_alarm(st, ops, i) && forall|j: int|
                i < j < ops.len() ==> !(#[trigger] ops[j] is Dismiss)));
    } else {
        let p = ops.drop_last();
        let n = ops.len() - 1;
        law_rings_iff_started_and_not_dismissed(st, p);
        assert(ops.take(n) =~= p);
        assert forall|i: int| 0 <= i < n implies started_alarm(st, ops, i) == started_alarm(
            st,
            p,
            i,
        ) by {
            lemma_run_ops_prefix(st, ops, i);
            assert(p[i] == ops[i]);
        }
        if run_ops(st, ops).active {
            if started_alarm(st, ops, n) {
                assert(forall|j: int| n < j < ops.len() ==> !(#[trigger] ops[j] is Dismiss));
            } else {
                let i = choose|i: int|
                    started_alarm(st, p, i) && forall|j: int|
                        i < j < p.len() ==> !(#[trigger] p[j] is Dismiss);
                assert(started_alarm(st, ops, i));
                assert forall|j: int| i < j < ops.len() implies !(#[trigger] ops[j] is Dismiss) by {
                    if j < n {
                        assert(ops[j] == p[j]);
                    }
                }
            }
        } else {
            if exists|i: int|
                started_alarm(st, ops, i) && forall|j: int|
                    i < j < ops.len() ==> !(#[trigger] ops[j] is Dismiss) {
                let i = choose|i: int|
                    started_alarm(st, ops, i) && forall|j: int|
                        i < j < ops.len() ==> !(#[trigger] ops[j] is Dismiss);
                if i < n {
                    assert(!(ops[n] is Dismiss));
                    assert(started_alarm(st, p, i));
                    assert forall|j: int| i < j < p.len() implies !(#[trigger] p[j] is Dismiss) by {
                        assert(ops[j] == p[j]);
                    }
                    assert(run_ops(st, p).active);
                }
            }
        }
    }
}

proof fn lemma_first_ringing_from_some(st: SchedulerState, now: WallClock, i: int, k: int)
    requires
        0 <= i <= k,
        can_ring(st, k, now),
    ensures
        first_ringing_from(st, now, i) is Some,
    decreases k - i,
{
    if i < k && !can_ring(st, i, now) {
        lemma_first_ringing_from_some(st, now, i + 1, k);
    }
}

/// An alarm is due exactly on the weekdays that its list of days names, wherever in the list a
/// day stands, and exactly at its hour, minute and second.
pub proof fn law_due_exactly_on_listed_days(alarm: AlarmConfig, now: WallClock)
    ensures
        alarm_due(alarm, now) <==> (exists|d: int|
            0 <= d < alarm.days@.len() && (#[trigger] alarm.days@[d]).weekday() == now.weekday)
            && alarm.time.hour == now.hour && alarm.time.minute == now.minute
            && alarm.time.second == now.second,
{
}

/// A quiet scheduler that has not rung yet starts ringing at a reading when one of its alarms is
/// set for that second and lists the reading's weekday, at any position among its days.
pub proof fn law_rings_on_each_listed_day(st: SchedulerState, now: WallClock, i: int, d: int)
    requires
        !st.active,
        st.last_trigger is None,
        0 <= i < st.alarms.len(),
        0 <= d < st.alarms[i].days@.len(),
        st.alarms[i].days@[d].weekday() == now.weekday,
        st.alarms[i].time.hour == now.hour,
        st.alarms[i].time.minute == now.minute,
        st.alarms[i].time.second == now.second,
    ensures
        refreshed(st, now).active,
{
    assert(rings_on(st.alarms[i].days@, now.weekday));
    assert(can_ring(st, i, now));
    lemma_first_ringing_from_some(st, now, 0, i);
}

} // verus!
