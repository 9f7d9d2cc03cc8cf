//! Points in time as the countdown reads them: a UTC instant with the
//! local calendar fields that go with it, the current time, and the
//! school-start moment of a year in the machine's time zone.

use chrono::{Datelike, TimeZone, Timelike};
use vstd::prelude::*;

verus! {

/// Nanoseconds in one second.
pub const NANOS_PER_SEC: u32 = 1_000_000_000;

/// A UTC instant: whole seconds since the Unix epoch and the nanoseconds
/// past that second.
#[derive(Clone, Copy, Debug, PartialEq, Eq)]
pub struct Timestamp {
    pub secs: i64,
    pub nanos: u32,
}

/// A moment with the local calendar fields under which it is shown.
#[derive(Clone, Copy, Debug, PartialEq, Eq)]
pub struct LocalDateTime {
    pub instant: Timestamp,
    pub year: i32,
    pub month: u32,
    pub day: u32,
    pub hour: u32,
    pub minute: u32,
    pub second: u32,
}

impl Timestamp {
    /// The nanoseconds part is below one second.
    pub open spec fn wf(self) -> bool {
        self.nanos < NANOS_PER_SEC
    }

    /// Nanoseconds since the Unix epoch.
    pub open spec fn total_nanos(self) -> int {
        self.secs * NANOS_PER_SEC + self.nanos
    }

    /// `self` is the same instant as `other` or later, in the order of
    /// seconds first, then nanoseconds.
    pub open spec fn not_before(self, other: Timestamp) -> bool {
        self.secs > other.secs || (self.secs == other.secs && self.nanos >= other.nanos)
    }

    /// Whether `self` is at `other` or later.
    pub fn is_not_before(&self, other: &Timestamp) -> (r: bool)
        ensures
            r == self.not_before(*other),
    {
        self.secs > other.secs || (self.secs == other.secs && self.nanos >= other.nanos)
    }
}

/// On well-formed instants the order of seconds and nanoseconds is the
/// order of the total nanoseconds since the epoch.
pub proof fn lemma_order_is_time_order(a: Timestamp, b: Timestamp)
    requires
        a.wf(),
        b.wf(),
    ensures
        a.not_before(b) <==> a.total_nanos() >= b.total_nanos(),
{
    if a.secs > b.secs {
        assert(a.secs * 1_000_000_000 >= (b.secs + 1) * 1_000_000_000) by (nonlinear_arith)
            requires
                a.secs > b.secs,
        ;
    } else if a.secs < b.secs {
        assert(b.secs * 1_000_000_000 >= (a.secs + 1) * 1_000_000_000) by (nonlinear_arith)
            requires
                a.secs < b.secs,
        ;
    }
}

impl LocalDateTime {
    /// The instant is well formed.
    pub open spec fn wf(self) -> bool {
        self.instant.wf()
    }
}

/// The current local date and time, read from the system clock through
/// `chrono::Local::now`.
///
/// The result depends on the clock and the machine's time zone, so nothing
/// is stated of it but what the source and documentation show of every
/// result: the nanoseconds come from `Duration::subsec_nanos` and stay below
/// one second, and the calendar fields lie in the ranges that `Datelike` and
/// `Timelike` document (month 1 to 12, day 1 to 31, hour 0 to 23, minute and
/// second 0 to 59). `chrono` panics when the system clock reads a time
/// before the Unix epoch or the local offset cannot be found.
#[verifier::external_body]
pub fn local_now() -> (t: LocalDateTime)
    ensures
        t.wf(),
        1 <= t.month <= 12,
        1 <= t.day <= 31,
        t.hour <= 23,
        t.minute <= 59,
        t.second <= 59,
{
    let now = chrono::Local::now();
    LocalDateTime {
        instant: Timestamp { secs: now.timestamp(), nanos: now.timestamp_subsec_nanos() },
        year: now.year(),
        month: now.month(),
        day: now.day(),
        hour: now.hour(),
        minute: now.minute(),
        second: now.second(),
    }
}

/// The outcome of placing a local date and time on the time line of the
/// machine's time zone: the UTC seconds of one instant, of two (a fold), or
/// none (a gap, an invalid date, or an error).
#[derive(Clone, Copy, Debug, PartialEq, Eq)]
pub enum LocalLookup {
    Single(i64),
    Ambiguous(i64, i64),
    Missing,
}

/// A local date and time of day, as handed to the time zone.
#[derive(Clone, Copy, Debug, PartialEq, Eq)]
pub struct LocalQuery {
    pub year: i32,
    pub month: u32,
    pub day: u32,
    pub hour: u32,
    pub minute: u32,
    pub second: u32,
}

/// A local date and time and where it fell on the time line.
#[derive(Clone, Copy, Debug, PartialEq, Eq)]
pub struct LookupResult {
    pub query: LocalQuery,
    pub outcome: LocalLookup,
}

/// Days from 1970-01-01 to the given date of the proleptic Gregorian
/// calendar (negative before it).
pub open spec fn days_from_civil(year: int, month: int, day: int) -> int {
    let y = if month <= 2 { year - 1 } else { year };
    let era = y / 400;
    let year_of_era = y - era * 400;
    let shifted_month = if month > 2 { month - 3 } else { month + 9 };
    let day_of_year = (153 * shifted_month + 2) / 5 + day - 1;
    let day_of_era = year_of_era * 365 + year_of_era / 4 - year_of_era / 100 + day_of_year;
    era * 146097 + day_of_era - 719468
}

/// The queried local date and time read as if it were UTC: seconds since
/// the Unix epoch.
pub open spec fn naive_secs(q: LocalQuery) -> int {
    days_from_civil(q.year as int, q.month as int, q.day as int) * 86400 + q.hour * 3600 + q.minute
        * 60 + q.second
}

/// The instant `secs` lies less than a day from the queried local time read
/// as UTC: what any UTC offset of less than a day gives.
pub open spec fn within_a_day(q: LocalQuery, secs: i64) -> bool {
    -86400 < secs - naive_secs(q) < 86400
}

/// Every instant of the lookup lies less than a day from its query.
pub open spec fn lookup_near_query(r: LookupResult) -> bool {
    match r.outcome {
        LocalLookup::Single(s) => within_a_day(r.query, s),
        LocalLookup::Ambiguous(a, b) => within_a_day(r.query, a) && within_a_day(r.query, b),
        LocalLookup::Missing => true,
    }
}

/// `chrono::Local.with_ymd_and_hms` on the fields of `query`, with each
/// resulting `DateTime` taken by its Unix timestamp, and the query handed
/// back beside the outcome.
///
/// The instants depend on the machine's time zone and are not stated, nor
/// the order of the two instants of a fold, which differs between
/// platforms. What the source shows of every outcome is stated: a month
/// above 12, a day above 31, an hour above 23, a minute above 59 or a second
/// above 59 gives no instant; and each instant is the queried local time
/// less a UTC offset, which `FixedOffset::east_opt` keeps strictly within a
/// day, so it lies less than a day from the query read as UTC. The
/// resulting date-times carry exactly the queried local fields and no
/// nanoseconds; `choose_start` builds them from that.
#[verifier::external_body]
fn local_timestamps(query: LocalQuery) -> (r: LookupResult)
    ensures
        r.query == query,
        lookup_near_query(r),
        (query.month > 12 || query.day > 31 || query.hour > 23 || query.minute > 59
            || query.second > 59) ==> r.outcome is Missing,
{
    let outcome = match chrono::Local.with_ymd_and_hms(
        query.year,
        query.month,
        query.day,
        query.hour,
        query.minute,
        query.second,
    ) {
        chrono::MappedLocalTime::Single(t) => LocalLookup::Single(t.timestamp()),
        chrono::MappedLocalTime::Ambiguous(a, b) => LocalLookup::Ambiguous(a.timestamp(), b.timestamp()),
        chrono::MappedLocalTime::None => LocalLookup::Missing,
    };
    LookupResult { query, outcome }
}

/// Month of the school start.
pub const START_MONTH: u32 = 9;

/// Day of the school start.
pub const START_DAY: u32 = 1;

/// Hour of the school start.
pub const START_HOUR: u32 = 8;

/// The local time of the school start of `year`: 1 September, 08:00:00.
pub open spec fn start_query(year: i32) -> LocalQuery {
    LocalQuery {
        year,
        month: START_MONTH,
        day: START_DAY,
        hour: START_HOUR,
        minute: 0,
        second: 0,
    }
}

/// The school start of `year` at the given instant: 1 September, 08:00:00.
pub open spec fn start_at(year: i32, secs: i64) -> LocalDateTime {
    LocalDateTime {
        instant: Timestamp { secs, nanos: 0 },
        year,
        month: START_MONTH,
        day: START_DAY,
        hour: START_HOUR,
        minute: 0,
        second: 0,
    }
}

/// The school start of `year` when its local time maps to one instant
/// (what `MappedLocalTime::single` keeps); `None` for a gap or a fold.
pub open spec fn single_start(year: i32, lookup: LocalLookup) -> Option<LocalDateTime> {
    match lookup {
        LocalLookup::Single(secs) => Some(start_at(year, secs)),
        _ => None,
    }
}

/// The target that the two lookups give: this year's school start when it
/// maps to one instant, else next year's when that does, else none.
pub open spec fn chosen_start(year: i32, this_year: LocalLookup, next_year: LocalLookup) -> Option<
    LocalDateTime,
> {
    match this_year {
        LocalLookup::Single(secs) => Some(start_at(year, secs)),
        _ => single_start((year + 1) as i32, next_year),
    }
}

/// The school start of `year` when its local time maps to one instant;
/// `None` for a gap or a fold.
pub fn start_from_lookup(year: i32, lookup: LocalLookup) -> (r: Option<LocalDateTime>)
    ensures
        r == single_start(year, lookup),
{
    match lookup {
        LocalLookup::Single(secs) => Some(
            LocalDateTime {
                instant: Timestamp { secs, nanos: 0 },
                year,
                month: START_MONTH,
                day: START_DAY,
                hour: START_HOUR,
                minute: 0,
                second: 0,
            },
        ),
        _ => None,
    }
}

/// Picks the target from the lookups of this year's and next year's school
/// start: this year's when it maps to one instant, else next year's.
pub fn choose_start(year: i32, this_year: LocalLookup, next_year: LocalLookup) -> (r: Option<
    LocalDateTime,
>)
    requires
        year < i32::MAX,
    ensures
        r == chosen_start(year, this_year, next_year),
{
    match start_from_lookup(year, this_year) {
        Some(t) => Some(t),
        None => start_from_lookup(year + 1, next_year),
    }
}

fn start_lookup(year: i32) -> (r: LookupResult)
    ensures
        r.query == start_query(year),
        lookup_near_query(r),
{
    local_timestamps(
        LocalQuery {
            year,
            month: START_MONTH,
            day: START_DAY,
            hour: START_HOUR,
            minute: 0,
            second: 0,
        },
    )
}

/// The countdown's target: 1 September, 08:00:00 local time of `year`, or,
/// when that local time does not map to exactly one instant, of the next
/// year. `None` when neither does (where the program gives up).
///
/// Next year's start is looked up only when this year's does not map to
/// one instant. Which instants the time zone gives is not known in
/// advance; the result is what `choose_start` makes of a lookup of this
/// year's school start and one of next year's.
pub fn school_start(year: i32) -> (r: Option<LocalDateTime>)
    requires
        year < i32::MAX,
    ensures
        exists|this_year: LookupResult, next_year: LookupResult|
            {
                &&& this_year.query == start_query(year)
                &&& next_year.query == start_query((year + 1) as i32)
                &&& lookup_near_query(this_year)
                &&& lookup_near_query(next_year)
                &&& r == chosen_start(year, this_year.outcome, next_year.outcome)
            },
        r matches Some(t) ==> {
            &&& t.wf()
            &&& t == start_at(t.year, t.instant.secs)
            &&& (t.year == year || t.year == year + 1)
            &&& within_a_day(start_query(t.year), t.instant.secs)
        },
{
    let this_year = start_lookup(year);
    if let LocalLookup::Single(_) = this_year.outcome {
        let r = choose_start(year, this_year.outcome, LocalLookup::Missing);
        let ghost next_year = LookupResult { query: start_query((year + 1) as i32), outcome: LocalLookup::Missing };
        assert(next_year.query == start_query((year + 1) as i32) && lookup_near_query(next_year));
        assert(r == chosen_start(year, this_year.outcome, next_year.outcome));
        r
    } else {
        let next_year = start_lookup(year + 1);
        let r = choose_start(year, this_year.outcome, next_year.outcome);
        assert(r == chosen_start(year, this_year.outcome, next_year.outcome));
        r
    }
}

} // verus!
