//! A completed focus session: when it ran in local time, how long it lasted
//! in whole seconds, and the hour and weekday it started on.
use vstd::prelude::*;
use vstd::arithmetic::div_mod::{lemma_fundamental_div_mod, lemma_fundamental_div_mod_converse};

verus! {

/// Seconds in a day.
pub const SECONDS_PER_DAY: i64 = 86400;

/// Nanoseconds in a second.
pub const NANOS_PER_SECOND: i64 = 1000000000;

/// A session shorter than this many seconds (ten minutes) counts as interrupted.
pub const INTERRUPTED_BELOW_SECONDS: u64 = 600;

/// Bound on the magnitude of a Unix timestamp (about 35 million years).
pub const TIMESTAMP_LIMIT: i64 = 1125899906842624;

/// A shift by whole weeks that makes every local time non-negative.
const WEEKS_SHIFT: u64 = 1298798110310400;

/// A point in time together with the local UTC offset in force at that
/// moment: seconds since the Unix epoch (UTC), the sub-second nanoseconds,
/// and the offset east of UTC in seconds.
#[derive(Clone, Copy, Debug)]
pub struct LocalStamp {
    pub utc_seconds: i64,
    pub nanos: u32,
    pub offset_seconds: i32,
}

impl LocalStamp {
    /// The stamp is within the supported range: nanoseconds below one
    /// second, an offset below one day, a timestamp within `TIMESTAMP_LIMIT`.
    pub open spec fn wf(&self) -> bool {
        &&& -TIMESTAMP_LIMIT < self.utc_seconds < TIMESTAMP_LIMIT
        &&& self.nanos < NANOS_PER_SECOND
        &&& -SECONDS_PER_DAY < self.offset_seconds < SECONDS_PER_DAY
    }

    /// Seconds since the epoch on the local wall clock.
    pub open spec fn local_seconds(&self) -> int {
        self.utc_seconds + self.offset_seconds
    }
}

/// The local calendar day, counted from 1970-01-01.
pub open spec fn local_day(t: LocalStamp) -> int {
    t.local_seconds() / (SECONDS_PER_DAY as int)
}

/// The local hour of the day, 0–23.
pub open spec fn hour_of(t: LocalStamp) -> int {
    (t.local_seconds() % (SECONDS_PER_DAY as int)) / 3600
}

/// The local weekday counted from Monday (0) to Sunday (6); 1970-01-01 was a Thursday.
pub open spec fn weekday_of(t: LocalStamp) -> int {
    (local_day(t) + 3) % 7
}

/// Signed nanoseconds from `start` to `end`.
pub open spec fn elapsed_nanos(start: LocalStamp, end: LocalStamp) -> int {
    (end.utc_seconds - start.utc_seconds) * NANOS_PER_SECOND + end.nanos - start.nanos
}

/// Whole seconds from `start` to `end`, and zero when `end` is not after `start`.
pub open spec fn whole_seconds_between(start: LocalStamp, end: LocalStamp) -> int {
    if elapsed_nanos(start, end) <= 0 {
        0
    } else {
        elapsed_nanos(start, end) / (NANOS_PER_SECOND as int)
    }
}

/// A completed focus session.
#[derive(Clone, Copy, Debug)]
pub struct SessionRecord {
    pub start_time: LocalStamp,
    pub end_time: LocalStamp,
    pub duration_seconds: u64,
    pub hour_of_day: u8,
    pub day_of_week: u8,
    pub interrupted: bool,
}

proof fn lemma_shift_div_mod(x: int, m: int, k: int)
    requires
        m > 0,
    ensures
        (x + k * m) / m == x / m + k,
        (x + k * m) % m == x % m,
{
    lemma_fundamental_div_mod(x, m);
    assert(x + k * m == (x / m + k) * m + x % m) by (nonlinear_arith)
        requires
            x == m * (x / m) + x % m,
    ;
    lemma_fundamental_div_mod_converse(x + k * m, m, x / m + k, x % m);
}

/// The local hour and weekday (from Monday) of a stamp.
pub fn local_hour_and_weekday(t: LocalStamp) -> (r: (u8, u8))
    requires
        t.wf(),
    ensures
        r.0 as int == hour_of(t),
        r.1 as int == weekday_of(t),
        r.0 < 24,
        r.1 < 7,
{
    let local: i64 = t.utc_seconds + t.offset_seconds as i64;
    let shifted: u64 = (local as i128 + WEEKS_SHIFT as i128) as u64;
    let days: u64 = shifted / 86400;
    let second_of_day: u64 = shifted % 86400;
    let hour: u64 = second_of_day / 3600;
    let weekday: u64 = (days + 3) % 7;
    proof {
        let x = t.local_seconds();
        let c: int = 7int * 2147483648int;
        assert(WEEKS_SHIFT as int == c * 86400);
        lemma_shift_div_mod(x, 86400, c);
        assert(days as int == local_day(t) + c);
        assert(second_of_day as int == x % 86400);
        assert((days + 3) as int == (local_day(t) + 3) + 2147483648 * 7);
        lemma_shift_div_mod(local_day(t) + 3, 7, 2147483648);
    }
    (hour as u8, weekday as u8)
}

/// The local calendar day of a stamp, counted from 1970-01-01.
pub fn local_day_number(t: LocalStamp) -> (r: i64)
    requires
        t.wf(),
    ensures
        r as int == local_day(t),
{
    let local: i64 = t.utc_seconds + t.offset_seconds as i64;
    let shifted: u64 = (local as i128 + WEEKS_SHIFT as i128) as u64;
    let days: u64 = shifted / 86400;
    proof {
        let c: int = 7int * 2147483648int;
        assert(WEEKS_SHIFT as int == c * 86400);
        lemma_shift_div_mod(t.local_seconds(), 86400, c);
    }
    (days as i128 - 15032385536i128) as i64
}

/// The local wall-clock seconds of a stamp.
pub fn local_seconds_of(t: LocalStamp) -> (r: i64)
    requires
        t.wf(),
    ensures
        r as int == t.local_seconds(),
{
    t.utc_seconds + t.offset_seconds as i64
}

/// Whole seconds from `start` to `end`, floored at zero (what
/// `end.signed_duration_since(start).num_seconds().max(0)` gives).
pub fn elapsed_whole_seconds(start: LocalStamp, end: LocalStamp) -> (r: u64)
    requires
        start.wf(),
        end.wf(),
    ensures
        r as int == whole_seconds_between(start, end),
{
    let d: i64 = end.utc_seconds - start.utc_seconds;
    let dn: i64 = end.nanos as i64 - start.nanos as i64;
    proof {
        let e = elapsed_nanos(start, end);
        assert(e == d * NANOS_PER_SECOND + dn);
        if d > 0 {
            if dn >= 0 {
                lemma_fundamental_div_mod_converse(e, NANOS_PER_SECOND as int, d as int, dn as int);
            } else {
                assert(e == (d - 1) * NANOS_PER_SECOND + (dn + NANOS_PER_SECOND)) by (nonlinear_arith)
                    requires
                        e == d * NANOS_PER_SECOND + dn,
                ;
                lemma_fundamental_div_mod_converse(
                    e,
                    NANOS_PER_SECOND as int,
                    (d - 1) as int,
                    (dn + NANOS_PER_SECOND) as int,
                );
            }
        } else if d < 0 {
            assert(e <= 0) by (nonlinear_arith)
                requires
                    e == d * NANOS_PER_SECOND + dn,
                    d <= -1,
                    dn < NANOS_PER_SECOND,
            ;
        } else {
            if dn > 0 {
                lemma_fundamental_div_mod_converse(e, NANOS_PER_SECOND as int, 0, dn as int);
            }
        }
    }
    if d <= 0 {
        0
    } else if dn >= 0 {
        d as u64
    } else {
        (d - 1) as u64
    }
}

/// The longest session a record can hold: the span of the supported timestamps.
pub const MAX_SESSION_SECONDS: u64 = 2251799813685248;

impl SessionRecord {
    /// The record's times are supported stamps and its length is within range.
    pub open spec fn wf(&self) -> bool {
        &&& self.start_time.wf()
        &&& self.end_time.wf()
        &&& self.duration_seconds <= MAX_SESSION_SECONDS
    }

    /// The record of a session that ran from `start_time` to `end_time`: its
    /// length in whole seconds (zero if the clock went backwards), the local
    /// hour and weekday it started on, and whether it was interrupted, that
    /// is shorter than ten minutes.
    pub fn new(start_time: LocalStamp, end_time: LocalStamp) -> (r: SessionRecord)
        requires
            start_time.wf(),
            end_time.wf(),
        ensures
            r.start_time == start_time,
            r.end_time == end_time,
            r.duration_seconds as int == whole_seconds_between(start_time, end_time),
            r.hour_of_day as int == hour_of(start_time),
            r.day_of_week as int == weekday_of(start_time),
            r.interrupted == (r.duration_seconds < INTERRUPTED_BELOW_SECONDS),
            r.wf(),
    {
        let duration_seconds = elapsed_whole_seconds(start_time, end_time);
        let (hour_of_day, day_of_week) = local_hour_and_weekday(start_time);
        SessionRecord {
            start_time,
            end_time,
            duration_seconds,
            hour_of_day,
            day_of_week,
            interrupted: duration_seconds < INTERRUPTED_BELOW_SECONDS,
        }
    }
}

/// A session's hour and weekday are always within range.
pub proof fn law_session_calendar_ranges(t: LocalStamp)
    ensures
        0 <= hour_of(t) < 24,
        0 <= weekday_of(t) < 7,
{
}

} // verus!
