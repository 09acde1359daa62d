//! Removal of old received data: when it runs and what counts as old.
use vstd::prelude::*;
use crate::time::{instant_from_clock, instant_from_clock_reading, read_system_clock, Timestamp};

verus! {

/// A configured number of minutes, raised to at least one.
pub open spec fn at_least_one(minutes: int) -> int {
    if minutes < 1 {
        1
    } else {
        minutes
    }
}

/// Seconds between cleanup runs for an interval of `minutes` minutes (at least one);
/// `None` where the number of seconds does not fit in `u64`.
pub fn cleanup_interval_secs(minutes: u64) -> (secs: Option<u64>)
    ensures
        secs is Some <==> at_least_one(minutes as int) * 60 <= u64::MAX,
        secs matches Some(s) ==> s == at_least_one(minutes as int) * 60,
{
    let m = if minutes < 1 {
        1
    } else {
        minutes
    };
    m.checked_mul(60)
}

/// When cleanup run `run` starts, in seconds after the receiver started: run 0 at once,
/// then one run each interval of `minutes` minutes (at least one).
pub open spec fn run_offset_of(minutes: int, run: nat) -> int {
    run * (at_least_one(minutes) * 60)
}

/// The second, counted from the start of the receiver, at which cleanup run `run` starts
/// (see [`run_offset_of`]); `None` where that number does not fit in `u64`.
pub fn cleanup_run_offset(minutes: u64, run: u64) -> (secs: Option<u64>)
    ensures
        secs is Some <==> run_offset_of(minutes as int, run as nat) <= u64::MAX,
        secs matches Some(s) ==> s == run_offset_of(minutes as int, run as nat),
{
    match cleanup_interval_secs(minutes) {
        Some(period) => run.checked_mul(period),
        None => {
            assert(run >= 1 ==> run * (at_least_one(minutes as int) * 60) > u64::MAX)
                by (nonlinear_arith)
                requires
                    at_least_one(minutes as int) * 60 > u64::MAX,
            ;
            if run == 0 {
                Some(0)
            } else {
                None
            }
        },
    }
}

/// The cutoff for retention `retention_minutes` (at least one) taken at `now`, or `None`
/// where the time arithmetic goes out of range.
pub open spec fn cutoff_of(now: Timestamp, retention_minutes: i64) -> Option<Timestamp> {
    let delta = at_least_one(retention_minutes as int) * 60;
    if delta <= crate::time::MAX_DELTA_SECS && crate::time::MIN_SECS <= now.secs - delta {
        Some(Timestamp { secs: (now.secs - delta) as i64, nanos: now.nanos })
    } else {
        None
    }
}

/// The instant before which data counts as old: `retention_minutes` (at least one) before
/// `now`; `None` where subtracting the minutes goes out of the range of valid instants or of
/// `chrono::TimeDelta`.
pub fn cleanup_cutoff(now: Timestamp, retention_minutes: i64) -> (cutoff: Option<Timestamp>)
    requires
        now.is_valid(),
    ensures
        cutoff is Some <==> (at_least_one(retention_minutes as int) * 60
            <= crate::time::MAX_DELTA_SECS && crate::time::MIN_SECS <= now.secs - at_least_one(
            retention_minutes as int,
        ) * 60),
        cutoff matches Some(c) ==> c.secs == now.secs - at_least_one(retention_minutes as int) * 60
            && c.nanos == now.nanos && c.is_valid(),
        cutoff == cutoff_of(now, retention_minutes),
{
    let m = if retention_minutes < 1 {
        1
    } else {
        retention_minutes
    };
    now.checked_minus_minutes(m)
}

/// The cleanup cutoff for a clock reading: `None` where the reading is no valid instant
/// or the arithmetic goes out of range.
pub open spec fn cutoff_from_clock(
    reading: Result<(u64, u32), (u64, u32)>,
    retention_minutes: i64,
) -> Option<Timestamp> {
    match instant_from_clock(reading) {
        Some(now) => cutoff_of(now, retention_minutes),
        None => None,
    }
}

/// The cleanup cutoff for a clock reading (see [`cutoff_from_clock`]).
pub fn cleanup_cutoff_from_clock(
    reading: Result<(u64, u32), (u64, u32)>,
    retention_minutes: i64,
) -> (cutoff: Option<Timestamp>)
    ensures
        cutoff == cutoff_from_clock(reading, retention_minutes),
        cutoff matches Some(c) ==> c.is_valid(),
{
    match instant_from_clock_reading(reading) {
        Some(now) => cleanup_cutoff(now, retention_minutes),
        None => None,
    }
}

/// The cleanup cutoff for the current time (see [`cleanup_cutoff`]); `None` also where
/// the system clock reads outside the range of valid instants.
pub fn cleanup_cutoff_now(retention_minutes: i64) -> (cutoff: Option<Timestamp>)
    ensures
        exists|reading: Result<(u64, u32), (u64, u32)>|
            cutoff == #[trigger] cutoff_from_clock(reading, retention_minutes),
        cutoff matches Some(c) ==> c.is_valid(),
{
    let reading = read_system_clock();
    cleanup_cutoff_from_clock(reading, retention_minutes)
}

/// A transcript entry is removed when it is a regular file last modified before the
/// cutoff; a file without a known modification time counts as modified at the Unix epoch.
pub open spec fn transcript_is_expired(
    is_file: bool,
    modified: Option<Timestamp>,
    cutoff: Timestamp,
) -> bool {
    is_file && match modified {
        Some(t) => t.is_before(cutoff),
        None => (Timestamp { secs: 0, nanos: 0 }).is_before(cutoff),
    }
}

/// Whether a transcript directory entry is removed (see [`transcript_is_expired`]).
pub fn transcript_expired(is_file: bool, modified: Option<Timestamp>, cutoff: Timestamp) -> (r:
    bool)
    ensures
        r == transcript_is_expired(is_file, modified, cutoff),
{
    if !is_file {
        return false;
    }
    let t = match modified {
        Some(t) => t,
        None => Timestamp::unix_epoch(),
    };
    t.before(&cutoff)
}

/// The cutoff in milliseconds since the Unix epoch, as the MongoDB filter compares it.
pub fn mongodb_cutoff_millis(cutoff: Timestamp) -> (millis: i64)
    requires
        cutoff.is_valid(),
    ensures
        millis == cutoff.millis(),
{
    cutoff.timestamp_millis()
}

/// Law: the cutoff lies at least one minute before the time it is taken from, so data
/// received within the last minute is never old.
pub proof fn law_cutoff_at_least_a_minute_back(now: Timestamp, retention_minutes: i64, c: Timestamp)
    requires
        c.secs == now.secs - at_least_one(retention_minutes as int) * 60,
        c.nanos == now.nanos,
    ensures
        c.secs <= now.secs - 60,
        forall|t: Timestamp| #[trigger] t.is_before(c) ==> t.secs < now.secs - 60 || (t.secs
            == now.secs - 60 && t.nanos < now.nanos),
{
}

/// Law: an entry that is removed is a file older than the cutoff, and every file older
/// than the cutoff is removed.
pub proof fn law_expired_exactly_when_older(t: Timestamp, cutoff: Timestamp)
    ensures
        transcript_is_expired(true, Some(t), cutoff) <==> t.is_before(cutoff),
        !transcript_is_expired(false, Some(t), cutoff),
{
}

/// Law: cleanup runs once when the receiver starts, then once every interval, the
/// interval being the configured minutes (at least one) in seconds, so cleanup never runs
/// more often than once a minute.
pub proof fn law_cleanup_schedule(minutes: u64, run: nat)
    ensures
        run_offset_of(minutes as int, 0) == 0,
        run_offset_of(minutes as int, (run + 1) as nat) == run_offset_of(minutes as int, run)
            + at_least_one(minutes as int) * 60,
        at_least_one(minutes as int) * 60 >= 60,
        run_offset_of(minutes as int, run) < run_offset_of(minutes as int, (run + 1) as nat),
{
    let p = at_least_one(minutes as int) * 60;
    assert((run + 1) * p == run * p + p) by (nonlinear_arith);
}

/// Law: the millisecond form used for MongoDB keeps the order of instants: whatever lies
/// before the cutoff has a millisecond value no greater than the cutoff's.
pub proof fn law_millis_keep_order(a: Timestamp, b: Timestamp)
    requires
        a.is_valid(),
        b.is_valid(),
        a.is_before(b),
    ensures
        a.millis() <= b.millis(),
{
    assert(a.nanos / 1_000_000 <= 999);
    if a.secs == b.secs {
        assert(a.nanos / 1_000_000 <= b.nanos / 1_000_000) by (nonlinear_arith)
            requires
                a.nanos <= b.nanos,
        ;
    }
}

} // verus!
