//! Instants in UTC, as the receiver stamps and compares them.
//!
//! An instant is a count of seconds since 1970-01-01T00:00:00Z and a count of
//! nanoseconds within that second, the representation `chrono::DateTime<Utc>` exposes
//! through `timestamp()` and `timestamp_subsec_nanos()`.
use vstd::prelude::*;

verus! {

/// The first second that `chrono::DateTime<Utc>` can represent (-262143-01-01T00:00:00Z).
pub const MIN_SECS: i64 = -8_334_601_228_800i64;

/// The last second that `chrono::DateTime<Utc>` can represent (+262142-12-31T23:59:59Z).
pub const MAX_SECS: i64 = 8_210_266_876_799i64;

/// Nanoseconds in one second.
pub const NANOS_PER_SEC: u32 = 1_000_000_000u32;

/// The largest whole number of seconds a `chrono::TimeDelta` can hold (`i64::MAX` milliseconds).
pub const MAX_DELTA_SECS: i64 = 9_223_372_036_854_775i64;

/// An instant in UTC.
#[derive(Clone, Copy, Debug, PartialEq, Eq, Structural)]
pub struct Timestamp {
    /// Whole seconds since the Unix epoch (negative before it).
    pub secs: i64,
    /// Nanoseconds within the second.
    pub nanos: u32,
}

/// The text that `chrono::DateTime<Utc>::to_rfc3339` produces for the instant
/// `secs` seconds and `nanos` nanoseconds after the Unix epoch.
pub uninterp spec fn rfc3339_of(secs: i64, nanos: u32) -> Seq<char>;

impl Timestamp {
    /// A non-leap instant within the range of `chrono::DateTime<Utc>`.
    pub open spec fn is_valid(self) -> bool {
        MIN_SECS <= self.secs <= MAX_SECS && self.nanos < NANOS_PER_SEC
    }

    /// `self` lies strictly before `other` (the order of `DateTime<Utc>`).
    pub open spec fn is_before(self, other: Timestamp) -> bool {
        self.secs < other.secs || (self.secs == other.secs && self.nanos < other.nanos)
    }

    /// Milliseconds since the Unix epoch, rounded towards the past
    /// (`DateTime::timestamp_millis`).
    pub open spec fn millis(self) -> int {
        self.secs * 1000 + self.nanos / 1_000_000
    }

    /// The instant `1970-01-01T00:00:00Z`.
    pub fn unix_epoch() -> (t: Timestamp)
        ensures
            t.secs == 0 && t.nanos == 0,
            t.is_valid(),
    {
        Timestamp { secs: 0, nanos: 0 }
    }

    /// An instant from its parts, when they form a valid instant.
    pub fn from_parts(secs: i64, nanos: u32) -> (t: Option<Timestamp>)
        ensures
            t is Some <==> (Timestamp { secs, nanos }).is_valid(),
            t matches Some(v) ==> v.secs == secs && v.nanos == nanos,
    {
        if MIN_SECS <= secs && secs <= MAX_SECS && nanos < NANOS_PER_SEC {
            Some(Timestamp { secs, nanos })
        } else {
            None
        }
    }

    /// Whether `self` lies strictly before `other`.
    pub fn before(&self, other: &Timestamp) -> (r: bool)
        ensures
            r == self.is_before(*other),
    {
        self.secs < other.secs || (self.secs == other.secs && self.nanos < other.nanos)
    }

    /// Milliseconds since the Unix epoch (see [`Timestamp::millis`]).
    pub fn timestamp_millis(&self) -> (m: i64)
        requires
            self.is_valid(),
        ensures
            m == self.millis(),
    {
        self.secs * 1000 + (self.nanos / 1_000_000) as i64
    }

    /// The instant `minutes` minutes before `self`, as `self - TimeDelta::minutes(minutes)`
    /// computes it; `None` where that expression panics (the delta or the result out of
    /// range).
    pub fn checked_minus_minutes(&self, minutes: i64) -> (r: Option<Timestamp>)
        requires
            self.is_valid(),
        ensures
            r is Some <==> (-MAX_DELTA_SECS <= minutes * 60 <= MAX_DELTA_SECS && MIN_SECS
                <= self.secs - minutes * 60 <= MAX_SECS),
            r matches Some(t) ==> t.secs == self.secs - minutes * 60 && t.nanos == self.nanos
                && t.is_valid(),
    {
        if minutes < -MAX_DELTA_SECS / 60 || minutes > MAX_DELTA_SECS / 60 {
            return None;
        }
        let delta = minutes * 60;
        if delta > 0 && self.secs < MIN_SECS + delta {
            return None;
        }
        if delta < 0 && self.secs > MAX_SECS + delta {
            return None;
        }
        Some(Timestamp { secs: self.secs - delta, nanos: self.nanos })
    }
}

#[verifier::external_type_specification]
#[verifier::external_body]
pub struct ExSystemTime(std::time::SystemTime);

/// The time the system clock reads, from `SystemTime::now`. It depends on the machine, so
/// nothing is claimed of it.
#[verifier::external_body]
fn system_time_now() -> std::time::SystemTime {
    std::time::SystemTime::now()
}

/// How far `t` lies from the Unix epoch, from `SystemTime::duration_since(UNIX_EPOCH)`:
/// `Ok` with the distance when `t` is at or after the epoch, `Err` with the distance that
/// the error carries (`SystemTimeError::duration`) when it is before. Nothing is claimed of
/// the distance: it depends on `t`, which is opaque here.
#[verifier::external_body]
fn since_unix_epoch(t: &std::time::SystemTime) -> Result<std::time::Duration, std::time::Duration> {
    match t.duration_since(std::time::UNIX_EPOCH) {
        Ok(elapsed) => Ok(elapsed),
        Err(error) => Err(error.duration()),
    }
}

/// The whole seconds of a duration, from `Duration::as_secs`.
#[verifier::external_body]
fn duration_secs(d: &std::time::Duration) -> u64 {
    d.as_secs()
}

/// The nanoseconds of a duration beyond its whole seconds, from `Duration::subsec_nanos`,
/// which std documents as always less than one billion.
#[verifier::external_body]
fn duration_subsec_nanos(d: &std::time::Duration) -> (nanos: u32)
    ensures
        nanos < NANOS_PER_SEC,
{
    d.subsec_nanos()
}

/// How far the system clock reads from the Unix epoch: `Ok((secs, nanos))` when it reads at
/// or after the epoch, `Err((secs, nanos))` with the distance when it reads before it.
pub(crate) fn read_system_clock() -> (reading: Result<(u64, u32), (u64, u32)>)
    ensures
        match reading {
            Ok((_, nanos)) => nanos < NANOS_PER_SEC,
            Err((_, nanos)) => nanos < NANOS_PER_SEC,
        },
{
    let now = system_time_now();
    match since_unix_epoch(&now) {
        Ok(d) => Ok((duration_secs(&d), duration_subsec_nanos(&d))),
        Err(d) => Err((duration_secs(&d), duration_subsec_nanos(&d))),
    }
}

/// The instant a clock reading stands for, as `DateTime<Utc>::from(SystemTime)` counts it:
/// a reading `secs` and `nanos` before the epoch is the instant `-secs` seconds, or
/// `-secs - 1` seconds and `1_000_000_000 - nanos` nanoseconds when `nanos` is not zero.
/// `None` where that instant is not a valid one.
pub open spec fn instant_from_clock(reading: Result<(u64, u32), (u64, u32)>) -> Option<Timestamp> {
    let (secs, nanos) = match reading {
        Ok((s, n)) => (s as int, n as int),
        Err((s, n)) => if n == 0 {
            (-s, 0int)
        } else {
            (-s - 1, 1_000_000_000 - n)
        },
    };
    if MIN_SECS <= secs <= MAX_SECS && 0 <= nanos < NANOS_PER_SEC {
        Some(Timestamp { secs: secs as i64, nanos: nanos as u32 })
    } else {
        None
    }
}

/// The instant a clock reading stands for (see [`instant_from_clock`]).
pub fn instant_from_clock_reading(reading: Result<(u64, u32), (u64, u32)>) -> (t: Option<
    Timestamp,
>)
    ensures
        t == instant_from_clock(reading),
        t matches Some(v) ==> v.is_valid(),
{
    match reading {
        Ok((secs, nanos)) => {
            if secs <= MAX_SECS as u64 && nanos < NANOS_PER_SEC {
                Some(Timestamp { secs: secs as i64, nanos })
            } else {
                None
            }
        },
        Err((secs, nanos)) => {
            if nanos == 0 {
                if secs <= (-MIN_SECS) as u64 {
                    Some(Timestamp { secs: -(secs as i64), nanos: 0 })
                } else {
                    None
                }
            } else if nanos <= NANOS_PER_SEC && secs < (-MIN_SECS) as u64 {
                Some(Timestamp { secs: -(secs as i64) - 1, nanos: NANOS_PER_SEC - nanos })
            } else {
                None
            }
        },
    }
}

/// The current instant, or `None` where the system clock reads outside the range of valid
/// instants.
pub(crate) fn clock_now() -> (t: Option<Timestamp>)
    ensures
        t matches Some(v) ==> v.is_valid(),
{
    let reading = read_system_clock();
    instant_from_clock_reading(reading)
}

/// The RFC 3339 text of an instant, from `chrono::DateTime<Utc>::to_rfc3339`.
///
/// The instant is rebuilt with `DateTime::from_timestamp`, which accepts every valid
/// instant; the text is named [`rfc3339_of`] and depends on the instant alone.
#[verifier::external_body]
pub(crate) fn rfc3339_text(t: Timestamp) -> (s: String)
    requires
        t.is_valid(),
    ensures
        s@ == rfc3339_of(t.secs, t.nanos),
{
    chrono::DateTime::<chrono::Utc>::from_timestamp(t.secs, t.nanos).unwrap_or_default().to_rfc3339()
}

/// The instant that `chrono::DateTime::parse_from_rfc3339` reads from `text`, as seconds
/// and nanoseconds since the Unix epoch in UTC, or `None` where it refuses the text.
pub uninterp spec fn rfc3339_parse_of(text: Seq<char>) -> Option<(i64, u32)>;

/// Reads an RFC 3339 date and time with `chrono::DateTime::parse_from_rfc3339`; the instant
/// is returned as `DateTime::timestamp` and `DateTime::timestamp_subsec_nanos` give it.
///
/// The result is named [`rfc3339_parse_of`] and depends on the text alone.
#[verifier::external_body]
pub(crate) fn parse_rfc3339(text: &str) -> (r: Option<(i64, u32)>)
    ensures
        r == rfc3339_parse_of(text@),
{
    match chrono::DateTime::parse_from_rfc3339(text) {
        Ok(instant) => Some((instant.timestamp(), instant.timestamp_subsec_nanos())),
        Err(_) => None,
    }
}

} // verus!
