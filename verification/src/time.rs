//! Points in time. A `Timestamp` holds what the vault records of a UTC
//! date-time: whole seconds since the Unix epoch and the nanoseconds within
//! that second.
use vstd::prelude::*;
use chrono::{DateTime, Utc};
use std::time::{Duration, SystemTime, UNIX_EPOCH};
use crate::error::{clock_error, clock_error_text, CypheriaError};

verus! {

/// The earliest second that a UTC date-time can hold (-262143-01-01T00:00:00Z).
pub const MIN_TIMESTAMP_SECS: i64 = -8334601228800;

/// The latest second that a UTC date-time can hold (+262142-12-31T23:59:59Z).
pub const MAX_TIMESTAMP_SECS: i64 = 8210266876799;

pub const NANOS_PER_SEC: u32 = 1_000_000_000;

pub const NANOS_PER_DAY: i128 = 86_400_000_000_000;

#[derive(Debug, Clone, Copy, PartialEq, Eq, Structural)]
pub struct Timestamp {
    pub secs: i64,
    pub nanos: u32,
}

impl Timestamp {
    /// A date-time that UTC can represent, with no leap second.
    pub open spec fn valid(self) -> bool {
        &&& self.nanos < NANOS_PER_SEC
        &&& MIN_TIMESTAMP_SECS <= self.secs <= MAX_TIMESTAMP_SECS
    }

    /// Whether this is a date-time that UTC can represent.
    pub fn is_valid(&self) -> (r: bool)
        ensures
            r == self.valid(),
    {
        self.nanos < NANOS_PER_SEC && MIN_TIMESTAMP_SECS <= self.secs && self.secs <= MAX_TIMESTAMP_SECS
    }

    /// Nanoseconds since the Unix epoch.
    pub open spec fn total_nanos(self) -> int {
        self.secs * 1_000_000_000 + self.nanos
    }
}

/// The RFC 3339 text of a UTC date-time (with `+00:00` and as many
/// sub-second digits as needed), as `DateTime::to_rfc3339` writes it.
pub uninterp spec fn rfc3339(secs: i64, nanos: u32) -> Seq<char>;

/// Calls `DateTime::<Utc>::from_timestamp` and reads back the seconds and
/// sub-second nanoseconds. The chrono source returns nothing for a time out
/// of its range, and otherwise the date-time of exactly those seconds and
/// nanoseconds; every valid timestamp is in range.
#[verifier::external_body]
fn utc_from_timestamp(secs: i64, nanos: u32) -> (r: Option<Timestamp>)
    ensures
        r matches Some(t) ==> t.secs == secs && t.nanos == nanos,
        (Timestamp { secs, nanos }).valid() ==> r is Some,
{
    match DateTime::<Utc>::from_timestamp(secs, nanos) {
        Some(d) => Some(Timestamp { secs: d.timestamp(), nanos: d.timestamp_subsec_nanos() }),
        None => None,
    }
}

/// The current UTC date-time by the system clock, as `Utc::now` builds it
/// (`SystemTime::now`, its distance from the Unix epoch, then
/// `DateTime::from_timestamp`). Where `Utc::now` would panic, because the
/// clock reads a time before 1970, this returns the clock error.
pub(crate) fn utc_now() -> (r: Result<Timestamp, CypheriaError>)
    ensures
        r matches Ok(t) ==> t.valid(),
        r matches Err(e) ==> e matches CypheriaError::InternalError(s) && s@ == clock_error_text(),
{
    match since_unix_epoch(&system_time_now()) {
        Some(d) => {
            let secs = whole_seconds(&d);
            let nanos = subsec_nanos(&d);
            if secs > MAX_TIMESTAMP_SECS as u64 {
                return Err(clock_error());
            }
            match utc_from_timestamp(secs as i64, nanos) {
                Some(t) => Ok(t),
                None => Err(clock_error()),
            }
        },
        None => Err(clock_error()),
    }
}

/// Calls `DateTime::from_timestamp` and `DateTime::to_rfc3339`. For a valid
/// timestamp `from_timestamp` always succeeds (the chrono source), so the
/// empty string of the other arm is never produced.
#[verifier::external_body]
pub(crate) fn to_rfc3339(t: Timestamp) -> (r: String)
    requires
        t.valid(),
    ensures
        r@ == rfc3339(t.secs, t.nanos),
{
    match DateTime::<Utc>::from_timestamp(t.secs, t.nanos) {
        Some(d) => d.to_rfc3339(),
        None => String::new(),
    }
}

/// Whole days from `then` to `now`, zero when `now` is not later.
pub open spec fn days_between(now: Timestamp, then: Timestamp) -> int {
    let d = now.total_nanos() - then.total_nanos();
    if d <= 0 {
        0
    } else {
        d / (NANOS_PER_DAY as int)
    }
}

/// Whole days elapsed from `then` to `now` (0 if `now` is earlier).
pub fn days_since(now: Timestamp, then: Timestamp) -> (r: u64)
    requires
        now.valid(),
        then.valid(),
    ensures
        r as int == days_between(now, then),
{
    let d: i128 = (now.secs as i128 - then.secs as i128) * 1_000_000_000i128 + (now.nanos as i128
        - then.nanos as i128);
    if d <= 0 {
        0
    } else {
        assert(d <= 20_000_000_000_000_000_000_000i128);
        assert(d / NANOS_PER_DAY <= 1_000_000_000) by (nonlinear_arith)
            requires
                d <= 20_000_000_000_000_000_000_000i128,
                0 < d,
        ;
        (d / NANOS_PER_DAY) as u64
    }
}

#[verifier::external_type_specification]
#[verifier::external_body]
pub struct ExSystemTime(SystemTime);

/// Calls `SystemTime::now`. The clock's value is not stated.
#[verifier::external_body]
fn system_time_now() -> SystemTime {
    SystemTime::now()
}

/// Calls `SystemTime::duration_since(UNIX_EPOCH)`: nothing when the time is
/// before the epoch.
#[verifier::external_body]
fn since_unix_epoch(t: &SystemTime) -> Option<Duration> {
    t.duration_since(UNIX_EPOCH).ok()
}

/// Calls `Duration::subsec_nanos`, which the std documentation says is
/// always less than one billion.
#[verifier::external_body]
fn subsec_nanos(d: &Duration) -> (r: u32)
    ensures
        r < NANOS_PER_SEC,
{
    d.subsec_nanos()
}

/// Calls `Duration::as_secs`.
#[verifier::external_body]
fn whole_seconds(d: &Duration) -> u64 {
    d.as_secs()
}

/// Seconds since the Unix epoch by the system clock (0 if the clock is set
/// before the epoch).
pub fn system_unix_secs() -> u64 {
    match since_unix_epoch(&system_time_now()) {
        Some(d) => whole_seconds(&d),
        None => 0,
    }
}

} // verus!
