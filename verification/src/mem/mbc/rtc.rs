//! The calendar clock that the MBC3 real time clock latches from.
use chrono::{DateTime, Datelike, Timelike, Utc};
use std::time::{Duration, SystemTime, UNIX_EPOCH};
use vstd::prelude::*;

verus! {

/// A calendar time in UTC, as chrono represents it; read through the accessors below.
#[verifier::external_body]
pub struct UtcDateTime {
    inner: DateTime<Utc>,
}

#[verifier::external_type_specification]
#[verifier::external_body]
pub struct ExSystemTime(std::time::SystemTime);

/// Calls `std::time::SystemTime::now`: the system clock's current time, of which
/// nothing is stated.
#[verifier::external_body]
fn system_time_now() -> SystemTime {
    SystemTime::now()
}

/// Calls `std::time::SystemTime::duration_since` with the Unix epoch: `None` when
/// `t` lies before it. Which duration comes back is not stated (it reads the clock
/// value held opaquely in `t`).
#[verifier::external_body]
fn since_unix_epoch(t: &SystemTime) -> Option<Duration> {
    match t.duration_since(UNIX_EPOCH) {
        Ok(d) => Some(d),
        Err(_) => None,
    }
}

/// Calls `std::time::Duration::as_secs`, the whole seconds of `d`; not stated, as
/// the duration is held opaquely.
#[verifier::external_body]
fn duration_secs(d: &Duration) -> u64 {
    d.as_secs()
}

/// Calls `std::time::Duration::subsec_nanos`, which std documents to be below one
/// billion.
#[verifier::external_body]
fn duration_subsec_nanos(d: &Duration) -> (res: u32)
    ensures
        res < 1_000_000_000,
{
    d.subsec_nanos()
}

/// Calls `chrono::DateTime::<Utc>::from_timestamp`, which gives `None` for a number
/// of seconds outside the dates chrono represents or an invalid nanosecond part;
/// nothing more is stated of which inputs succeed.
#[verifier::external_body]
fn utc_from_timestamp(secs: i64, nanos: u32) -> Option<UtcDateTime> {
    match DateTime::<Utc>::from_timestamp(secs, nanos) {
        Some(inner) => Some(UtcDateTime { inner }),
        None => None,
    }
}

/// The current time in UTC, as `chrono::Utc::now` computes it, or `None` when the
/// system clock reads before 1970 or past the last date chrono represents.
pub(crate) fn utc_now() -> Option<UtcDateTime> {
    let now = system_time_now();
    match since_unix_epoch(&now) {
        Some(d) => {
            let secs = duration_secs(&d);
            let nanos = duration_subsec_nanos(&d);
            if secs <= i64::MAX as u64 {
                utc_from_timestamp(secs as i64, nanos)
            } else {
                None
            }
        },
        None => None,
    }
}

/// Calls `chrono::Timelike::second`, which chrono documents to lie in 0 to 59.
#[verifier::external_body]
pub(crate) fn datetime_second(dt: &UtcDateTime) -> (res: u32)
    ensures
        res < 60,
{
    dt.inner.second()
}

/// Calls `chrono::Timelike::minute`, which chrono documents to lie in 0 to 59.
#[verifier::external_body]
pub(crate) fn datetime_minute(dt: &UtcDateTime) -> (res: u32)
    ensures
        res < 60,
{
    dt.inner.minute()
}

/// Calls `chrono::Timelike::hour`, which chrono documents to lie in 0 to 23.
#[verifier::external_body]
pub(crate) fn datetime_hour(dt: &UtcDateTime) -> (res: u32)
    ensures
        res < 24,
{
    dt.inner.hour()
}

/// Calls `chrono::Datelike::day`, the day of month, which chrono documents to lie in 1 to 31.
#[verifier::external_body]
pub(crate) fn datetime_day(dt: &UtcDateTime) -> (res: u32)
    ensures
        1 <= res <= 31,
{
    dt.inner.day()
}

} // verus!
