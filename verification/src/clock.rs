//! The clock that the library reads.
//!
//! What a clock says is not known before it is read, and two readings may
//! differ. So nothing is stated of a reading; every operation that depends
//! on the time is stated for every time, in a function that takes the time
//! as an argument. What is made of a reading depends on it alone.

use std::time::{Duration, SystemTime, UNIX_EPOCH};
use vstd::prelude::*;

verus! {

/// `std::time::SystemTime`, a reading of the system clock, carried through
/// as it is.
#[verifier::external_type_specification]
#[verifier::external_body]
pub struct ExSystemTime(std::time::SystemTime);

/// Reads the system clock with `std::time::SystemTime::now`. Nothing is
/// claimed of the reading.
#[verifier::external_body]
fn system_now() -> SystemTime {
    SystemTime::now()
}

/// The time from the UNIX epoch to a reading, if that is not before it.
pub uninterp spec fn epoch_offset(time: SystemTime) -> Option<Duration>;

/// The whole seconds of a duration.
pub uninterp spec fn duration_seconds(duration: Duration) -> u64;

/// The UNIX second of a reading of the system clock: the whole seconds from
/// the epoch to it, and zero for a reading before the epoch.
pub open spec fn epoch_seconds(time: SystemTime) -> u64 {
    match epoch_offset(time) {
        Some(duration) => duration_seconds(duration),
        None => 0,
    }
}

/// The current UNIX second; zero if the clock stands before the epoch.
pub(crate) fn unix_now() -> (r: u64)
    ensures
        exists|time: SystemTime| r == epoch_seconds(time),
{
    let time = system_now();
    seconds_of(&time)
}

/// The current UNIX second as a signed number, as log entries and the
/// server's start carry it; the largest such number if the second does not
/// fit.
pub(crate) fn local_now() -> (r: i64)
    ensures
        exists|time: SystemTime| r == signed_seconds(epoch_seconds(time)),
{
    let seconds = unix_now();
    if seconds > i64::MAX as u64 {
        i64::MAX
    } else {
        seconds as i64
    }
}

/// The time from the UNIX epoch to `time`, as `SystemTime::duration_since`
/// gives it, if `time` does not lie before the epoch. Nothing is claimed of
/// the result but that it depends on `time` alone: it is the named value
/// `epoch_offset` of `time`.
#[verifier::external_body]
fn since_epoch(time: &SystemTime) -> (r: Option<Duration>)
    ensures
        r == epoch_offset(*time),
{
    time.duration_since(UNIX_EPOCH).ok()
}

/// The whole seconds of a duration, as `Duration::as_secs` gives them.
/// Nothing is claimed of the result but that it depends on the duration
/// alone: it is the named value `duration_seconds` of the duration.
#[verifier::external_body]
fn whole_seconds(duration: &Duration) -> (r: u64)
    ensures
        r == duration_seconds(*duration),
{
    duration.as_secs()
}

/// A count of seconds as a signed number: itself, or the largest signed
/// number where it does not fit.
pub open spec fn signed_seconds(seconds: u64) -> i64 {
    if seconds > i64::MAX {
        i64::MAX
    } else {
        seconds as i64
    }
}

/// The UNIX second of a reading of the system clock.
pub(crate) fn seconds_of(time: &SystemTime) -> (r: u64)
    ensures
        r == epoch_seconds(*time),
{
    match since_epoch(time) {
        Some(duration) => whole_seconds(&duration),
        None => 0,
    }
}

} // verus!
