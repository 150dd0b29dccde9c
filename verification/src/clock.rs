//! Wall-clock time as whole seconds since the Unix epoch.

use crate::bits::{signed, to_signed};
use std::time::{Duration, SystemTime, SystemTimeError, UNIX_EPOCH};
use vstd::prelude::*;

verus! {

/// `std::time::SystemTime`, carried through as an opaque value.
#[verifier::external_type_specification]
#[verifier::external_body]
pub struct ExSystemTime(SystemTime);

/// `std::time::SystemTimeError`, carried through as an opaque value.
#[verifier::external_type_specification]
#[verifier::external_body]
pub struct ExSystemTimeError(SystemTimeError);

/// `SystemTime::now`: the reading of the system clock. Nothing is claimed of
/// it: two readings may differ in either direction.
pub assume_specification[ SystemTime::now ]() -> (t: SystemTime);

/// `SystemTime::duration_since` against `UNIX_EPOCH`: the time elapsed since
/// the epoch, or the error std reports for a clock set before it. Nothing is
/// claimed of either.
#[verifier::external_body]
fn since_epoch(t: &SystemTime) -> (elapsed: Result<Duration, SystemTimeError>) {
    t.duration_since(UNIX_EPOCH)
}

/// `Duration::as_secs`: the whole seconds of a duration. Nothing is claimed
/// of the number.
pub assume_specification[ Duration::as_secs ](d: &Duration) -> (secs: u64);

/// Converts an unsigned count of seconds to the signed timestamp the
/// scheduler works with. A count too large for it keeps its bits.
pub fn to_timestamp(secs: u64) -> (t: i64)
    ensures
        t == signed(secs),
{
    to_signed(secs)
}

/// The current time in seconds since the Unix epoch, or `None` when the
/// system clock reads earlier than the epoch.
pub fn current_seconds() -> (now: Option<i64>) {
    let reading = SystemTime::now();
    match since_epoch(&reading) {
        Ok(elapsed) => Some(to_timestamp(elapsed.as_secs())),
        Err(_) => None,
    }
}

} // verus!
