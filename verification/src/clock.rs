//! The system clock, read as whole seconds counted from 1970-01-01T00:00:00.

use std::time::{Duration, SystemTime, SystemTimeError, UNIX_EPOCH};
use vstd::prelude::*;

verus! {

/// A reading of the system clock (`std::time::SystemTime`), carried as an
/// opaque value.
#[verifier::external_type_specification]
#[verifier::external_body]
pub struct ExSystemTime(SystemTime);

/// The error of a clock reading that lies before the moment it is measured
/// from (`std::time::SystemTimeError`), carried as an opaque value.
#[verifier::external_type_specification]
#[verifier::external_body]
pub struct ExSystemTimeError(SystemTimeError);

/// `SystemTime::now` reads the system clock. The reading depends on when it
/// is made, so nothing is claimed of it.
pub assume_specification[ SystemTime::now ]() -> SystemTime
;

/// `Duration::as_secs` gives the whole seconds of a length of time. Of an
/// opaque length nothing more is claimed.
pub assume_specification[ Duration::as_secs ](d: &Duration) -> u64
;

/// `SystemTime::duration_since`, measured from `UNIX_EPOCH`: the time from
/// 1970-01-01T00:00:00 to the reading, or an error where the reading lies
/// before it. Nothing is claimed of which it is.
#[verifier::external_body]
fn since_epoch(reading: &SystemTime) -> Result<Duration, SystemTimeError> {
    reading.duration_since(UNIX_EPOCH)
}

/// Reads the system clock: the whole seconds since 1970-01-01T00:00:00, or
/// `None` where the clock stands before that moment.
pub fn read_clock() -> Option<u64> {
    let reading = SystemTime::now();
    match since_epoch(&reading) {
        Ok(elapsed) => Some(elapsed.as_secs()),
        Err(_) => None,
    }
}

} // verus!
