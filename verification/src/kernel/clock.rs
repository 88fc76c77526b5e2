//! The wall clock, read in whole milliseconds since the Unix epoch.

use std::time::{Duration, SystemTime, SystemTimeError, UNIX_EPOCH};
use vstd::prelude::*;

verus! {

/// `std::time::SystemTime`: a reading of the system clock. A value is only
/// handed on; nothing is known of what it holds.
#[verifier::external_type_specification]
#[verifier::external_body]
pub struct ExSystemTime(SystemTime);

/// `std::time::SystemTimeError`: the error of a clock reading that stands
/// before the moment it is measured from. A value is only told apart from
/// success; nothing is known of what it holds.
#[verifier::external_type_specification]
#[verifier::external_body]
pub struct ExSystemTimeError(SystemTimeError);

/// `SystemTime::now`: the current reading of the system clock. Nothing is
/// claimed of the value.
pub assume_specification[ SystemTime::now ]() -> (now: SystemTime);

/// `SystemTime::duration_since`, asked for the time elapsed since
/// `std::time::UNIX_EPOCH`: an error when `time` stands before the epoch.
/// Nothing is claimed of the value.
#[verifier::external_body]
fn since_unix_epoch(time: &SystemTime) -> (elapsed: Result<Duration, SystemTimeError>) {
    time.duration_since(UNIX_EPOCH)
}

/// `Duration::as_millis`: the whole milliseconds that the duration holds.
/// Nothing is claimed of the value.
pub assume_specification[ Duration::as_millis ](duration: &Duration) -> (millis: u128);

/// Reads the clock: the milliseconds elapsed since the Unix epoch, or `None`
/// when the clock stands before the epoch or further from it than 64 bits
/// count.
pub fn now_millis() -> (reading: Option<u64>) {
    let now = SystemTime::now();
    match since_unix_epoch(&now) {
        Ok(elapsed) => {
            let millis: u128 = elapsed.as_millis();
            if millis <= u64::MAX as u128 {
                Some(millis as u64)
            } else {
                None
            }
        },
        Err(_) => None,
    }
}

/// The clock's reading, or 0 when the clock cannot be read.
pub fn now_or_zero() -> (now: u64) {
    match now_millis() {
        Some(millis) => millis,
        None => 0,
    }
}

} // verus!
