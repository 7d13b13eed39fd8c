//! The system clock, as far as the library reads it.
//!
//! Nothing in this file is proved. Each function makes one call into
//! `std::time`, and what it returns depends on the machine's clock, so
//! none of them promises anything about its result.

use std::time::Duration;
use std::time::SystemTime;
use std::time::SystemTimeError;
use std::time::UNIX_EPOCH;
use vstd::prelude::*;

verus! {

/// Makes `std::time::SystemTime` known as an opaque type: a reading
/// of the clock that is only handed on.
#[verifier::external_type_specification]
#[verifier::external_body]
pub struct ExSystemTime(SystemTime);

/// Makes `std::time::SystemTimeError` known as an opaque type: the
/// error of a reading that lies before the instant it is measured from.
#[verifier::external_type_specification]
#[verifier::external_body]
pub struct ExSystemTimeError(SystemTimeError);

/// Calls `SystemTime::now`: the current reading of the system clock.
#[verifier::external_body]
pub(crate) fn now() -> SystemTime {
    SystemTime::now()
}

/// Calls `SystemTime::duration_since` with `UNIX_EPOCH`: the time from
/// the epoch to `instant`, or an error when `instant` lies before the
/// epoch.
#[verifier::external_body]
pub(crate) fn since_unix_epoch(instant: &SystemTime) -> Result<Duration, SystemTimeError> {
    instant.duration_since(UNIX_EPOCH)
}

/// Calls `Duration::as_secs`: the whole seconds that `elapsed` holds.
#[verifier::external_body]
pub(crate) fn whole_seconds(elapsed: &Duration) -> u64 {
    elapsed.as_secs()
}

} // verus!
