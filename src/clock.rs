//! The system clock, which seeds the placement of new cells.
use vstd::prelude::*;

use core::time::Duration;
use std::time::SystemTime;
use std::time::SystemTimeError;

verus! {

#[verifier::external_type_specification]
#[verifier::external_body]
pub struct ExSystemTime(SystemTime);

#[verifier::external_type_specification]
#[verifier::external_body]
pub struct ExSystemTimeError(SystemTimeError);

/// Relies on `SystemTime::now`, which reads the system clock; nothing is
/// known of the time it returns.
pub assume_specification[ SystemTime::now ]() -> SystemTime;

/// Relies on `SystemTime::duration_since`, which measures the time since
/// `earlier` and fails where the clock reads earlier than that.
pub assume_specification[ SystemTime::duration_since ](
    this: &SystemTime,
    earlier: SystemTime,
) -> Result<Duration, SystemTimeError>;

/// Relies on `Duration::as_nanos`: the whole nanoseconds of a duration.
pub assume_specification[ Duration::as_nanos ](this: &Duration) -> u128;

/// Relies on `Duration::as_millis`: the whole milliseconds of a duration.
pub assume_specification[ Duration::as_millis ](this: &Duration) -> u128;

/// Relies on `std::time::UNIX_EPOCH`, the instant that clock readings are
/// measured from.
#[verifier::external_body]
pub(crate) fn unix_epoch() -> SystemTime {
    std::time::UNIX_EPOCH
}

} // verus!
