//! Reading the wall clock, the one input no contract can pin down.
use core::time::Duration;
use std::time::{SystemTime, SystemTimeError};
use vstd::prelude::*;

verus! {

#[verifier::external_type_specification]
#[verifier::external_body]
pub struct ExSystemTime(SystemTime);

#[verifier::external_type_specification]
#[verifier::external_body]
pub struct ExSystemTimeError(SystemTimeError);

/// `SystemTime::now`: whatever the wall clock reads. Nothing is promised of
/// it.
#[verifier::external_body]
fn system_now() -> SystemTime {
    SystemTime::now()
}

/// `SystemTime::duration_since` against `UNIX_EPOCH`: the time since 1970,
/// or an error when the clock reads earlier. Nothing is promised of which.
#[verifier::external_body]
fn since_unix_epoch(t: &SystemTime) -> Result<Duration, SystemTimeError> {
    t.duration_since(std::time::UNIX_EPOCH)
}

/// `Duration::as_millis`: the whole milliseconds in `d`. Nothing is promised
/// of the number.
#[verifier::external_body]
fn whole_millis(d: &Duration) -> u128 {
    d.as_millis()
}

/// Milliseconds since the Unix epoch by the wall clock. A clock set before
/// 1970 reads as zero, and one past what `u64` holds as `u64::MAX`.
pub(crate) fn now_ms() -> u64 {
    match since_unix_epoch(&system_now()) {
        Ok(d) => {
            let ms = whole_millis(&d);
            if ms <= u64::MAX as u128 {
                ms as u64
            } else {
                u64::MAX
            }
        },
        Err(_) => 0,
    }
}

} // verus!
