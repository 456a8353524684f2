//! The time since the Unix epoch.
use vstd::prelude::*;
use core::time::Duration;

verus! {

/// The system clock reads a time before the Unix epoch.
#[derive(Debug, PartialEq, Eq, Structural, Clone, Copy)]
pub struct ClockError;

/// Relies on `std::time::SystemTime::now` and `SystemTime::duration_since`:
/// the time elapsed since the Unix epoch, absent where the clock is set
/// before it. Nothing is promised of the value.
#[verifier::external_body]
fn elapsed_since_epoch() -> (r: Option<Duration>) {
    std::time::SystemTime::now().duration_since(std::time::UNIX_EPOCH).ok()
}

/// The time elapsed since the Unix epoch, or `ClockError` where the system
/// clock reads an earlier time.
pub fn unix_now() -> (r: Result<Duration, ClockError>) {
    match elapsed_since_epoch() {
        Some(d) => Ok(d),
        None => Err(ClockError),
    }
}

} // verus!
