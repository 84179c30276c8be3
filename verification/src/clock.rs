//! The system clock.

use vstd::prelude::*;

verus! {

/// Milliseconds since the Unix epoch, from the system clock
/// (`SystemTime::now().duration_since(UNIX_EPOCH)`); `None` where the clock
/// reads a time before the epoch. Nothing is promised of the value.
#[verifier::external_body]
pub(crate) fn now_millis() -> (r: Option<i64>) {
    match std::time::SystemTime::now().duration_since(std::time::UNIX_EPOCH) {
        Ok(d) => Some(d.as_millis() as i64),
        Err(_) => None,
    }
}

/// The current time in milliseconds since the epoch, the epoch itself where
/// the clock reads an earlier time.
pub(crate) fn current_millis() -> (r: i64) {
    match now_millis() {
        Some(t) => t,
        None => 0,
    }
}

} // verus!
