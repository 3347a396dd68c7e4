//! Trusted boundary around the wall clock.

use vstd::prelude::*;

verus! {

/// Relies on `std::time::SystemTime::now`: the current wall-clock time,
/// converted to milliseconds since the Unix epoch.  A reading before the
/// epoch is reported as 0, so the call never panics.  Nothing is promised of
/// the value; all reasoning downstream holds for every reading.
#[verifier::external_body]
pub(crate) fn now_timestamp_millis() -> i64 {
    std::time::SystemTime::now()
        .duration_since(std::time::UNIX_EPOCH)
        .map(|d| d.as_millis() as i64)
        .unwrap_or(0)
}

} // verus!
