//! Access to the wall clock.

use vstd::prelude::*;

verus! {

/// Seconds since the Unix epoch, read with `chrono::Utc::now().timestamp()`.
/// The value depends on the time of the call: nothing is stated of it.
#[verifier::external_body]
pub(crate) fn unix_seconds_now() -> (r: i64) {
    chrono::Utc::now().timestamp()
}

/// Milliseconds since the Unix epoch, read with
/// `chrono::Utc::now().timestamp_millis()`.
/// The value depends on the time of the call: nothing is stated of it.
#[verifier::external_body]
pub(crate) fn unix_millis_now() -> (r: i64) {
    chrono::Utc::now().timestamp_millis()
}

} // verus!
