//! The wall clock.
use vstd::prelude::*;

verus! {

/// Relies on chrono::Utc::now and DateTime::timestamp_millis: the wall-clock
/// time in milliseconds since the Unix epoch. Nothing is promised about it.
#[verifier::external_body]
pub(crate) fn utc_now_ms() -> (r: i64) {
    chrono::Utc::now().timestamp_millis()
}

} // verus!
