//! The current time, from the `time` crate.
use vstd::prelude::*;

verus! {

/// Relies on `time::OffsetDateTime::now_utc` and `unix_timestamp_nanos`: the
/// current time in nanoseconds since the Unix epoch. It depends on the
/// machine's clock, so nothing is promised of its value.
#[verifier::external_body]
pub(crate) fn now_nanos() -> (r: i128) {
    time::OffsetDateTime::now_utc().unix_timestamp_nanos()
}

} // verus!
