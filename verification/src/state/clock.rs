//! Wall-clock access for timestamping task records.

use vstd::prelude::*;

verus! {

/// Relies on chrono::Utc::now and chrono::DateTime::timestamp_millis: the
/// current wall-clock time as milliseconds since the Unix epoch. The value
/// depends on the machine's clock, so nothing is promised about it; every
/// caller must hold for any result.
#[verifier::external_body]
pub(crate) fn now_millis() -> i64 {
    chrono::Utc::now().timestamp_millis()
}

} // verus!
