//! The wall clock.

use crate::pipeline_types::Timestamp;
use vstd::prelude::*;

verus! {

/// The time now: `chrono::Utc::now`.
///
/// The nanoseconds stay below two seconds (a leap second has twice as many).
/// Nothing else is claimed of the result: it depends on when the call is made.
#[verifier::external_body]
pub(crate) fn now() -> (r: Timestamp)
    ensures
        r.nanos < 2_000_000_000,
{
    let time = chrono::Utc::now();
    Timestamp { seconds: time.timestamp(), nanos: time.timestamp_subsec_nanos() }
}

/// The time now as an RFC 3339 text: `chrono::Utc::now` and
/// `chrono::DateTime::to_rfc3339`.
///
/// Nothing is claimed of the result: it depends on when the call is made.
#[verifier::external_body]
pub(crate) fn now_rfc3339() -> (r: String) {
    chrono::Utc::now().to_rfc3339()
}

} // verus!
