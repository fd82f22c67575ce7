//! The wall clock.

use vstd::prelude::*;

verus! {

/// The current time in milliseconds since the Unix epoch, read with
/// `chrono::Utc::now().timestamp_millis()`. Nothing is promised of the
/// value: it depends on the machine's clock.
#[verifier::external_body]
pub(crate) fn now_millis() -> (t: i64) {
    chrono::Utc::now().timestamp_millis()
}

} // verus!
