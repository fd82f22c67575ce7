//! Fresh identifiers.

use vstd::prelude::*;

verus! {

/// A fresh random identifier: `uuid::Uuid::new_v4().to_string()`.
/// Nothing is promised of the text: it is random.
#[verifier::external_body]
pub(crate) fn random_id() -> (id: String) {
    uuid::Uuid::new_v4().to_string()
}

/// A fresh time-ordered identifier: `uuid::Uuid::now_v7().to_string()`.
/// Nothing is promised of the text: it depends on the clock and on chance.
#[verifier::external_body]
pub(crate) fn time_ordered_id() -> (id: String) {
    uuid::Uuid::now_v7().to_string()
}

} // verus!
