//! Fresh identifiers.
use vstd::prelude::*;

verus! {

/// A fresh, time-ordered identifier (`uuid::Uuid::now_v7`, hyphenated).
/// Trusted; nothing is promised of the value, which depends on the clock
/// and on chance.
#[verifier::external_body]
pub(crate) fn new_id() -> String {
    uuid::Uuid::now_v7().to_string()
}

} // verus!
