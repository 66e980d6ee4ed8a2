//! The generation time stamped into patch headers.

use vstd::prelude::*;

verus! {

/// Relies on `chrono::Utc::now` and its `Display` impl: the current UTC time
/// as text. Nothing is promised of the value, which depends on the clock.
#[verifier::external_body]
pub(crate) fn utc_now_text() -> String {
    chrono::Utc::now().to_string()
}

} // verus!
