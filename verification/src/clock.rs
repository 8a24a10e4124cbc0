//! The wall clock, read through chrono.
use vstd::prelude::*;

verus! {

/// `chrono::Utc::now().to_rfc3339()`: the current UTC time as an RFC 3339
/// timestamp; it depends on the clock, so nothing is stated of it.
#[verifier::external_body]
pub(crate) fn utc_now_rfc3339() -> String {
    chrono::Utc::now().to_rfc3339()
}

} // verus!
