//! The wall clock.

use vstd::prelude::*;

verus! {

/// Reads the current UTC time with `chrono::Utc::now` and writes it with
/// `DateTime::to_rfc3339`. The text depends on the moment of the call, so
/// nothing is claimed of it.
#[verifier::external_body]
pub(crate) fn utc_now() -> String {
    chrono::Utc::now().to_rfc3339()
}

} // verus!
