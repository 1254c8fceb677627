//! The wall clock, read through an outside time library.

use vstd::prelude::*;

verus! {

/// Relies on chrono's `Utc::now().to_rfc3339()`: the current UTC wall-clock
/// time rendered as an RFC 3339 timestamp with sub-second precision and a
/// fixed `+00:00` offset.  The reading depends on the clock, so nothing is
/// promised of the returned text; the formatter takes the reading as an
/// argument and is verified for every value of it.
#[verifier::external_body]
pub(crate) fn now_rfc3339() -> String {
    chrono::Utc::now().to_rfc3339()
}

} // verus!
