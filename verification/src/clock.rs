//! The time of day, for dating a document.

use vstd::prelude::*;

verus! {

/// `Utc::now` and then `to_rfc3339` on what it returned: the present moment
/// in UTC as an RFC 3339 timestamp. The text depends on when the call is
/// made, so nothing is said of it. The clock must not stand before 1970.
#[verifier::external_body]
pub(crate) fn now_rfc3339() -> (stamp: String) {
    chrono::Utc::now().to_rfc3339()
}

} // verus!
