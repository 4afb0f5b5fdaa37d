//! The wall clock.

use vstd::prelude::*;

verus! {

/// The current time in whole seconds since the Unix epoch, by
/// `Utc::now().timestamp()` of chrono. Trusted, and nothing is claimed of
/// the value: it is whatever the clock says. chrono does not return where
/// the system clock stands before the epoch.
#[verifier::external_body]
pub(crate) fn unix_now() -> (now: u64) {
    chrono::offset::Utc::now().timestamp() as u64
}

} // verus!
