//! The wall clock, read through chrono.

use vstd::prelude::*;

verus! {

/// Trusted: `chrono::Utc::now` reads the system clock and
/// `DateTime::timestamp` gives its whole seconds since the Unix epoch.
/// Nothing is claimed of the value, which differs from call to call. Like
/// `Utc::now` itself, this panics on a machine whose clock stands before the
/// epoch.
#[verifier::external_body]
pub(crate) fn unix_now() -> (r: i64) {
    chrono::Utc::now().timestamp()
}

} // verus!
