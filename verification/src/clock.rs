//! The wall clock.

use vstd::prelude::*;

verus! {

/// The current time in seconds since the epoch; negative where the clock
/// stands before it.
///
/// Trusted: reads `std::time::SystemTime::now`, turns it into a
/// `chrono::DateTime<Utc>` through chrono's `From<SystemTime>` and calls
/// `DateTime::timestamp`. The result depends on the machine's clock, so
/// nothing is claimed of it.
#[verifier::external_body]
pub(crate) fn epoch_seconds() -> (now: i64) {
    chrono::DateTime::<chrono::Utc>::from(std::time::SystemTime::now()).timestamp()
}

} // verus!
