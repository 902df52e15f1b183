//! The instants at which tests and runners start and end.

use vstd::prelude::*;

verus! {

/// A date and time without a time zone, as `chrono` holds it. The verified
/// code only carries such values: nothing is known of what they hold.
#[verifier::external_type_specification]
#[verifier::external_body]
pub struct ExNaiveDateTime(chrono::NaiveDateTime);

/// An instant, as a date and time in UTC.
pub type Timestamp = chrono::NaiveDateTime;

/// Reads the current instant with `chrono::Utc::now` and drops the time zone
/// with `DateTime::naive_utc`.
///
/// Nothing is claimed of the value: it depends on the machine's clock.
/// `Utc::now` panics if that clock stands before 1970.
#[verifier::external_body]
pub(crate) fn now() -> (t: Timestamp) {
    chrono::Utc::now().naive_utc()
}

} // verus!
