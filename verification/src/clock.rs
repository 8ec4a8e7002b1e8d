//! The time of day.

use vstd::prelude::*;

verus! {

/// Reads the system's clock with `std::time::SystemTime::now`, makes a
/// `chrono::DateTime<chrono::Utc>` of it with the `From` that `chrono`
/// gives, and counts the nanoseconds since the Unix epoch with
/// `chrono::DateTime::timestamp_nanos_opt`, which gives nothing for a time
/// that no `i64` can count (before 1677 or after 2262). Nothing is assumed
/// of the reading. A clock that stands before the epoch is read as it
/// stands; `chrono` panics only on a time beyond the years it can hold.
#[verifier::external_body]
pub(crate) fn clock_nanos() -> (reading: Option<i64>)
{
    chrono::DateTime::<chrono::Utc>::from(std::time::SystemTime::now()).timestamp_nanos_opt()
}

} // verus!
