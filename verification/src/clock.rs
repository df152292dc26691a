//! The wall clock.
use vstd::prelude::*;

verus! {

/// `std::time::SystemTime::now`, as whole seconds since the Unix epoch
/// (0 for a clock set before the epoch). Nothing is stated of the value:
/// it depends on the time of the call.
#[verifier::external_body]
pub(crate) fn unix_now_secs() -> u64 {
    match std::time::SystemTime::now().duration_since(std::time::UNIX_EPOCH) {
        Ok(d) => d.as_secs(),
        Err(_) => 0,
    }
}

/// The current UTC time in seconds since the Unix epoch, by chrono:
/// `std::time::SystemTime::now`, then `chrono::DateTime::<Utc>::from_timestamp`
/// and `timestamp` (what `chrono::Utc::now().timestamp()` gives, without the
/// panic `Utc::now` raises for a clock set before the epoch). It is 0 where
/// the clock reads before the epoch or beyond chrono's range. Nothing is
/// stated of the value: it depends on the time of the call.
#[verifier::external_body]
pub(crate) fn utc_now_timestamp() -> i64 {
    match std::time::SystemTime::now().duration_since(std::time::UNIX_EPOCH) {
        Ok(d) => match chrono::DateTime::<chrono::Utc>::from_timestamp(d.as_secs() as i64, 0) {
            Some(t) => t.timestamp(),
            None => 0,
        },
        Err(_) => 0,
    }
}

} // verus!
