//! Wall-clock time, monotonic time and random identifiers, taken from `chrono`,
//! `std::time` and `uuid`. What they return depends on the moment of the call or
//! on chance, so the contracts below only state what holds of every outcome.
use vstd::prelude::*;
use std::time::Instant;

verus! {

/// A point in monotonic time (`std::time::Instant`).
#[verifier::external_type_specification]
#[verifier::external_body]
pub struct ExInstant(Instant);

/// Calls `chrono::Utc::now().timestamp()`: the current Unix time in seconds.
/// Nothing is promised of the value, which depends on the clock.
#[verifier::external_body]
pub(crate) fn now_unix_secs() -> i64 {
    chrono::Utc::now().timestamp()
}

/// Calls `chrono::Utc::now().timestamp_millis()`: the current Unix time in
/// milliseconds. Nothing is promised of the value, which depends on the clock.
#[verifier::external_body]
pub(crate) fn now_unix_millis() -> i64 {
    chrono::Utc::now().timestamp_millis()
}

/// Calls `SystemTime::now().duration_since(UNIX_EPOCH)` and gives the whole
/// seconds, 0 for a clock set before 1970. Nothing is promised of the value.
#[verifier::external_body]
pub(crate) fn unix_secs_u64() -> u64 {
    std::time::SystemTime::now()
        .duration_since(std::time::UNIX_EPOCH)
        .map(|d| d.as_secs())
        .unwrap_or(0)
}

/// Calls `std::time::Instant::now()`. Nothing is promised of the value.
#[verifier::external_body]
pub(crate) fn instant_now() -> Instant {
    Instant::now()
}

/// Calls `Instant::elapsed` on `origin` and gives the nanoseconds elapsed since
/// then. Nothing is promised of the value, which depends on the clock.
#[verifier::external_body]
pub(crate) fn nanos_since(origin: &Instant) -> u64 {
    origin.elapsed().as_nanos() as u64
}

/// Calls `uuid::Uuid::new_v4().to_string()`: a random identifier in the
/// hyphenated form of 36 characters that `uuid`'s `Display` writes.
#[verifier::external_body]
pub(crate) fn new_uuid_v4() -> (id: String)
    ensures
        id@.len() == 36,
{
    uuid::Uuid::new_v4().to_string()
}

} // verus!
