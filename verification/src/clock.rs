use vstd::prelude::*;

verus! {

/// Relies on the time crate's OffsetDateTime::now_utc: the current system
/// clock reading as seconds since the Unix epoch. The value depends on the
/// environment, so nothing is promised of it. A clock set outside the
/// crate's representable span of years would make the call itself panic;
/// that is an environment fault on par with machine limits.
#[verifier::external_body]
fn now_unix_seconds_raw() -> i64 {
    time::OffsetDateTime::now_utc().unix_timestamp()
}

/// The current clock reading, clamped below at the epoch: records carry
/// unsigned timestamps.
pub fn now_unix_seconds() -> u64 {
    let raw = now_unix_seconds_raw();
    if raw < 0 {
        0
    } else {
        raw as u64
    }
}

} // verus!
