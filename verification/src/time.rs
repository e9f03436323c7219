//! The clocks, as the rest of the library sees them.

use vstd::prelude::*;

verus! {

/// `std::time::Instant`: a moment on the monotonic clock. Opaque: only the
/// wrappers below read it.
#[verifier::external_type_specification]
#[verifier::external_body]
pub struct ExInstant(std::time::Instant);

/// `Instant` is `Copy`: its clone is the same moment.
pub assume_specification[ <std::time::Instant as Clone>::clone ](
    instant: &std::time::Instant,
) -> (r: std::time::Instant)
    ensures
        r == *instant,
;

/// `Instant::now`. Nothing is promised of the moment it returns.
#[verifier::external_body]
pub(crate) fn instant_now() -> std::time::Instant {
    std::time::Instant::now()
}

/// `Instant::elapsed`, in whole milliseconds (`as_millis`, held to 64 bits).
/// It depends on the time of the call, so nothing is promised of the number.
#[verifier::external_body]
pub(crate) fn elapsed_ms(instant: &std::time::Instant) -> u64 {
    u64::try_from(instant.elapsed().as_millis()).unwrap_or(u64::MAX)
}

/// `SystemTime::now`, in whole seconds since the Unix epoch
/// (`duration_since(UNIX_EPOCH)`, then `as_secs`), and 0 for a clock set
/// before the epoch. It reads the wall clock, so nothing is promised of the
/// number.
#[verifier::external_body]
pub(crate) fn unix_secs() -> i64 {
    match std::time::SystemTime::now().duration_since(std::time::UNIX_EPOCH) {
        Ok(d) => d.as_secs() as i64,
        Err(_) => 0,
    }
}

} // verus!
