use vstd::prelude::*;
use std::time::Instant;

verus! {

#[verifier::external_type_specification]
#[verifier::external_body]
pub struct ExInstant(Instant);

/// Relies on Instant::now: the current monotonic time.
#[verifier::external_body]
pub fn now() -> (r: Instant) {
    Instant::now()
}

/// Relies on Instant::elapsed: whole milliseconds since `start`; the value
/// depends on the clock, so nothing is promised of it.
#[verifier::external_body]
pub fn elapsed_ms(start: &Instant) -> (r: u64) {
    start.elapsed().as_millis() as u64
}

} // verus!
