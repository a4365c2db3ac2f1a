//! The monotonic clock that timestamps detail lines.

use vstd::prelude::*;

verus! {

/// `std::time::Instant`, an opaque reading of the monotonic clock.
#[verifier::external_type_specification]
#[verifier::external_body]
pub struct ExInstant(std::time::Instant);

/// Relies on `Instant::now`: takes a reading of the monotonic clock. What it
/// reads depends on the time, so nothing is stated of it.
pub assume_specification[ std::time::Instant::now ]() -> std::time::Instant;

/// Relies on `Instant::elapsed`: the time since the reading `i` was taken; it
/// saturates at zero instead of panicking. What it returns depends on the
/// time, so nothing is stated of it.
pub assume_specification[ std::time::Instant::elapsed ](i: &std::time::Instant) -> core::time::Duration;

/// Relies on `Duration::as_micros`: the whole microseconds of a duration,
/// which never panics.
pub assume_specification[ core::time::Duration::as_micros ](d: &core::time::Duration) -> u128;

} // verus!
