//! Time values of the protocol: spans of time counted in nanoseconds since the protocol's timer
//! started, covering the whole range of `std::time::Duration`.
use vstd::prelude::*;

verus! {

/// A span of time in nanoseconds.
pub type Duration = u128;

/// Nanoseconds in one second.
pub const NANOS_PER_SECOND: u128 = 1_000_000_000;

/// The longest span a `std::time::Duration` can hold (`u64::MAX` seconds and 999_999_999
/// nanoseconds); adding two durations past it is an overflow.
pub const MAX_DURATION: u128 = 18446744073709551615999999999;

/// Whether `a + b` is still a duration, the condition under which adding them does not overflow.
pub open spec fn sum_fits(a: Duration, b: Duration) -> bool {
    a + b <= MAX_DURATION
}

} // verus!
