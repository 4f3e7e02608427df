//! The scheduler's timing rule: each cycle starts a fixed interval after the
//! previous cycle's start, unless the previous cycle ran longer than the
//! interval, in which case the next one starts immediately.

use vstd::prelude::*;

verus! {

/// Time the scheduler waits after a cycle: the remainder of the configured
/// interval measured from the cycle's start, and nothing when the cycle
/// already ran past the interval.
pub open spec fn spec_sleep_nanos(interval_ns: u64, elapsed_ns: u64) -> u64 {
    if elapsed_ns < interval_ns {
        (interval_ns - elapsed_ns) as u64
    } else {
        0u64
    }
}

/// Wait before the next cycle may start, given the configured interval and
/// the elapsed time of the cycle that just finished, both in nanoseconds.
///
/// A short cycle waits exactly the remainder of the interval, so consecutive
/// cycle starts are never closer than the interval; a cycle that ran over the
/// interval waits nothing, and the subtraction can never underflow.
pub fn sleep_nanos(interval_ns: u64, elapsed_ns: u64) -> (r: u64)
    ensures
        r == spec_sleep_nanos(interval_ns, elapsed_ns),
        elapsed_ns < interval_ns ==> r == interval_ns - elapsed_ns,
        elapsed_ns >= interval_ns ==> r == 0,
        elapsed_ns + r >= interval_ns,
        r <= interval_ns,
{
    if elapsed_ns < interval_ns {
        interval_ns - elapsed_ns
    } else {
        0
    }
}

} // verus!
