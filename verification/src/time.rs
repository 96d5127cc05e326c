//! Elapsed time between two millisecond timestamps.

use vstd::prelude::*;

verus! {

/// Milliseconds elapsed from `earlier` to `now`; zero when `now` precedes
/// `earlier` (a monotonic clock never yields that, but the store stays
/// total either way).
pub open spec fn spec_elapsed_ms(now: u64, earlier: u64) -> u64 {
    if now >= earlier {
        (now - earlier) as u64
    } else {
        0u64
    }
}

/// Executable counterpart of [`spec_elapsed_ms`].
pub fn elapsed_ms(now: u64, earlier: u64) -> (r: u64)
    ensures
        r == spec_elapsed_ms(now, earlier),
{
    if now >= earlier {
        now - earlier
    } else {
        0
    }
}

} // verus!
