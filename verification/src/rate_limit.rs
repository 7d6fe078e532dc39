//! Cooperative throttle applied between sequential page calls of one feed.

use vstd::prelude::*;

verus! {

/// Upstream quota state returned with every page: remaining calls, the call
/// limit, and the epoch second at which the quota resets. Transient, never
/// persisted.
pub struct RateLimitStatus {
    pub remaining: u64,
    pub limit: u64,
    pub reset: u64,
}

/// Grace added on top of the time left until the quota resets.
pub const BACKOFF_GRACE_SECS: u64 = 10;

/// Sleep used when the current time cannot be read.
pub const BACKOFF_FALLBACK_SECS: u64 = 1000;

/// The seconds to sleep before the next call of the same feed, computed as
/// (reset - now) + grace modulo 2^64, or `None` when enough quota remains.
pub open spec fn spec_backoff(status: RateLimitStatus, now: Option<u64>) -> Option<u64> {
    if status.remaining > 1 {
        None
    } else {
        match now {
            Some(n) => if n <= status.reset + BACKOFF_GRACE_SECS {
                Some((status.reset + BACKOFF_GRACE_SECS - n) as u64)
            } else {
                Some((0x1_0000_0000_0000_0000 - (n - status.reset - BACKOFF_GRACE_SECS)) as u64)
            },
            None => Some(BACKOFF_FALLBACK_SECS),
        }
    }
}

/// Decide whether the caller must sleep before its next page call, and for
/// how long. `now` is the current epoch second, absent when the clock could
/// not be read. With more than one call remaining no delay is introduced;
/// otherwise the delay covers the time until the quota resets plus a grace
/// period, falling back to a fixed long sleep without a clock.
pub fn backoff_seconds(status: &RateLimitStatus, now: Option<u64>) -> (r: Option<u64>)
    requires
        status.reset + BACKOFF_GRACE_SECS <= u64::MAX,
    ensures
        r == spec_backoff(*status, now),
        status.remaining > 1 <==> r is None,
{
    if status.remaining > 1 {
        None
    } else {
        match now {
            Some(n) => {
                let target = status.reset + BACKOFF_GRACE_SECS;
                if n <= target {
                    Some(target - n)
                } else {
                    // the subtraction wraps: a reset in the past yields a
                    // sleep of (reset - now + grace) mod 2^64
                    Some(u64::MAX - (n - target) + 1)
                }
            },
            None => Some(BACKOFF_FALLBACK_SECS),
        }
    }
}

} // verus!
