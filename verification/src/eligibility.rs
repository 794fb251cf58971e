//! When a site is due: the cooldown rule.

use vstd::prelude::*;

verus! {

/// The cooldown rule over mathematical integers. A site that was never
/// visited is due; otherwise it is due from the instant
/// `last_visit + cadence_seconds` on, that instant included.
pub open spec fn eligible(last_visit: Option<u64>, cadence_seconds: u64, now: u64) -> bool {
    match last_visit {
        None => true,
        Some(t) => t + cadence_seconds <= now,
    }
}

/// Decides whether a site is due at `now`. The sum `last_visit +
/// cadence_seconds` is taken without wrapping: a cooldown that ends beyond
/// the range of the clock has not ended.
pub fn is_eligible(last_visit: Option<u64>, cadence_seconds: u64, now: u64) -> (due: bool)
    ensures
        due == eligible(last_visit, cadence_seconds, now),
{
    match last_visit {
        None => true,
        Some(t) => match t.checked_add(cadence_seconds) {
            Some(expiry) => expiry <= now,
            None => false,
        },
    }
}

/// A site is due at the exact instant its cooldown ends.
pub proof fn law_due_at_expiry(last_visit: u64, cadence_seconds: u64, now: u64)
    requires
        now == last_visit + cadence_seconds,
    ensures
        eligible(Some(last_visit), cadence_seconds, now),
{
}

/// One second before its cooldown ends, a site with a positive cadence is
/// not due.
pub proof fn law_not_due_before_expiry(last_visit: u64, cadence_seconds: u64, now: u64)
    requires
        cadence_seconds > 0,
        now == last_visit + cadence_seconds - 1,
    ensures
        !eligible(Some(last_visit), cadence_seconds, now),
{
}

/// A site that was never visited is due, whatever its cadence and the time.
pub proof fn law_never_visited_is_due(cadence_seconds: u64, now: u64)
    ensures
        eligible(None, cadence_seconds, now),
{
}

} // verus!
