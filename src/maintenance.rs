use vstd::prelude::*;

verus! {

/// Connection attempts of one maintenance run.
pub const MAINTENANCE_CONNECT_ATTEMPTS: u32 = 5;

/// Pause between two connection attempts of a maintenance run.
pub const MAINTENANCE_RETRY_PAUSE_MS: u64 = 2_000;

/// After connection attempt number `attempt` (counted from 1) failed: the
/// pause before the next attempt, or `None` where the attempts are used up
/// and the run ends as a non-fatal failure.
pub fn retry_pause_after(attempt: u32) -> (r: Option<u64>)
    ensures
        attempt < MAINTENANCE_CONNECT_ATTEMPTS ==> r == Some(MAINTENANCE_RETRY_PAUSE_MS),
        attempt >= MAINTENANCE_CONNECT_ATTEMPTS ==> r is None,
{
    if attempt < MAINTENANCE_CONNECT_ATTEMPTS {
        Some(MAINTENANCE_RETRY_PAUSE_MS)
    } else {
        None
    }
}

} // verus!
