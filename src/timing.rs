use vstd::prelude::*;

verus! {

/// Time left of a fixed period once `elapsed` of it has been spent, never
/// below zero: a loop that sleeps this long keeps its nominal cadence, and an
/// overrunning iteration is followed by the next one at once.
pub fn remaining_sleep_ms(period_ms: u64, elapsed_ms: u64) -> (r: u64)
    ensures
        elapsed_ms <= period_ms ==> r == period_ms - elapsed_ms,
        elapsed_ms > period_ms ==> r == 0,
{
    if elapsed_ms <= period_ms {
        period_ms - elapsed_ms
    } else {
        0
    }
}

} // verus!
