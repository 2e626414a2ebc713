use vstd::prelude::*;

verus! {

/// Wait before the first retry after a dropped or failed connection.
pub const INITIAL_BACKOFF_SECS: u64 = 3;

/// Longest wait between two connection attempts.
pub const MAX_BACKOFF_SECS: u64 = 60;

/// Two to the power `n`.
pub open spec fn pow2(n: nat) -> nat
    decreases n,
{
    if n == 0 {
        1
    } else {
        2 * pow2((n - 1) as nat)
    }
}

/// The wait that follows `n` consecutive failed attempts: the initial wait
/// doubled `n` times, capped.
pub open spec fn backoff_after(n: nat) -> nat {
    if INITIAL_BACKOFF_SECS * pow2(n) <= MAX_BACKOFF_SECS {
        (INITIAL_BACKOFF_SECS * pow2(n)) as nat
    } else {
        MAX_BACKOFF_SECS as nat
    }
}

/// Reconnect delay of the feed connection: it doubles on every failure up to
/// a cap and drops back to the initial value on a successful connect.
pub struct ReconnectBackoff {
    delay_secs: u64,
    failures: Ghost<nat>,
}

impl View for ReconnectBackoff {
    /// The number of consecutive failures since the last successful connect.
    type V = nat;

    closed spec fn view(&self) -> nat {
        self.failures@
    }
}

impl ReconnectBackoff {
    pub closed spec fn wf(&self) -> bool {
        self.delay_secs == backoff_after(self.failures@)
    }

    pub fn new() -> (r: Self)
        ensures
            r.wf(),
            r@ == 0,
    {
        ReconnectBackoff { delay_secs: INITIAL_BACKOFF_SECS, failures: Ghost(0) }
    }

    /// The wait that the next failure will bring.
    pub fn current_wait_secs(&self) -> (r: u64)
        requires
            self.wf(),
        ensures
            r == backoff_after(self@),
    {
        self.delay_secs
    }

    /// A connection was established: the next wait is the initial one again.
    pub fn on_connected(&mut self)
        requires
            old(self).wf(),
        ensures
            final(self).wf(),
            final(self)@ == 0,
    {
        self.delay_secs = INITIAL_BACKOFF_SECS;
        self.failures = Ghost(0);
    }

    /// A connection attempt failed or the stream ended: returns how long to
    /// wait before the next attempt, and doubles the following wait up to the
    /// cap.
    pub fn next_wait_secs(&mut self) -> (r: u64)
        requires
            old(self).wf(),
        ensures
            final(self).wf(),
            r == backoff_after(old(self)@),
            final(self)@ == old(self)@ + 1,
    {
        let r: u64 = self.delay_secs;
        proof {
            lemma_backoff_step(self.failures@);
        }
        if self.delay_secs <= MAX_BACKOFF_SECS / 2 {
            self.delay_secs = self.delay_secs * 2;
        } else {
            self.delay_secs = MAX_BACKOFF_SECS;
        }
        self.failures = Ghost(self.failures@ + 1);
        r
    }
}

/// Every wait lies between the initial wait and the cap, and one more
/// failure doubles the wait, up to the cap.
pub proof fn lemma_backoff_step(n: nat)
    ensures
        backoff_after(n) <= MAX_BACKOFF_SECS,
        backoff_after(n) >= INITIAL_BACKOFF_SECS,
        backoff_after(n + 1) == (if 2 * backoff_after(n) <= MAX_BACKOFF_SECS {
            2 * backoff_after(n)
        } else {
            MAX_BACKOFF_SECS as nat
        }),
    decreases n,
{
    lemma_pow2_positive(n);
    assert(pow2(n + 1) == 2 * pow2(n));
}

proof fn lemma_pow2_positive(n: nat)
    ensures
        pow2(n) >= 1,
    decreases n,
{
    if n > 0 {
        lemma_pow2_positive((n - 1) as nat);
    }
}

} // verus!
