use vstd::prelude::*;
use std::collections::VecDeque;
use crate::ohlcv::Trade;

verus! {

/// Capacity of the queue between the feed reader and the aggregator.
pub const TRADE_QUEUE_CAPACITY: usize = 10_000;

/// Bounded hand-off between the feed reader and the aggregator. When it is
/// full, the newest trade is dropped and counted: the reader never waits.
pub struct TradeQueue {
    items: VecDeque<Trade>,
    capacity: usize,
    dropped: u64,
}

impl View for TradeQueue {
    /// The queued trades, oldest first.
    type V = Seq<Trade>;

    closed spec fn view(&self) -> Seq<Trade> {
        self.items@
    }
}

impl TradeQueue {
    pub closed spec fn capacity_spec(&self) -> nat {
        self.capacity as nat
    }

    pub closed spec fn dropped_spec(&self) -> nat {
        self.dropped as nat
    }

    pub closed spec fn wf(&self) -> bool {
        self.items@.len() <= self.capacity
    }

    pub fn new(capacity: usize) -> (r: Self)
        ensures
            r.wf(),
            r@ == Seq::<Trade>::empty(),
            r.capacity_spec() == capacity,
            r.dropped_spec() == 0,
    {
        TradeQueue { items: VecDeque::new(), capacity, dropped: 0 }
    }

    pub fn len(&self) -> (r: usize)
        ensures
            r == self@.len(),
    {
        self.items.len()
    }

    /// Trades dropped so far because the queue was full (saturating).
    pub fn dropped(&self) -> (r: u64)
        ensures
            r == self.dropped_spec(),
    {
        self.dropped
    }

    /// Enqueues `t` where there is room and returns `true`; otherwise drops
    /// it, counts the drop and returns `false`.
    pub fn offer(&mut self, t: Trade) -> (r: bool)
        requires
            old(self).wf(),
        ensures
            final(self).wf(),
            final(self).capacity_spec() == old(self).capacity_spec(),
            r == (old(self)@.len() < old(self).capacity_spec()),
            r ==> final(self)@ == old(self)@.push(t) && final(self).dropped_spec()
                == old(self).dropped_spec(),
            !r ==> final(self)@ == old(self)@ && final(self).dropped_spec() == (if old(
                self,
            ).dropped_spec() < u64::MAX {
                old(self).dropped_spec() + 1
            } else {
                old(self).dropped_spec()
            }),
    {
        if self.items.len() < self.capacity {
            self.items.push_back(t);
            true
        } else {
            self.dropped = self.dropped.saturating_add(1);
            false
        }
    }

    /// Takes the oldest trade, if any.
    pub fn take(&mut self) -> (r: Option<Trade>)
        requires
            old(self).wf(),
        ensures
            final(self).wf(),
            final(self).capacity_spec() == old(self).capacity_spec(),
            final(self).dropped_spec() == old(self).dropped_spec(),
            old(self)@.len() == 0 ==> r is None && final(self)@ == old(self)@,
            old(self)@.len() > 0 ==> r == Some(old(self)@[0]) && final(self)@ == old(self)@.drop_first(),
    {
        let r = self.items.pop_front();
        proof {
            if old(self)@.len() > 0 {
                assert(old(self)@.subrange(1, old(self)@.len() as int) =~= old(self)@.drop_first());
            }
        }
        r
    }
}

/// Whether two symbol lists are equal, symbol by symbol.
pub fn same_symbols(a: &Vec<String>, b: &Vec<String>) -> (r: bool)
    ensures
        r == (a@.map_values(|s: String| s@) == b@.map_values(|s: String| s@)),
{
    if a.len() != b.len() {
        proof {
            assert(a@.map_values(|s: String| s@).len() != b@.map_values(|s: String| s@).len());
        }
        return false;
    }
    let mut i: usize = 0;
    while i < a.len()
        invariant
            a.len() == b.len(),
            i <= a.len(),
            forall|j: int| 0 <= j < i ==> a@[j]@ == b@[j]@,
        decreases a.len() - i,
    {
        if a[i] != b[i] {
            proof {
                assert(a@.map_values(|s: String| s@)[i as int] != b@.map_values(|s: String| s@)[i as int]);
            }
            return false;
        }
        i = i + 1;
    }
    assert(a@.map_values(|s: String| s@) =~= b@.map_values(|s: String| s@));
    true
}

/// Decides the subscriptions after reading the symbol set `current` while
/// connected with `subscribed` in effect. Where the set changed, it becomes
/// the subscribed set and every symbol in it is (re)subscribed; otherwise
/// nothing is sent.
pub fn plan_subscriptions(subscribed: &mut Vec<String>, current: Vec<String>) -> (r: Vec<String>)
    ensures
        old(subscribed)@.map_values(|s: String| s@) == current@.map_values(|s: String| s@) ==> r@
            == Seq::<String>::empty() && final(subscribed)@ == old(subscribed)@,
        old(subscribed)@.map_values(|s: String| s@) != current@.map_values(|s: String| s@) ==> r@
            == current@ && final(subscribed)@ == current@,
{
    if same_symbols(subscribed, &current) {
        Vec::new()
    } else {
        *subscribed = current.clone();
        current
    }
}

} // verus!
