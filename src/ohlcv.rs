use vstd::prelude::*;
use crate::rfc3339::{format_rfc3339_millis, rfc3339_of_millis};

verus! {

/// One trade of the feed. Price and volume are non-negative fixed-point
/// amounts in a unit that the caller chooses; a trade without a volume has
/// volume zero.
#[derive(Clone, Debug)]
pub struct Trade {
    pub symbol: String,
    pub price: u64,
    pub volume: u64,
    /// Exchange time, milliseconds since the Unix epoch.
    pub time_ms: i64,
}

/// Open, high, low and close price and summed volume of a run of trades.
#[derive(Clone, Copy, Debug, PartialEq, Eq, Structural)]
pub struct Ohlcv {
    pub open: u64,
    pub high: u64,
    pub low: u64,
    pub close: u64,
    pub volume: u64,
}

/// The summary of one symbol after a trade, ready to be written to the cache.
#[derive(Clone, Debug)]
pub struct OhlcvUpdate {
    pub symbol: String,
    pub ohlcv: Ohlcv,
    /// RFC 3339 text of the trade's time.
    pub updated_at: String,
}

#[derive(Clone, Copy, Debug, PartialEq, Eq, Structural)]
pub enum TradeError {
    /// The trade's time lies outside the representable range.
    InvalidTimestamp,
    /// The window's summed volume for the symbol would not fit.
    VolumeOverflow,
}

/// The (price, volume) pairs of the trades of `sym`, in arrival order.
pub open spec fn trades_of(ts: Seq<(Seq<char>, u64, u64)>, sym: Seq<char>) -> Seq<(u64, u64)>
    decreases ts.len(),
{
    if ts.len() == 0 {
        seq![]
    } else if ts.last().0 == sym {
        trades_of(ts.drop_last(), sym).push((ts.last().1, ts.last().2))
    } else {
        trades_of(ts.drop_last(), sym)
    }
}

/// Highest price of a non-empty run.
pub open spec fn high_of(ps: Seq<(u64, u64)>) -> u64
    decreases ps.len(),
{
    if ps.len() <= 1 {
        ps[0].0
    } else if high_of(ps.drop_last()) >= ps.last().0 {
        high_of(ps.drop_last())
    } else {
        ps.last().0
    }
}

/// Lowest price of a non-empty run.
pub open spec fn low_of(ps: Seq<(u64, u64)>) -> u64
    decreases ps.len(),
{
    if ps.len() <= 1 {
        ps[0].0
    } else if low_of(ps.drop_last()) <= ps.last().0 {
        low_of(ps.drop_last())
    } else {
        ps.last().0
    }
}

/// Summed volume of a run.
pub open spec fn volume_of(ps: Seq<(u64, u64)>) -> nat
    decreases ps.len(),
{
    if ps.len() == 0 {
        0
    } else {
        (volume_of(ps.drop_last()) + ps.last().1) as nat
    }
}

/// `o` summarizes the non-empty run `ps`: open is the first price, close the
/// last, high and low the extremes, volume the sum.
pub open spec fn summarizes(o: Ohlcv, ps: Seq<(u64, u64)>) -> bool {
    &&& ps.len() > 0
    &&& o.open == ps[0].0
    &&& o.high == high_of(ps)
    &&& o.low == low_of(ps)
    &&& o.close == ps.last().0
    &&& o.volume == volume_of(ps)
}

pub open spec fn trade_view(t: Trade) -> (Seq<char>, u64, u64) {
    (t.symbol@, t.price, t.volume)
}

/// One symbol's running summary.
#[derive(Clone, Debug)]
pub struct SymbolOhlcv {
    pub symbol: String,
    pub ohlcv: Ohlcv,
}

/// The running per-symbol summaries of the current aggregation window.
/// Each trade updates its symbol's summary at once; closing the window starts
/// all symbols afresh.
pub struct OhlcvBook {
    entries: Vec<SymbolOhlcv>,
    window: Ghost<Seq<(Seq<char>, u64, u64)>>,
}

impl View for OhlcvBook {
    /// (symbol, price, volume) of each trade of the window, in arrival order.
    type V = Seq<(Seq<char>, u64, u64)>;

    closed spec fn view(&self) -> Seq<(Seq<char>, u64, u64)> {
        self.window@
    }
}

impl OhlcvBook {
    pub closed spec fn wf(&self) -> bool {
        &&& forall|i: int, j: int|
            0 <= i < j < self.entries.len() ==> self.entries[i].symbol@
                != self.entries[j].symbol@
        &&& forall|i: int|
            0 <= i < self.entries.len() ==> summarizes(
                #[trigger] self.entries[i].ohlcv,
                trades_of(self.window@, self.entries[i].symbol@),
            )
        &&& forall|sym: Seq<char>|
            trades_of(self.window@, sym).len() > 0 ==> exists|i: int|
                0 <= i < self.entries.len() && #[trigger] self.entries[i].symbol@ == sym
    }

    pub fn new() -> (r: Self)
        ensures
            r.wf(),
            r@ == Seq::<(Seq<char>, u64, u64)>::empty(),
    {
        OhlcvBook { entries: Vec::new(), window: Ghost(Seq::empty()) }
    }

    /// The summary of `sym`, if it received a trade in this window.
    pub fn summary_of(&self, sym: &String) -> (r: Option<Ohlcv>)
        requires
            self.wf(),
        ensures
            r is Some <==> trades_of(self@, sym@).len() > 0,
            r is Some ==> summarizes(r->0, trades_of(self@, sym@)),
    {
        match self.find(sym) {
            Some(i) => Some(self.entries[i].ohlcv),
            None => None,
        }
    }

    /// Number of symbols that received a trade in this window.
    pub fn symbol_count(&self) -> (r: usize)
        requires
            self.wf(),
        ensures
            r as int == self.symbols().len(),
            self.symbols().no_duplicates(),
            forall|sym: Seq<char>|
                #[trigger] self.symbols().contains(sym) <==> trades_of(self@, sym).len() > 0,
    {
        proof {
            self.lemma_symbols();
        }
        self.entries.len()
    }

    proof fn lemma_symbols(&self)
        requires
            self.wf(),
        ensures
            self.symbols().no_duplicates(),
            forall|sym: Seq<char>|
                #[trigger] self.symbols().contains(sym) <==> trades_of(self@, sym).len() > 0,
    {
        let ss = self.symbols();
        assert forall|i: int, j: int| 0 <= i < ss.len() && 0 <= j < ss.len() && i != j implies ss[i]
            != ss[j] by {
            if i < j {
                assert(self.entries[i].symbol@ != self.entries[j].symbol@);
            } else {
                assert(self.entries[j].symbol@ != self.entries[i].symbol@);
            }
        }
        assert forall|sym: Seq<char>| #[trigger] ss.contains(sym) <==> trades_of(self@, sym).len()
            > 0 by {
            if ss.contains(sym) {
                let i = choose|i: int| 0 <= i < ss.len() && ss[i] == sym;
                assert(summarizes(self.entries[i].ohlcv, trades_of(self@, self.entries[i].symbol@)));
            }
            if trades_of(self@, sym).len() > 0 {
                let i = choose|i: int|
                    0 <= i < self.entries.len() && #[trigger] self.entries[i].symbol@ == sym;
                assert(ss[i] == sym);
            }
        }
    }

    /// The symbols of the window, in order of their first trade.
    pub closed spec fn symbols(&self) -> Seq<Seq<char>> {
        self.entries@.map_values(|e: SymbolOhlcv| e.symbol@)
    }

    fn find(&self, sym: &String) -> (r: Option<usize>)
        requires
            self.wf(),
        ensures
            match r {
                Some(i) => i < self.entries.len() && self.entries[i as int].symbol@ == sym@,
                None => trades_of(self@, sym@).len() == 0 && forall|j: int|
                    0 <= j < self.entries.len() ==> self.entries[j].symbol@ != sym@,
            },
    {
        let mut i: usize = 0;
        while i < self.entries.len()
            invariant
                i <= self.entries.len(),
                forall|j: int| 0 <= j < i ==> self.entries[j].symbol@ != sym@,
            decreases self.entries.len() - i,
        {
            if self.entries[i].symbol == *sym {
                return Some(i);
            }
            i = i + 1;
        }
        None
    }

    /// Folds one trade into its symbol's summary and returns that summary.
    /// A trade whose time has no RFC 3339 text, or that would overflow the
    /// summed volume, leaves the book as it was.
    pub fn apply(&mut self, t: &Trade) -> (r: Result<OhlcvUpdate, TradeError>)
        requires
            old(self).wf(),
        ensures
            final(self).wf(),
            r is Err <==> final(self)@ == old(self)@,
            r is Ok ==> final(self)@ == old(self)@.push(trade_view(*t)),
            r == Err::<OhlcvUpdate, TradeError>(TradeError::InvalidTimestamp) <==> rfc3339_of_millis(
                t.time_ms,
            ) is None,
            r == Err::<OhlcvUpdate, TradeError>(TradeError::VolumeOverflow) <==> (rfc3339_of_millis(
                t.time_ms,
            ) is Some && volume_of(trades_of(old(self)@, t.symbol@)) + t.volume > u64::MAX),
            match r {
                Ok(u) => {
                    &&& u.symbol@ == t.symbol@
                    &&& summarizes(u.ohlcv, trades_of(final(self)@, t.symbol@))
                    &&& rfc3339_of_millis(t.time_ms) == Some(u.updated_at@)
                },
                Err(_) => true,
            },
    {
        let updated_at = match format_rfc3339_millis(t.time_ms) {
            Some(s) => s,
            None => {
                return Err(TradeError::InvalidTimestamp);
            },
        };
        let ghost old_window = self.window@;
        let ghost new_window = old_window.push(trade_view(*t));
        proof {
            lemma_trades_of_push(old_window, trade_view(*t));
        }
        match self.find(&t.symbol) {
            Some(i) => {
                let cur = self.entries[i].ohlcv;
                if cur.volume > u64::MAX - t.volume {
                    return Err(TradeError::VolumeOverflow);
                }
                let next = Ohlcv {
                    open: cur.open,
                    high: if cur.high >= t.price {
                        cur.high
                    } else {
                        t.price
                    },
                    low: if cur.low <= t.price {
                        cur.low
                    } else {
                        t.price
                    },
                    close: t.price,
                    volume: cur.volume + t.volume,
                };
                let ghost ps = trades_of(old_window, t.symbol@);
                proof {
                    assert(summarizes(old(self).entries[i as int].ohlcv, ps));
                    let qs = ps.push((t.price, t.volume));
                    assert(qs.drop_last() =~= ps);
                    assert(qs[0] == ps[0]);
                    assert(qs.last() == (t.price, t.volume));
                    assert(summarizes(next, qs));
                }
                let sym = self.entries[i].symbol.clone();
                self.entries.set(i, SymbolOhlcv { symbol: sym, ohlcv: next });
                self.window = Ghost(new_window);
                proof {
                    assert forall|k: int| 0 <= k < self.entries.len() implies summarizes(
                        #[trigger] self.entries[k].ohlcv,
                        trades_of(self.window@, self.entries[k].symbol@),
                    ) by {
                        if k != i {
                            assert(self.entries[k] == old(self).entries[k]);
                            assert(summarizes(
                                old(self).entries[k].ohlcv,
                                trades_of(old_window, old(self).entries[k].symbol@),
                            ));
                        }
                    }
                    assert forall|sym: Seq<char>| trades_of(self.window@, sym).len() > 0 implies exists|
                        k: int,
                    | 0 <= k < self.entries.len() && #[trigger] self.entries[k].symbol@ == sym by {
                        if sym != t.symbol@ {
                            let k = choose|k: int|
                                0 <= k < old(self).entries.len()
                                    && #[trigger] old(self).entries[k].symbol@ == sym;
                            assert(self.entries[k].symbol@ == sym);
                        } else {
                            assert(self.entries[i as int].symbol@ == sym);
                        }
                    }
                }
                Ok(OhlcvUpdate { symbol: t.symbol.clone(), ohlcv: next, updated_at })
            },
            None => {
                let next = Ohlcv {
                    open: t.price,
                    high: t.price,
                    low: t.price,
                    close: t.price,
                    volume: t.volume,
                };
                proof {
                    assert(trades_of(old_window, t.symbol@) =~= Seq::<(u64, u64)>::empty());
                    let qs = trades_of(new_window, t.symbol@);
                    assert(qs.drop_last() =~= Seq::<(u64, u64)>::empty());
                    assert(qs =~= seq![(t.price, t.volume)]);
                    assert(volume_of(qs.drop_last()) == 0);
                    assert(volume_of(qs) == t.volume);
                    assert(high_of(qs) == t.price);
                    assert(low_of(qs) == t.price);
                    assert(summarizes(next, qs));
                }
                self.entries.push(SymbolOhlcv { symbol: t.symbol.clone(), ohlcv: next });
                self.window = Ghost(new_window);
                proof {
                    let n = old(self).entries.len() as int;
                    assert forall|k: int| 0 <= k < self.entries.len() implies summarizes(
                        #[trigger] self.entries[k].ohlcv,
                        trades_of(self.window@, self.entries[k].symbol@),
                    ) by {
                        if k != n {
                            assert(self.entries[k] == old(self).entries[k]);
                            assert(summarizes(
                                old(self).entries[k].ohlcv,
                                trades_of(old_window, old(self).entries[k].symbol@),
                            ));
                        }
                    }
                    assert forall|a: int, b: int|
                        0 <= a < b < self.entries.len() implies self.entries[a].symbol@
                        != self.entries[b].symbol@ by {
                        if b == n {
                            assert(old(self).entries[a].symbol@ != t.symbol@);
                        } else {
                            assert(old(self).entries[a].symbol@ != old(self).entries[b].symbol@);
                        }
                    }
                    assert forall|sym: Seq<char>| trades_of(self.window@, sym).len() > 0 implies exists|
                        k: int,
                    | 0 <= k < self.entries.len() && #[trigger] self.entries[k].symbol@ == sym by {
                        if sym != t.symbol@ {
                            let k = choose|k: int|
                                0 <= k < old(self).entries.len()
                                    && #[trigger] old(self).entries[k].symbol@ == sym;
                            assert(self.entries[k].symbol@ == sym);
                        } else {
                            assert(self.entries[self.entries.len() - 1].symbol@ == sym);
                        }
                    }
                }
                Ok(OhlcvUpdate { symbol: t.symbol.clone(), ohlcv: next, updated_at })
            },
        }
    }

    /// Ends the aggregation window: every symbol starts afresh. Returns how
    /// many symbols received a trade in the window that ended.
    pub fn close_window(&mut self) -> (r: usize)
        requires
            old(self).wf(),
        ensures
            final(self).wf(),
            final(self)@ == Seq::<(Seq<char>, u64, u64)>::empty(),
            r as int == old(self).symbols().len(),
            old(self).symbols().no_duplicates(),
            forall|sym: Seq<char>|
                #[trigger] old(self).symbols().contains(sym) <==> trades_of(old(self)@, sym).len() > 0,
    {
        proof {
            self.lemma_symbols();
        }
        let n: usize = self.entries.len();
        self.entries.clear();
        self.window = Ghost(Seq::empty());
        n
    }
}

/// The high of a run is its greatest price and the low its least: both are
/// prices of the run, and every price of the run lies between them, open and
/// close included.
pub proof fn lemma_high_low_extremes(ps: Seq<(u64, u64)>)
    requires
        ps.len() > 0,
    ensures
        forall|k: int| 0 <= k < ps.len() ==> low_of(ps) <= #[trigger] ps[k].0 <= high_of(ps),
        exists|k: int| 0 <= k < ps.len() && #[trigger] ps[k].0 == high_of(ps),
        exists|k: int| 0 <= k < ps.len() && #[trigger] ps[k].0 == low_of(ps),
        low_of(ps) <= ps[0].0 <= high_of(ps),
        low_of(ps) <= ps.last().0 <= high_of(ps),
    decreases ps.len(),
{
    if ps.len() > 1 {
        let qs = ps.drop_last();
        lemma_high_low_extremes(qs);
        assert forall|k: int| 0 <= k < ps.len() implies low_of(ps) <= #[trigger] ps[k].0 <= high_of(
            ps,
        ) by {
            if k < qs.len() {
                assert(ps[k] == qs[k]);
            }
        }
        if high_of(qs) >= ps.last().0 {
            let k = choose|k: int| 0 <= k < qs.len() && #[trigger] qs[k].0 == high_of(qs);
            assert(ps[k] == qs[k]);
        } else {
            assert(ps[ps.len() - 1].0 == high_of(ps));
        }
        if low_of(qs) <= ps.last().0 {
            let k = choose|k: int| 0 <= k < qs.len() && #[trigger] qs[k].0 == low_of(qs);
            assert(ps[k] == qs[k]);
        } else {
            assert(ps[ps.len() - 1].0 == low_of(ps));
        }
    } else {
        assert(ps[0].0 == high_of(ps));
        assert(ps[0].0 == low_of(ps));
    }
}

/// Appending a trade extends its own symbol's run by its price and volume and
/// leaves every other symbol's run as it was.
pub proof fn lemma_trades_of_push(ts: Seq<(Seq<char>, u64, u64)>, t: (Seq<char>, u64, u64))
    ensures
        trades_of(ts.push(t), t.0) == trades_of(ts, t.0).push((t.1, t.2)),
        forall|sym: Seq<char>|
            sym != t.0 ==> #[trigger] trades_of(ts.push(t), sym) == trades_of(ts, sym),
{
    assert(ts.push(t).drop_last() =~= ts);
}

} // verus!
