use vstd::prelude::*;
use crate::rfc3339::{millis_of_rfc3339, parse_rfc3339_millis};
use crate::timing::remaining_sleep_ms;

verus! {

/// Interval between two persist cycles.
pub const PERSIST_INTERVAL_MS: u64 = 10_000;

/// Bound on one cache operation.
pub const CACHE_TIMEOUT_MS: u64 = 3_000;

/// Bound on one durable-store operation.
pub const STORE_TIMEOUT_MS: u64 = 5_000;

/// Pause after a failed cache read before the next cycle.
pub const CACHE_RETRY_PAUSE_MS: u64 = 1_000;

/// The symbol-to-id mapping of the durable store, as loaded at startup: a
/// symbol listed twice maps to its last id.
pub struct SymbolIdMap {
    rows: Vec<(String, i32)>,
}

/// The id of `sym` among `rows`: that of its last occurrence.
pub open spec fn id_in(rows: Seq<(Seq<char>, i32)>, sym: Seq<char>) -> Option<i32>
    decreases rows.len(),
{
    if rows.len() == 0 {
        None
    } else if rows.last().0 == sym {
        Some(rows.last().1)
    } else {
        id_in(rows.drop_last(), sym)
    }
}

impl View for SymbolIdMap {
    type V = Seq<(Seq<char>, i32)>;

    closed spec fn view(&self) -> Seq<(Seq<char>, i32)> {
        self.rows@.map_values(|r: (String, i32)| (r.0@, r.1))
    }
}

impl SymbolIdMap {
    /// The mapping given by the `(symbol, id)` rows of the store.
    pub fn from_rows(rows: Vec<(String, i32)>) -> (r: Self)
        ensures
            r@ == rows@.map_values(|r: (String, i32)| (r.0@, r.1)),
    {
        SymbolIdMap { rows }
    }

    pub fn len(&self) -> (r: usize)
        ensures
            r == self@.len(),
    {
        self.rows.len()
    }

    /// The id of `sym`, if the store knows it.
    pub fn get(&self, sym: &String) -> (r: Option<i32>)
        ensures
            r == id_in(self@, sym@),
    {
        let mut i: usize = self.rows.len();
        assert(self@.take(i as int) =~= self@);
        while i > 0
            invariant
                i <= self.rows.len(),
                id_in(self@, sym@) == id_in(self@.take(i as int), sym@),
            decreases i,
        {
            let ghost pre = self@.take(i as int);
            assert(pre.drop_last() =~= self@.take(i - 1));
            if self.rows[i - 1].0 == *sym {
                return Some(self.rows[i - 1].1);
            }
            i = i - 1;
        }
        assert(self@.take(0) =~= Seq::<(Seq<char>, i32)>::empty());
        None
    }
}

/// A symbol's summary as read from the cache. A numeric field holds the text
/// of a well-formed number, and is `None` where the field was missing or
/// malformed; `updated_at` holds the text as read.
#[derive(Clone, Debug)]
pub struct CachedOhlcv {
    /// The cache held no field at all for the symbol.
    pub is_empty: bool,
    pub open: Option<String>,
    pub high: Option<String>,
    pub low: Option<String>,
    pub close: Option<String>,
    pub volume: Option<String>,
    pub updated_at: Option<String>,
}

/// One row of the price history, ready for the bulk insert.
#[derive(Clone, Debug)]
pub struct PriceRow {
    pub stock_id: i32,
    pub symbol: String,
    pub open: String,
    pub high: String,
    pub low: String,
    pub close: String,
    pub volume: String,
    /// Time of the summary, milliseconds since the Unix epoch.
    pub trade_time_ms: i64,
}

/// What becomes of one symbol in a persist cycle.
#[derive(Clone, Copy, Debug, PartialEq, Eq, Structural)]
pub enum Disposition {
    /// One row is inserted, with this id and time.
    Row(i32, i64),
    /// The cache held nothing for the symbol.
    Empty,
    /// A numeric field or the time is missing or malformed.
    Incomplete,
    /// The store has no id for the symbol.
    MissingId,
}

/// The fate of symbol `sym` with cached summary `c`.
pub open spec fn disposition(sym: Seq<char>, c: CachedOhlcv, ids: Seq<(Seq<char>, i32)>) -> Disposition {
    if c.is_empty {
        Disposition::Empty
    } else if c.open is None || c.high is None || c.low is None || c.close is None || c.volume is None
        || c.updated_at is None || millis_of_rfc3339(c.updated_at->0@) is None {
        Disposition::Incomplete
    } else {
        match id_in(ids, sym) {
            None => Disposition::MissingId,
            Some(id) => Disposition::Row(id, millis_of_rfc3339(c.updated_at->0@)->0),
        }
    }
}

/// `r` is the row of symbol `sym` with summary `c`, id `id` and time `ms`.
pub open spec fn is_row_of(r: PriceRow, sym: Seq<char>, c: CachedOhlcv, id: i32, ms: i64) -> bool {
    &&& r.stock_id == id
    &&& r.symbol@ == sym
    &&& c.open is Some && r.open@ == c.open->0@
    &&& c.high is Some && r.high@ == c.high->0@
    &&& c.low is Some && r.low@ == c.low->0@
    &&& c.close is Some && r.close@ == c.close->0@
    &&& c.volume is Some && r.volume@ == c.volume->0@
    &&& r.trade_time_ms == ms
}

/// Indices, among the first `n` symbols, of those that yield a row.
pub open spec fn row_indices(
    syms: Seq<String>,
    cs: Seq<CachedOhlcv>,
    ids: Seq<(Seq<char>, i32)>,
    n: nat,
) -> Seq<int>
    decreases n,
{
    if n == 0 {
        seq![]
    } else if disposition(syms[n - 1]@, cs[n - 1], ids) is Row {
        row_indices(syms, cs, ids, (n - 1) as nat).push(n - 1)
    } else {
        row_indices(syms, cs, ids, (n - 1) as nat)
    }
}

/// How many of the first `n` symbols have disposition `d` (ignoring the id
/// and time of a row).
pub open spec fn count_of(
    syms: Seq<String>,
    cs: Seq<CachedOhlcv>,
    ids: Seq<(Seq<char>, i32)>,
    n: nat,
    d: Disposition,
) -> nat
    decreases n,
{
    if n == 0 {
        0
    } else {
        count_of(syms, cs, ids, (n - 1) as nat, d) + if same_kind(
            disposition(syms[n - 1]@, cs[n - 1], ids),
            d,
        ) {
            1nat
        } else {
            0nat
        }
    }
}

pub open spec fn same_kind(a: Disposition, b: Disposition) -> bool {
    match (a, b) {
        (Disposition::Row(_, _), Disposition::Row(_, _)) => true,
        (Disposition::Empty, Disposition::Empty) => true,
        (Disposition::Incomplete, Disposition::Incomplete) => true,
        (Disposition::MissingId, Disposition::MissingId) => true,
        _ => false,
    }
}

/// The rows of one persist cycle and the number of symbols skipped, by cause.
#[derive(Clone, Debug)]
pub struct PersistBatch {
    pub rows: Vec<PriceRow>,
    pub skipped_empty: usize,
    pub skipped_incomplete: usize,
    pub skipped_missing_id: usize,
}

impl PersistBatch {
    /// Symbols skipped for any cause.
    pub fn skipped(&self) -> (r: usize)
        requires
            self.skipped_empty + self.skipped_incomplete + self.skipped_missing_id <= usize::MAX,
        ensures
            r == self.skipped_empty + self.skipped_incomplete + self.skipped_missing_id,
    {
        self.skipped_empty + self.skipped_incomplete + self.skipped_missing_id
    }
}

/// The disposition of one symbol, computed.
pub fn dispose(sym: &String, c: &CachedOhlcv, ids: &SymbolIdMap) -> (r: Disposition)
    ensures
        r == disposition(sym@, *c, ids@),
{
    if c.is_empty {
        return Disposition::Empty;
    }
    if c.open.is_none() || c.high.is_none() || c.low.is_none() || c.close.is_none()
        || c.volume.is_none() {
        return Disposition::Incomplete;
    }
    let ms: i64 = match &c.updated_at {
        None => {
            return Disposition::Incomplete;
        },
        Some(text) => match parse_rfc3339_millis(text.as_str()) {
            None => {
                return Disposition::Incomplete;
            },
            Some(ms) => ms,
        },
    };
    match ids.get(sym) {
        None => Disposition::MissingId,
        Some(id) => Disposition::Row(id, ms),
    }
}

fn text_of(o: &Option<String>) -> (r: String)
    requires
        o is Some,
    ensures
        r@ == o->0@,
{
    match o {
        Some(s) => s.clone(),
        None => String::new(),
    }
}

/// Builds the rows of one persist cycle from the symbol set and the cached
/// summary of each symbol, in the same order (pairs beyond the shorter list
/// are ignored). A symbol yields one row where its summary is complete and
/// the store knows its id, and is otherwise skipped and counted by cause.
pub fn build_batch(syms: &Vec<String>, cached: &Vec<CachedOhlcv>, ids: &SymbolIdMap) -> (r:
    PersistBatch)
    ensures
        ({
            let n = if syms.len() <= cached.len() {
                syms.len()
            } else {
                cached.len()
            } as nat;
            let idx = row_indices(syms@, cached@, ids@, n);
            &&& r.rows.len() == idx.len()
            &&& forall|k: int|
                0 <= k < idx.len() ==> {
                    let i = #[trigger] idx[k];
                    let d = disposition(syms@[i]@, cached@[i], ids@);
                    is_row_of(r.rows@[k], syms@[i]@, cached@[i], d->Row_0, d->Row_1)
                }
            &&& r.skipped_empty == count_of(syms@, cached@, ids@, n, Disposition::Empty)
            &&& r.skipped_incomplete == count_of(syms@, cached@, ids@, n, Disposition::Incomplete)
            &&& r.skipped_missing_id == count_of(syms@, cached@, ids@, n, Disposition::MissingId)
            &&& r.rows.len() + r.skipped_empty + r.skipped_incomplete + r.skipped_missing_id == n
        }),
{
    let n: usize = if syms.len() <= cached.len() {
        syms.len()
    } else {
        cached.len()
    };
    let mut rows: Vec<PriceRow> = Vec::new();
    let mut skipped_empty: usize = 0;
    let mut skipped_incomplete: usize = 0;
    let mut skipped_missing_id: usize = 0;
    let mut i: usize = 0;
    while i < n
        invariant
            n <= syms.len(),
            n <= cached.len(),
            i <= n,
            rows.len() == row_indices(syms@, cached@, ids@, i as nat).len(),
            forall|k: int|
                0 <= k < row_indices(syms@, cached@, ids@, i as nat).len() ==> {
                    let j = #[trigger] row_indices(syms@, cached@, ids@, i as nat)[k];
                    let d = disposition(syms@[j]@, cached@[j], ids@);
                    is_row_of(rows@[k], syms@[j]@, cached@[j], d->Row_0, d->Row_1)
                },
            skipped_empty == count_of(syms@, cached@, ids@, i as nat, Disposition::Empty),
            skipped_incomplete == count_of(syms@, cached@, ids@, i as nat, Disposition::Incomplete),
            skipped_missing_id == count_of(syms@, cached@, ids@, i as nat, Disposition::MissingId),
            skipped_empty <= i,
            skipped_incomplete <= i,
            skipped_missing_id <= i,
        decreases n - i,
    {
        let c = &cached[i];
        let sym = &syms[i];
        let d = dispose(sym, c, ids);
        proof {
            lemma_indices_below(syms@, cached@, ids@, i as nat);
        }
        match d {
            Disposition::Empty => {
                skipped_empty = skipped_empty + 1;
            },
            Disposition::Incomplete => {
                skipped_incomplete = skipped_incomplete + 1;
            },
            Disposition::MissingId => {
                skipped_missing_id = skipped_missing_id + 1;
            },
            Disposition::Row(id, ms) => {
                let row = PriceRow {
                    stock_id: id,
                    symbol: sym.clone(),
                    open: text_of(&c.open),
                    high: text_of(&c.high),
                    low: text_of(&c.low),
                    close: text_of(&c.close),
                    volume: text_of(&c.volume),
                    trade_time_ms: ms,
                };
                rows.push(row);
            },
        }
        i = i + 1;
    }
    proof {
        lemma_batch_accounts(syms@, cached@, ids@, n as nat);
    }
    PersistBatch { rows, skipped_empty, skipped_incomplete, skipped_missing_id }
}

/// A symbol among the first `n` yields a row exactly when its disposition is
/// a row: one with a missing or malformed field, an unparseable time or no
/// id in the store yields none.
pub proof fn lemma_rows_exactly_complete(
    syms: Seq<String>,
    cs: Seq<CachedOhlcv>,
    ids: Seq<(Seq<char>, i32)>,
    n: nat,
    i: int,
)
    requires
        0 <= i < n,
    ensures
        row_indices(syms, cs, ids, n).contains(i) <==> disposition(syms[i]@, cs[i], ids) is Row,
        (cs[i].is_empty || cs[i].open is None || cs[i].high is None || cs[i].low is None
            || cs[i].close is None || cs[i].volume is None || cs[i].updated_at is None
            || millis_of_rfc3339(cs[i].updated_at->0@) is None || id_in(ids, syms[i]@) is None)
            ==> !row_indices(syms, cs, ids, n).contains(i),
    decreases n,
{
    lemma_indices_below(syms, cs, ids, (n - 1) as nat);
    let prev = row_indices(syms, cs, ids, (n - 1) as nat);
    if i < n - 1 {
        lemma_rows_exactly_complete(syms, cs, ids, (n - 1) as nat, i);
        if disposition(syms[n - 1]@, cs[n - 1], ids) is Row {
            let cur = prev.push(n - 1);
            if prev.contains(i) {
                let k = choose|k: int| 0 <= k < prev.len() && prev[k] == i;
                assert(cur[k] == i);
            }
            if cur.contains(i) {
                let k = choose|k: int| 0 <= k < cur.len() && cur[k] == i;
                assert(k < prev.len());
                assert(prev[k] == i);
            }
        }
    } else {
        if disposition(syms[n - 1]@, cs[n - 1], ids) is Row {
            assert(prev.push(n - 1)[prev.len() as int] == i);
        } else {
            if prev.contains(i) {
                let k = choose|k: int| 0 <= k < prev.len() && prev[k] == i;
                assert(prev[k] < n - 1);
            }
        }
    }
}

/// Every symbol of a cycle is accounted for once: as a row or as a skip of
/// one cause.
pub proof fn lemma_batch_accounts(
    syms: Seq<String>,
    cs: Seq<CachedOhlcv>,
    ids: Seq<(Seq<char>, i32)>,
    n: nat,
)
    ensures
        row_indices(syms, cs, ids, n).len() + count_of(syms, cs, ids, n, Disposition::Empty)
            + count_of(syms, cs, ids, n, Disposition::Incomplete) + count_of(
            syms,
            cs,
            ids,
            n,
            Disposition::MissingId,
        ) == n,
    decreases n,
{
    if n > 0 {
        lemma_batch_accounts(syms, cs, ids, (n - 1) as nat);
    }
}

proof fn lemma_indices_below(
    syms: Seq<String>,
    cs: Seq<CachedOhlcv>,
    ids: Seq<(Seq<char>, i32)>,
    n: nat,
)
    ensures
        forall|k: int|
            0 <= k < row_indices(syms, cs, ids, n).len() ==> 0 <= #[trigger] row_indices(
                syms,
                cs,
                ids,
                n,
            )[k] < n,
    decreases n,
{
    if n > 0 {
        let prev = row_indices(syms, cs, ids, (n - 1) as nat);
        lemma_indices_below(syms, cs, ids, (n - 1) as nat);
        assert forall|k: int| 0 <= k < row_indices(syms, cs, ids, n).len() implies 0
            <= #[trigger] row_indices(syms, cs, ids, n)[k] < n by {
            if k < prev.len() {
                assert(prev[k] < n - 1);
            }
        }
    }
}

/// How far a persist cycle got.
#[derive(Clone, Copy, Debug, PartialEq, Eq, Structural)]
pub enum CycleEnd {
    /// Reading the symbol set failed or timed out.
    SymbolsFailed,
    /// Reading the cached summaries failed or timed out.
    SummariesFailed,
    /// The cycle ran to its end, whatever the insert did.
    Completed,
}

/// Pause before the next persist cycle: a short one after a failed cache
/// read, else what is left of the interval after `elapsed_ms` of work, so
/// that an overrunning cycle is followed by the next at once.
pub fn pause_after_cycle(end: CycleEnd, elapsed_ms: u64) -> (r: u64)
    ensures
        end != CycleEnd::Completed ==> r == CACHE_RETRY_PAUSE_MS,
        end == CycleEnd::Completed && elapsed_ms <= PERSIST_INTERVAL_MS ==> r
            == PERSIST_INTERVAL_MS - elapsed_ms,
        end == CycleEnd::Completed && elapsed_ms > PERSIST_INTERVAL_MS ==> r == 0,
{
    match end {
        CycleEnd::Completed => remaining_sleep_ms(PERSIST_INTERVAL_MS, elapsed_ms),
        _ => CACHE_RETRY_PAUSE_MS,
    }
}

} // verus!
