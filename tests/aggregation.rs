use data_collection::ingest::{plan_subscriptions, same_symbols, TradeQueue};
use data_collection::ohlcv::{Ohlcv, OhlcvBook, Trade, TradeError};
use data_collection::persister::{
    build_batch, dispose, pause_after_cycle, CachedOhlcv, CycleEnd, Disposition, SymbolIdMap,
};

fn trade(sym: &str, price: u64, volume: u64, time_ms: i64) -> Trade {
    Trade { symbol: sym.to_string(), price, volume, time_ms }
}

fn complete(ts: &str) -> CachedOhlcv {
    CachedOhlcv {
        is_empty: false,
        open: Some("100".to_string()),
        high: Some("102".to_string()),
        low: Some("99".to_string()),
        close: Some("99".to_string()),
        volume: Some("18".to_string()),
        updated_at: Some(ts.to_string()),
    }
}

fn empty() -> CachedOhlcv {
    CachedOhlcv {
        is_empty: true,
        open: None,
        high: None,
        low: None,
        close: None,
        volume: None,
        updated_at: None,
    }
}

#[test]
fn three_trades_make_one_summary() {
    let mut book = OhlcvBook::new();
    book.apply(&trade("AAPL", 100, 10, 1_700_000_000_000)).unwrap();
    book.apply(&trade("AAPL", 102, 5, 1_700_000_001_000)).unwrap();
    let u = book.apply(&trade("AAPL", 99, 3, 1_700_000_002_000)).unwrap();
    let want = Ohlcv { open: 100, high: 102, low: 99, close: 99, volume: 18 };
    assert_eq!(u.ohlcv, want);
    assert_eq!(u.symbol, "AAPL");
    assert_eq!(book.summary_of(&"AAPL".to_string()), Some(want));
}

#[test]
fn symbols_are_summarized_apart() {
    let mut book = OhlcvBook::new();
    book.apply(&trade("AAPL", 100, 1, 0)).unwrap();
    book.apply(&trade("MSFT", 300, 2, 0)).unwrap();
    book.apply(&trade("AAPL", 90, 4, 0)).unwrap();
    book.apply(&trade("MSFT", 310, 0, 0)).unwrap();
    assert_eq!(
        book.summary_of(&"AAPL".to_string()),
        Some(Ohlcv { open: 100, high: 100, low: 90, close: 90, volume: 5 })
    );
    assert_eq!(
        book.summary_of(&"MSFT".to_string()),
        Some(Ohlcv { open: 300, high: 310, low: 300, close: 310, volume: 2 })
    );
    assert_eq!(book.summary_of(&"TSLA".to_string()), None);
    assert_eq!(book.symbol_count(), 2);
}

#[test]
fn update_carries_rfc3339_time() {
    let mut book = OhlcvBook::new();
    let u = book.apply(&trade("AAPL", 1, 1, 1_000)).unwrap();
    assert_eq!(u.updated_at, "1970-01-01T00:00:01+00:00");
}

#[test]
fn closing_window_starts_afresh() {
    let mut book = OhlcvBook::new();
    book.apply(&trade("AAPL", 100, 10, 0)).unwrap();
    book.apply(&trade("MSFT", 100, 10, 0)).unwrap();
    assert_eq!(book.close_window(), 2);
    assert_eq!(book.summary_of(&"AAPL".to_string()), None);
    let u = book.apply(&trade("AAPL", 50, 1, 0)).unwrap();
    assert_eq!(u.ohlcv, Ohlcv { open: 50, high: 50, low: 50, close: 50, volume: 1 });
    assert_eq!(book.close_window(), 1);
    assert_eq!(book.close_window(), 0);
}

#[test]
fn out_of_range_time_is_refused() {
    let mut book = OhlcvBook::new();
    let r = book.apply(&trade("AAPL", 100, 10, i64::MAX));
    assert_eq!(r.unwrap_err(), TradeError::InvalidTimestamp);
    assert_eq!(book.summary_of(&"AAPL".to_string()), None);
}

#[test]
fn volume_overflow_is_refused() {
    let mut book = OhlcvBook::new();
    book.apply(&trade("AAPL", 100, u64::MAX, 0)).unwrap();
    let r = book.apply(&trade("AAPL", 120, 1, 0));
    assert_eq!(r.unwrap_err(), TradeError::VolumeOverflow);
    assert_eq!(
        book.summary_of(&"AAPL".to_string()),
        Some(Ohlcv { open: 100, high: 100, low: 100, close: 100, volume: u64::MAX })
    );
}

#[test]
fn full_queue_drops_newest() {
    let mut q = TradeQueue::new(2);
    assert!(q.offer(trade("A", 1, 1, 0)));
    assert!(q.offer(trade("B", 2, 1, 0)));
    assert!(!q.offer(trade("C", 3, 1, 0)));
    assert_eq!(q.dropped(), 1);
    assert_eq!(q.len(), 2);
    assert_eq!(q.take().unwrap().symbol, "A");
    assert!(q.offer(trade("D", 4, 1, 0)));
    assert_eq!(q.take().unwrap().symbol, "B");
    assert_eq!(q.take().unwrap().symbol, "D");
    assert!(q.take().is_none());
    assert_eq!(q.dropped(), 1);
}

#[test]
fn subscriptions_follow_changes() {
    let mut subscribed: Vec<String> = Vec::new();
    let cur = vec!["AAPL".to_string(), "MSFT".to_string()];
    assert_eq!(plan_subscriptions(&mut subscribed, cur.clone()), cur);
    assert_eq!(subscribed, cur);
    assert!(plan_subscriptions(&mut subscribed, cur.clone()).is_empty());
    let more = vec!["AAPL".to_string(), "MSFT".to_string(), "TSLA".to_string()];
    assert_eq!(plan_subscriptions(&mut subscribed, more.clone()), more);
    assert_eq!(subscribed, more);
    assert!(plan_subscriptions(&mut subscribed, Vec::new()).is_empty());
    assert!(subscribed.is_empty());
    assert!(!same_symbols(&cur, &more));
    assert!(same_symbols(&more, &more.clone()));
}

#[test]
fn only_complete_symbol_is_inserted() {
    let ids = SymbolIdMap::from_rows(vec![("AAPL".to_string(), 1), ("MSFT".to_string(), 2)]);
    let syms = vec!["AAPL".to_string(), "MSFT".to_string()];
    let cached = vec![complete("2024-01-02T03:04:05Z"), empty()];
    let b = build_batch(&syms, &cached, &ids);
    assert_eq!(b.rows.len(), 1);
    let r = &b.rows[0];
    assert_eq!(r.stock_id, 1);
    assert_eq!(r.symbol, "AAPL");
    assert_eq!((r.open.as_str(), r.high.as_str(), r.low.as_str()), ("100", "102", "99"));
    assert_eq!((r.close.as_str(), r.volume.as_str()), ("99", "18"));
    assert_eq!(r.trade_time_ms, 1_704_164_645_000);
    assert_eq!(b.skipped(), 1);
    assert_eq!(b.skipped_empty, 1);
}

#[test]
fn incomplete_or_unmapped_symbols_are_skipped() {
    let ids = SymbolIdMap::from_rows(vec![("A".to_string(), 1), ("B".to_string(), 2), ("C".to_string(), 3)]);
    let mut no_close = complete("2024-01-02T03:04:05Z");
    no_close.close = None;
    let bad_time = complete("yesterday");
    let syms = vec!["A".to_string(), "B".to_string(), "X".to_string(), "C".to_string()];
    let cached = vec![no_close, bad_time, complete("2024-01-02T03:04:05+01:00"), complete("2024-01-02T03:04:05.250Z")];
    let b = build_batch(&syms, &cached, &ids);
    assert_eq!(b.rows.len(), 1);
    assert_eq!(b.rows[0].stock_id, 3);
    assert_eq!(b.rows[0].trade_time_ms, 1_704_164_645_250);
    assert_eq!(b.skipped_incomplete, 2);
    assert_eq!(b.skipped_missing_id, 1);
    assert_eq!(b.skipped_empty, 0);
    assert_eq!(dispose(&"X".to_string(), &cached[2], &ids), Disposition::MissingId);
}

#[test]
fn later_id_row_wins() {
    let ids = SymbolIdMap::from_rows(vec![("A".to_string(), 1), ("A".to_string(), 7)]);
    assert_eq!(ids.get(&"A".to_string()), Some(7));
    assert_eq!(ids.get(&"B".to_string()), None);
    assert_eq!(ids.len(), 2);
    let d = dispose(&"A".to_string(), &complete("2024-01-02T04:04:05+01:00"), &ids);
    assert_eq!(d, Disposition::Row(7, 1_704_164_645_000));
}

#[test]
fn extra_cached_entries_are_ignored() {
    let ids = SymbolIdMap::from_rows(vec![("A".to_string(), 1)]);
    let syms = vec!["A".to_string()];
    let cached = vec![complete("2024-01-02T03:04:05Z"), complete("2024-01-02T03:04:05Z")];
    let b = build_batch(&syms, &cached, &ids);
    assert_eq!(b.rows.len(), 1);
    assert_eq!(b.skipped(), 0);
}

#[test]
fn persist_pause_depends_on_cycle_end() {
    assert_eq!(pause_after_cycle(CycleEnd::SymbolsFailed, 200), 1_000);
    assert_eq!(pause_after_cycle(CycleEnd::SummariesFailed, 20_000), 1_000);
    assert_eq!(pause_after_cycle(CycleEnd::Completed, 2_500), 7_500);
    assert_eq!(pause_after_cycle(CycleEnd::Completed, 11_000), 0);
}
