//! Coordination core of a market-data collector: reconnect backoff and
//! subscriptions of the feed reader, per-symbol OHLCV aggregation, the batch
//! persister's row building, and the supervisor that keeps ingestion and the
//! daily maintenance window apart.
use vstd::prelude::*;

pub mod backoff;
pub mod ingest;
pub mod maintenance;
pub mod ohlcv;
pub mod persister;
pub mod rfc3339;
pub mod supervisor;
pub mod timing;

verus! {

} // verus!
