//! Messages from the feed to the screen.

use crate::analysis::engine::{BtcState, CoinMetrics};
use crate::double::Double;
use crate::feeds::types::{BackfillProgress, Candle, CoinInfo};
use vstd::prelude::*;

verus! {

/// A message from the feed to the screen.
#[derive(Clone, Debug)]
pub enum FeedMessage {
    /// All coins of the exchange.
    CoinList(Vec<CoinInfo>),
    /// Candles from the backfill.
    CandleBatch(Vec<Candle>),
    /// A candle from the live connection.
    LiveCandle(Candle),
    /// How far the backfill has come.
    Progress(BackfillProgress),
    /// Mid prices of coins.
    PriceUpdate(Vec<(String, Double)>),
    /// Newly computed metrics.
    MetricsUpdate(Vec<CoinMetrics>),
    /// The state of BTC.
    BtcStateUpdate(BtcState),
    /// The size of the database file.
    DbSize(u64),
    /// Whether the live connection stands.
    Connected(bool),
    /// Something went wrong.
    Error(String),
}

} // verus!
