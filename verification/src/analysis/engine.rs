//! Metrics of coins and the state of BTC.
//!
//! The engine picks the numbers that enter a computation and decides what its
//! results mean. The arithmetic on doubles itself happens at the caller's.

use crate::double::Double;
use crate::feeds::types::{Candle, CoinInfo, Interval, PerInterval, all_intervals};
use crate::text::same_text;
use vstd::prelude::*;

verus! {

/// Computed metrics of one coin.
#[derive(Debug)]
pub struct CoinMetrics {
    pub coin: String,
    pub is_perp: bool,
    pub price: Double,
    pub change_24h_pct: Double,
    pub volume_24h: Double,
    pub open_interest: Double,
    pub funding_rate: Double,
    /// Standard deviation of log returns.
    pub volatility: PerInterval,
    /// Correlation with BTC.
    pub btc_correlation: PerInterval,
    /// Sensitivity to BTC.
    pub btc_beta: PerInterval,
    /// Return over the last candle less that of BTC.
    pub vs_btc: PerInterval,
    pub relative_strength: Double,
    pub score: Double,
}

/// What the metrics of one coin say.
pub struct MetricsModel {
    pub coin: Seq<char>,
    pub is_perp: bool,
    pub price: Double,
    pub change_24h_pct: Double,
    pub volume_24h: Double,
    pub open_interest: Double,
    pub funding_rate: Double,
    pub volatility: PerInterval,
    pub btc_correlation: PerInterval,
    pub btc_beta: PerInterval,
    pub vs_btc: PerInterval,
    pub relative_strength: Double,
    pub score: Double,
}

impl View for CoinMetrics {
    type V = MetricsModel;

    open spec fn view(&self) -> MetricsModel {
        MetricsModel {
            coin: self.coin@,
            is_perp: self.is_perp,
            price: self.price,
            change_24h_pct: self.change_24h_pct,
            volume_24h: self.volume_24h,
            open_interest: self.open_interest,
            funding_rate: self.funding_rate,
            volatility: self.volatility,
            btc_correlation: self.btc_correlation,
            btc_beta: self.btc_beta,
            vs_btc: self.vs_btc,
            relative_strength: self.relative_strength,
            score: self.score,
        }
    }
}

/// Metrics of a coin of which nothing is known yet: every number is zero.
pub open spec fn blank_metrics(coin: Seq<char>, is_perp: bool) -> MetricsModel {
    MetricsModel {
        coin,
        is_perp,
        price: Double::zero(),
        change_24h_pct: Double::zero(),
        volume_24h: Double::zero(),
        open_interest: Double::zero(),
        funding_rate: Double::zero(),
        volatility: PerInterval::none(),
        btc_correlation: PerInterval::none(),
        btc_beta: PerInterval::none(),
        vs_btc: PerInterval::none(),
        relative_strength: Double::zero(),
        score: Double::zero(),
    }
}

impl CoinMetrics {
    /// Metrics of a coin of which nothing is known yet.
    pub fn blank(coin: &str, is_perp: bool) -> (r: CoinMetrics)
        ensures
            r@ == blank_metrics(coin@, is_perp),
    {
        CoinMetrics {
            coin: coin.to_owned(),
            is_perp,
            price: Double::zero(),
            change_24h_pct: Double::zero(),
            volume_24h: Double::zero(),
            open_interest: Double::zero(),
            funding_rate: Double::zero(),
            volatility: PerInterval::none(),
            btc_correlation: PerInterval::none(),
            btc_beta: PerInterval::none(),
            vs_btc: PerInterval::none(),
            relative_strength: Double::zero(),
            score: Double::zero(),
        }
    }
}

impl Clone for CoinMetrics {
    fn clone(&self) -> (r: Self)
        ensures
            r == *self,
    {
        CoinMetrics {
            coin: self.coin.clone(),
            is_perp: self.is_perp,
            price: self.price,
            change_24h_pct: self.change_24h_pct,
            volume_24h: self.volume_24h,
            open_interest: self.open_interest,
            funding_rate: self.funding_rate,
            volatility: self.volatility,
            btc_correlation: self.btc_correlation,
            btc_beta: self.btc_beta,
            vs_btc: self.vs_btc,
            relative_strength: self.relative_strength,
            score: self.score,
        }
    }
}

/// The state of BTC's market.
#[derive(Clone, Copy, Debug)]
pub struct BtcState {
    pub price: Double,
    pub change_24h_pct: Double,
    pub drawdown_pct: Double,
    pub local_high: Double,
    pub is_dipping: bool,
    pub dip_duration_secs: i64,
}

/// A state in which nothing but the price is known.
pub open spec fn blank_btc_state(price: Double) -> BtcState {
    BtcState {
        price,
        change_24h_pct: Double::zero(),
        drawdown_pct: Double::zero(),
        local_high: Double::zero(),
        is_dipping: false,
        dip_duration_secs: 0,
    }
}

impl Default for BtcState {
    fn default() -> (r: Self)
        ensures
            r == blank_btc_state(Double::zero()),
    {
        BtcState {
            price: Double::zero(),
            change_24h_pct: Double::zero(),
            drawdown_pct: Double::zero(),
            local_high: Double::zero(),
            is_dipping: false,
            dip_duration_secs: 0,
        }
    }
}

/// The closing prices of candles.
pub open spec fn closes(s: Seq<Candle>) -> Seq<Double> {
    s.map_values(|c: Candle| c.close)
}

/// The highest prices of candles.
pub open spec fn highs(s: Seq<Candle>) -> Seq<Double> {
    s.map_values(|c: Candle| c.high)
}

/// The pairs of neighbouring closing prices, both positive, among the first `n`
/// pairs.
pub open spec fn positive_pairs(prices: Seq<Double>, n: int) -> Seq<(Double, Double)>
    decreases n,
{
    if n <= 0 {
        Seq::empty()
    } else {
        let before = positive_pairs(prices, n - 1);
        if Double::zero().lt(prices[n - 1]) && Double::zero().lt(prices[n]) {
            before.push((prices[n - 1], prices[n]))
        } else {
            before
        }
    }
}

/// The first and the last price that a return is computed from; none where there
/// are fewer than two or the first one is zero.
pub open spec fn ends_of(prices: Seq<Double>) -> Option<(Double, Double)> {
    if prices.len() < 2 || (!prices[0].nan() && prices[0].rank() == 0) {
        None
    } else {
        Some((prices[0], prices.last()))
    }
}

/// The last `n` of a sequence, or all of it where it is shorter.
pub open spec fn tail<T>(s: Seq<T>, n: int) -> Seq<T> {
    if s.len() <= n {
        s
    } else {
        s.skip(s.len() - n)
    }
}

/// The smallest finite double.
pub open spec fn lowest() -> Double {
    Double { bits: 0xFFEF_FFFF_FFFF_FFFF }
}

/// The highest of the first `n` prices, those that are not a number left aside.
pub open spec fn highest(prices: Seq<Double>, n: int) -> Double
    decreases n,
{
    if n <= 0 {
        lowest()
    } else {
        let before = highest(prices, n - 1);
        if before.lt(prices[n - 1]) {
            prices[n - 1]
        } else {
            before
        }
    }
}

/// How many of the last prices lie below a level, counted back to the first that
/// does not.
pub open spec fn run_below(prices: Seq<Double>, level: Double) -> nat
    decreases prices.len(),
{
    if prices.len() > 0 && prices.last().lt(level) {
        1 + run_below(prices.drop_last(), level)
    } else {
        0
    }
}

/// What the state of BTC is computed from.
#[derive(Clone, Copy, Debug)]
pub struct BtcFrame {
    pub local_high: Double,
    /// The price that the drawdown is counted from: the local high, where it is
    /// positive.
    pub drawdown_from: Option<Double>,
    /// The price that the change over 24 hours is counted from: the close 24
    /// candles from the end, where there are that many and it is positive.
    pub change_from: Option<Double>,
}

/// The price, where it is positive.
pub open spec fn if_positive(x: Double) -> Option<Double> {
    if Double::zero().lt(x) {
        Some(x)
    } else {
        None
    }
}

/// What the state of BTC is computed from.
pub open spec fn frame_of(s: Seq<Candle>) -> BtcFrame {
    let high = highest(highs(s), s.len() as int);
    BtcFrame {
        local_high: high,
        drawdown_from: if_positive(high),
        change_from: if s.len() >= 24 {
            if_positive(s[s.len() - 24].close)
        } else {
            None
        },
    }
}

/// Results of the arithmetic on a [`BtcFrame`].
#[derive(Clone, Copy, Debug)]
pub struct BtcFigures {
    /// How far the price lies from the local high, in per cent of it.
    pub drawdown_pct: Double,
    /// How far the price lies from that of 24 hours ago, in per cent of it.
    pub change_24h_pct: Double,
    /// The local high less two per cent.
    pub dip_level: Double,
}

/// A result, where there was something to compute it from, or else zero.
pub open spec fn result_if(from: Option<Double>, result: Double) -> Double {
    if from is Some {
        result
    } else {
        Double::zero()
    }
}

/// The state of BTC: without candles only the price is known; a drawdown of more
/// than two per cent is a dip, and the dip has lasted an hour for each of the
/// last candles that closed below the dip level.
pub open spec fn btc_state_of(s: Seq<Candle>, price: Double, f: BtcFigures) -> BtcState {
    if s.len() == 0 {
        blank_btc_state(price)
    } else {
        let frame = frame_of(s);
        let drawdown = result_if(frame.drawdown_from, f.drawdown_pct);
        BtcState {
            price,
            change_24h_pct: result_if(frame.change_from, f.change_24h_pct),
            drawdown_pct: drawdown,
            local_high: frame.local_high,
            is_dipping: drawdown.lt(dip_threshold()),
            dip_duration_secs: (run_below(closes(s), f.dip_level) * 3600) as i64,
        }
    }
}

/// Minus two.
pub open spec fn dip_threshold() -> Double {
    Double { bits: 0xC000_0000_0000_0000 }
}

/// The price of the first coin of that name; zero where there is none.
pub open spec fn price_of_coin(coins: Seq<CoinInfo>, name: Seq<char>) -> Double
    decreases coins.len(),
{
    if coins.len() == 0 {
        Double::zero()
    } else if coins[0].name@ == name {
        coins[0].price
    } else {
        price_of_coin(coins.skip(1), name)
    }
}

/// What the metrics of one timeframe are computed from.
#[derive(Debug)]
pub struct IntervalInputs {
    /// Pairs of closing prices of which log returns are taken.
    pub pairs: Vec<(Double, Double)>,
    pub btc_pairs: Vec<(Double, Double)>,
    /// First and last price of the last two candles.
    pub ends: Option<(Double, Double)>,
    pub btc_ends: Option<(Double, Double)>,
}

/// Results of the arithmetic on [`IntervalInputs`].
#[derive(Clone, Copy, Debug)]
pub struct IntervalStats {
    pub volatility: Double,
    pub correlation: Double,
    pub beta: Double,
    pub vs_btc: Double,
}

/// Whether what was computed for a timeframe stands in the metrics.
pub open spec fn holds_stats(m: CoinMetrics, i: Interval, stats: Option<IntervalStats>) -> bool {
    match stats {
        Some(x) => {
            &&& m.volatility.of(i) == Some(x.volatility)
            &&& m.btc_correlation.of(i) == Some(x.correlation)
            &&& m.btc_beta.of(i) == Some(x.beta)
            &&& m.vs_btc.of(i) == Some(x.vs_btc)
        },
        None => {
            &&& m.volatility.of(i) is None
            &&& m.btc_correlation.of(i) is None
            &&& m.btc_beta.of(i) is None
            &&& m.vs_btc.of(i) is None
        },
    }
}

/// Whether metrics are those of a coin: its market data, what was computed for each
/// timeframe, and as its price the close of the newest five-minute candle, where
/// there is one.
pub open spec fn is_row_of(
    m: CoinMetrics,
    coin: CoinInfo,
    stats: Seq<Option<IntervalStats>>,
    latest_m5: Seq<Candle>,
) -> bool {
    &&& m.coin@ == coin.name@
    &&& m.is_perp == coin.is_perp
    &&& m.price == if latest_m5.len() > 0 {
        latest_m5.last().close
    } else {
        coin.price
    }
    &&& m.change_24h_pct == coin.change_24h_pct
    &&& m.volume_24h == coin.volume_24h
    &&& m.open_interest == coin.open_interest
    &&& m.funding_rate == coin.funding_rate
    &&& m.relative_strength == Double::zero()
    &&& m.score == Double::zero()
    &&& forall|k: int|
        0 <= k < stats.len() ==> holds_stats(m, all_intervals()[k], #[trigger] stats[k])
}

/// Whether inputs are those of a timeframe, from a coin's candles and BTC's: none
/// where the coin has fewer than two candles; the comparison with BTC takes the last
/// two candles of each.
pub open spec fn are_inputs_of(
    r: Option<IntervalInputs>,
    candles: Seq<Candle>,
    btc: Seq<Candle>,
) -> bool {
    match r {
        Some(x) => {
            &&& candles.len() >= 2
            &&& x.pairs@ == positive_pairs(closes(candles), candles.len() - 1)
            &&& x.btc_pairs@ == positive_pairs(closes(btc), btc.len() - 1)
            &&& x.ends == ends_of(closes(tail(candles, 2)))
            &&& x.btc_ends == ends_of(closes(tail(btc, 2)))
        },
        None => candles.len() < 2,
    }
}

/// Whether rows are the metrics of coins: one for each, in their order.
pub open spec fn are_rows_of(
    rows: Seq<CoinMetrics>,
    coins: Seq<CoinInfo>,
    stats: Seq<Vec<Option<IntervalStats>>>,
    latest_m5: Seq<Vec<Candle>>,
) -> bool {
    &&& rows.len() == coins.len()
    &&& forall|k: int|
        0 <= k < rows.len() ==> is_row_of(
            #[trigger] rows[k],
            coins[k],
            stats[k]@,
            latest_m5[k]@,
        )
}

/// What the composite score is computed from.
#[derive(Debug)]
pub struct ScoreInputs {
    /// The volatilities whose average counts; zero where there are none.
    pub volatilities: Vec<Double>,
    /// The betas whose average counts; one where there are none.
    pub betas: Vec<Double>,
    /// The volume whose logarithm counts, where it is positive.
    pub volume: Option<Double>,
    pub relative_strength: Double,
}

/// One hundred.
pub open spec fn full_score() -> Double {
    Double { bits: 0x4059_0000_0000_0000 }
}

/// The local high is a number, not below any of the highest prices that are one,
/// and it is one of them or the smallest finite double.
pub proof fn local_high_is_highest(prices: Seq<Double>, n: int)
    requires
        0 <= n <= prices.len(),
    ensures
        !highest(prices, n).nan(),
        forall|i: int|
            0 <= i < n && !(#[trigger] prices[i]).nan() ==> prices[i].le(highest(prices, n)),
        highest(prices, n) == lowest() || exists|i: int|
            0 <= i < n && #[trigger] prices[i] == highest(prices, n),
    decreases n,
{
    if n > 0 {
        local_high_is_highest(prices, n - 1);
    }
}

/// A dip has lasted as many candles as lie below the level at the end without a
/// break: each of them does, and the one before them, if any, does not.
pub proof fn dip_is_the_longest_run(prices: Seq<Double>, level: Double)
    ensures
        run_below(prices, level) <= prices.len(),
        forall|i: int|
            prices.len() - run_below(prices, level) <= i < prices.len()
                ==> (#[trigger] prices[i]).lt(level),
        run_below(prices, level) < prices.len() ==> !prices[prices.len() - run_below(prices, level)
            - 1].lt(level),
    decreases prices.len(),
{
    if prices.len() > 0 && prices.last().lt(level) {
        let rest = prices.drop_last();
        dip_is_the_longest_run(rest, level);
        assert forall|i: int|
            prices.len() - run_below(prices, level) <= i < prices.len() implies (
        #[trigger] prices[i]).lt(level) by {
            if i < prices.len() - 1 {
                assert(rest[i] == prices[i]);
            }
        }
    }
}

/// Only positive prices enter a log return, and each pair is of neighbours.
pub proof fn return_pairs_are_positive_neighbours(prices: Seq<Double>, n: int)
    requires
        n < prices.len() || n <= 0,
    ensures
        positive_pairs(prices, n).len() <= if n > 0 {
            n
        } else {
            0
        },
        forall|i: int|
            0 <= i < positive_pairs(prices, n).len() ==> {
                let p = #[trigger] positive_pairs(prices, n)[i];
                &&& Double::zero().lt(p.0)
                &&& Double::zero().lt(p.1)
                &&& exists|k: int|
                    0 <= k < n && p == (#[trigger] prices[k], prices[k + 1])
            },
    decreases n,
{
    if n > 0 {
        return_pairs_are_positive_neighbours(prices, n - 1);
        let before = positive_pairs(prices, n - 1);
        let all = positive_pairs(prices, n);
        assert forall|i: int| 0 <= i < all.len() implies {
            let p = #[trigger] all[i];
            &&& Double::zero().lt(p.0)
            &&& Double::zero().lt(p.1)
            &&& exists|k: int| 0 <= k < n && p == (#[trigger] prices[k], prices[k + 1])
        } by {
            if i < before.len() {
                assert(all[i] == before[i]);
                let k = choose|k: int|
                    0 <= k < n - 1 && before[i] == (#[trigger] prices[k], prices[k + 1]);
                assert(0 <= k < n && all[i] == (prices[k], prices[k + 1]));
            } else {
                assert(all[i] == (prices[n - 1], prices[n - 1 + 1]));
            }
        }
    }
}

/// Where candles follow each other without a gap in positive prices, every pair
/// of neighbours enters: one return fewer than candles.
pub proof fn positive_prices_lose_no_return(prices: Seq<Double>, n: int)
    requires
        0 <= n,
        n < prices.len() || n == 0,
        forall|i: int| 0 <= i < prices.len() ==> Double::zero().lt(#[trigger] prices[i]),
    ensures
        positive_pairs(prices, n).len() == n,
        forall|i: int|
            0 <= i < n ==> #[trigger] positive_pairs(prices, n)[i] == (prices[i], prices[i + 1]),
    decreases n,
{
    if n > 0 {
        positive_prices_lose_no_return(prices, n - 1);
        let before = positive_pairs(prices, n - 1);
        assert forall|i: int| 0 <= i < n implies #[trigger] positive_pairs(prices, n)[i] == (
            prices[i],
            prices[i + 1],
        ) by {
            if i < n - 1 {
                assert(positive_pairs(prices, n)[i] == before[i]);
            }
        }
    }
}

pub struct AnalysisEngine;

impl AnalysisEngine {
    /// The pairs of neighbouring closing prices of which log returns are taken.
    pub fn return_pairs(candles: &[Candle]) -> (r: Vec<(Double, Double)>)
        ensures
            r@ == positive_pairs(closes(candles@), candles@.len() - 1),
    {
        let mut r: Vec<(Double, Double)> = Vec::new();
        let ghost prices = closes(candles@);
        let mut i: usize = 1;
        while i < candles.len()
            invariant
                1 <= i,
                i <= candles@.len() || (i == 1 && candles@.len() == 0),
                prices == closes(candles@),
                r@ == positive_pairs(prices, i - 1),
            decreases candles@.len() - i,
        {
            let a = candles[i - 1].close;
            let b = candles[i].close;
            assert(prices[i - 1] == a && prices[i as int] == b);
            if a.is_positive() && b.is_positive() {
                r.push((a, b));
            }
            i = i + 1;
        }
        r
    }

    /// The first and the last closing price, where a return can be computed.
    pub fn period_ends(candles: &[Candle]) -> (r: Option<(Double, Double)>)
        ensures
            r == ends_of(closes(candles@)),
            candles@.len() < 2 ==> r is None,
            candles@.len() >= 2 && candles@[0].close.bits != 0 && candles@[0].close.bits
                != 0x8000_0000_0000_0000 ==> r == Some(
                (candles@[0].close, candles@[candles@.len() - 1].close),
            ),
    {
        let n: usize = candles.len();
        if n < 2 {
            return None;
        }
        let first = candles[0].close;
        if first.is_zero() {
            None
        } else {
            Some((first, candles[n - 1].close))
        }
    }

    /// How many returns of two series stand side by side, where there are at least
    /// two: fewer say nothing of how the series move together.
    pub fn overlap(a: usize, b: usize) -> (r: Option<usize>)
        ensures
            r == ({
                let n = if a < b {
                    a
                } else {
                    b
                };
                if n < 2 {
                    None
                } else {
                    Some(n)
                }
            }),
    {
        let n: usize = if a < b {
            a
        } else {
            b
        };
        if n < 2 {
            None
        } else {
            Some(n)
        }
    }

    fn last_two(candles: &[Candle]) -> (r: Vec<Candle>)
        ensures
            r@ == tail(candles@, 2),
    {
        let mut r: Vec<Candle> = Vec::new();
        let n: usize = candles.len();
        let start: usize = if n <= 2 {
            0
        } else {
            n - 2
        };
        let mut i: usize = start;
        assert(candles@.subrange(start as int, i as int) =~= Seq::empty());
        while i < n
            invariant
                start <= i <= n,
                n == candles@.len(),
                r@ == candles@.subrange(start as int, i as int),
            decreases n - i,
        {
            r.push(candles[i].clone());
            i = i + 1;
            assert(r@ =~= candles@.subrange(start as int, i as int));
        }
        assert(r@ =~= tail(candles@, 2));
        r
    }

    /// What the metrics of one timeframe are computed from; none where the coin
    /// has fewer than two candles. The comparison with BTC takes the last two
    /// candles of each.
    pub fn interval_inputs(candles: &[Candle], btc: &[Candle]) -> (r: Option<IntervalInputs>)
        ensures
            are_inputs_of(r, candles@, btc@),
    {
        if candles.len() < 2 {
            return None;
        }
        let coin_last = Self::last_two(candles);
        let btc_last = Self::last_two(btc);
        Some(
            IntervalInputs {
                pairs: Self::return_pairs(candles),
                btc_pairs: Self::return_pairs(btc),
                ends: Self::period_ends(coin_last.as_slice()),
                btc_ends: Self::period_ends(btc_last.as_slice()),
            },
        )
    }

    /// What the metrics of a coin are computed from in each timeframe: its candles and
    /// BTC's of the same one.
    pub fn timeframe_inputs(candles: &Vec<Vec<Candle>>, btc: &Vec<Vec<Candle>>) -> (r: Vec<
        Option<IntervalInputs>,
    >)
        requires
            candles@.len() == all_intervals().len(),
            btc@.len() == all_intervals().len(),
        ensures
            r@.len() == all_intervals().len(),
            forall|k: int|
                0 <= k < r@.len() ==> are_inputs_of(
                    #[trigger] r@[k],
                    candles@[k]@,
                    btc@[k]@,
                ),
    {
        let mut r: Vec<Option<IntervalInputs>> = Vec::new();
        let mut k: usize = 0;
        while k < candles.len()
            invariant
                k <= candles@.len(),
                candles@.len() == btc@.len(),
                r@.len() == k,
                forall|j: int|
                    0 <= j < k ==> are_inputs_of(#[trigger] r@[j], candles@[j]@, btc@[j]@),
            decreases candles@.len() - k,
        {
            r.push(Self::interval_inputs(candles[k].as_slice(), btc[k].as_slice()));
            k = k + 1;
        }
        r
    }

    /// The metrics of coins: one row for each, in their order.
    pub fn metric_rows(
        coins: &[CoinInfo],
        stats: &Vec<Vec<Option<IntervalStats>>>,
        latest_m5: &Vec<Vec<Candle>>,
    ) -> (r: Vec<CoinMetrics>)
        requires
            stats@.len() == coins@.len(),
            latest_m5@.len() == coins@.len(),
            forall|k: int|
                0 <= k < stats@.len() ==> (#[trigger] stats@[k])@.len() == all_intervals().len(),
        ensures
            are_rows_of(r@, coins@, stats@, latest_m5@),
    {
        let mut r: Vec<CoinMetrics> = Vec::new();
        let mut k: usize = 0;
        while k < coins.len()
            invariant
                k <= coins@.len(),
                stats@.len() == coins@.len(),
                latest_m5@.len() == coins@.len(),
                forall|j: int|
                    0 <= j < stats@.len() ==> (#[trigger] stats@[j])@.len()
                        == all_intervals().len(),
                r@.len() == k,
                forall|j: int|
                    0 <= j < k ==> is_row_of(
                        #[trigger] r@[j],
                        coins@[j],
                        stats@[j]@,
                        latest_m5@[j]@,
                    ),
            decreases coins@.len() - k,
        {
            r.push(Self::coin_metrics(&coins[k], &stats[k], latest_m5[k].as_slice()));
            k = k + 1;
        }
        r
    }

    /// The metrics of a coin: what was computed for each timeframe, in the order
    /// of the timeframes, and as its price the close of the newest five-minute
    /// candle, where there is one.
    pub fn coin_metrics(
        coin: &CoinInfo,
        stats: &Vec<Option<IntervalStats>>,
        latest_m5: &[Candle],
    ) -> (r: CoinMetrics)
        requires
            stats@.len() == all_intervals().len(),
        ensures
            is_row_of(r, *coin, stats@, latest_m5@),
    {
        let mut m = CoinMetrics::blank(coin.name.as_str(), coin.is_perp);
        m.price = coin.price;
        m.change_24h_pct = coin.change_24h_pct;
        m.volume_24h = coin.volume_24h;
        m.open_interest = coin.open_interest;
        m.funding_rate = coin.funding_rate;
        let mut volatility = PerInterval::none();
        let mut correlation = PerInterval::none();
        let mut beta = PerInterval::none();
        let mut vs_btc = PerInterval::none();
        let all = Interval::all();
        let mut k: usize = 0;
        while k < stats.len()
            invariant
                k <= stats@.len(),
                all@ == all_intervals(),
                stats@.len() == all_intervals().len(),
                forall|j: int|
                    0 <= j < stats@.len() ==> {
                        let x = if j < k {
                            #[trigger] stats@[j]
                        } else {
                            None
                        };
                        &&& volatility.of(all_intervals()[j]) == match x {
                            Some(y) => Some(y.volatility),
                            None => None,
                        }
                        &&& correlation.of(all_intervals()[j]) == match x {
                            Some(y) => Some(y.correlation),
                            None => None,
                        }
                        &&& beta.of(all_intervals()[j]) == match x {
                            Some(y) => Some(y.beta),
                            None => None,
                        }
                        &&& vs_btc.of(all_intervals()[j]) == match x {
                            Some(y) => Some(y.vs_btc),
                            None => None,
                        }
                    },
            decreases stats@.len() - k,
        {
            if let Some(x) = stats[k] {
                let i = all[k];
                volatility.insert(i, x.volatility);
                correlation.insert(i, x.correlation);
                beta.insert(i, x.beta);
                vs_btc.insert(i, x.vs_btc);
            }
            k = k + 1;
        }
        m.volatility = volatility;
        m.btc_correlation = correlation;
        m.btc_beta = beta;
        m.vs_btc = vs_btc;
        if latest_m5.len() > 0 {
            m.price = latest_m5[latest_m5.len() - 1].close;
        }
        m
    }

    /// What the composite score of a coin is computed from.
    pub fn score_inputs(m: &CoinMetrics) -> (r: ScoreInputs)
        ensures
            r.volatilities@ == m.volatility.numbers(all_intervals()),
            r.betas@ == m.btc_beta.numbers(all_intervals()),
            r.volume == if_positive(m.volume_24h),
            r.relative_strength == m.relative_strength,
    {
        ScoreInputs {
            volatilities: m.volatility.values(),
            betas: m.btc_beta.values(),
            volume: if m.volume_24h.is_positive() {
                Some(m.volume_24h)
            } else {
                None
            },
            relative_strength: m.relative_strength,
        }
    }

    /// A composite score from the weighted sum of its factors: no less than zero
    /// and no more than a hundred.
    pub fn bounded_score(sum: Double) -> (r: Double)
        ensures
            r == sum.within(Double::zero(), full_score()),
    {
        sum.clamp(Double::zero(), Double { bits: 0x4059_0000_0000_0000 })
    }

    /// BTC's current price: the close of its newest hourly candle or, without one,
    /// its price in the coin list.
    pub fn btc_current_price(candles_1h: &[Candle], coins: &[CoinInfo]) -> (r: Double)
        ensures
            r == if candles_1h@.len() > 0 {
                candles_1h@.last().close
            } else {
                price_of_coin(coins@, "BTC"@)
            },
    {
        if candles_1h.len() > 0 {
            return candles_1h[candles_1h.len() - 1].close;
        }
        let mut i: usize = 0;
        assert(coins@.skip(0) =~= coins@);
        while i < coins.len()
            invariant
                i <= coins@.len(),
                candles_1h@.len() == 0,
                price_of_coin(coins@, "BTC"@) == price_of_coin(coins@.skip(i as int), "BTC"@),
            decreases coins@.len() - i,
        {
            assert(coins@.skip(i as int)[0] == coins@[i as int]);
            if same_text(coins[i].name.as_str(), "BTC") {
                return coins[i].price;
            }
            assert(coins@.skip(i as int).skip(1) =~= coins@.skip(i + 1));
            i = i + 1;
        }
        Double::zero()
    }

    /// What the state of BTC is computed from.
    pub fn btc_frame(candles_1h: &[Candle]) -> (r: BtcFrame)
        ensures
            r == frame_of(candles_1h@),
    {
        let n: usize = candles_1h.len();
        let ghost prices = highs(candles_1h@);
        let mut high = Double { bits: 0xFFEF_FFFF_FFFF_FFFF };
        let mut i: usize = 0;
        while i < n
            invariant
                i <= n,
                n == candles_1h@.len(),
                prices == highs(candles_1h@),
                high == highest(prices, i as int),
            decreases n - i,
        {
            let h = candles_1h[i].high;
            assert(prices[i as int] == h);
            if high.is_less(h) {
                high = h;
            }
            i = i + 1;
        }
        let change_from = if n >= 24 {
            let p = candles_1h[n - 24].close;
            if p.is_positive() {
                Some(p)
            } else {
                None
            }
        } else {
            None
        };
        BtcFrame {
            local_high: high,
            drawdown_from: if high.is_positive() {
                Some(high)
            } else {
                None
            },
            change_from,
        }
    }

    /// The state of BTC from its hourly candles, its current price and the results
    /// of the arithmetic on its frame.
    pub fn compute_btc_state(
        candles_1h: &[Candle],
        current_price: Double,
        figures: &BtcFigures,
    ) -> (r: BtcState)
        requires
            candles_1h@.len() * 3600 <= i64::MAX,
        ensures
            r == btc_state_of(candles_1h@, current_price, *figures),
            r.price == current_price,
            candles_1h@.len() >= 24 && Double::zero().lt(
                candles_1h@[candles_1h@.len() - 24].close,
            ) ==> r.change_24h_pct == figures.change_24h_pct,
            candles_1h@.len() < 24 || !Double::zero().lt(
                candles_1h@[candles_1h@.len() - 24].close,
            ) ==> r.change_24h_pct == Double::zero(),
            candles_1h@.len() > 0 && Double::zero().lt(r.local_high) ==> r.drawdown_pct
                == figures.drawdown_pct,
    {
        let n: usize = candles_1h.len();
        if n == 0 {
            let mut s = BtcState::default();
            s.price = current_price;
            return s;
        }
        let frame = Self::btc_frame(candles_1h);
        let drawdown_pct = match frame.drawdown_from {
            Some(_) => figures.drawdown_pct,
            None => Double::zero(),
        };
        let change_24h_pct = match frame.change_from {
            Some(_) => figures.change_24h_pct,
            None => Double::zero(),
        };
        let ghost prices = closes(candles_1h@);
        let mut k: usize = n;
        let mut dips: i64 = 0;
        assert(prices.take(n as int) =~= prices);
        while k > 0 && candles_1h[k - 1].close.is_less(figures.dip_level)
            invariant
                k <= n,
                n == candles_1h@.len(),
                prices == closes(candles_1h@),
                dips == n - k,
                run_below(prices, figures.dip_level) == dips + run_below(
                    prices.take(k as int),
                    figures.dip_level,
                ),
                n * 3600 <= i64::MAX,
            decreases k,
        {
            assert(prices.take(k as int).drop_last() =~= prices.take(k - 1));
            assert(prices.take(k as int).last() == candles_1h@[k - 1].close);
            k = k - 1;
            dips = dips + 1;
        }
        proof {
            if k > 0 {
                assert(prices.take(k as int).last() == candles_1h@[k - 1].close);
            }
        }
        BtcState {
            price: current_price,
            change_24h_pct,
            drawdown_pct,
            local_high: frame.local_high,
            is_dipping: drawdown_pct.is_less(Double { bits: 0xC000_0000_0000_0000 }),
            dip_duration_secs: dips * 3600,
        }
    }
}

/// The ends that a return is computed from are the first close and the last, in that
/// order, whichever is larger; there are none where there are fewer than two closes or
/// the first is zero.
pub proof fn ends_are_the_first_and_the_last_close(s: Seq<Candle>)
    ensures
        s.len() < 2 ==> ends_of(closes(s)) is None,
        s.len() >= 2 && (s[0].close.bits == 0 || s[0].close.bits == 0x8000_0000_0000_0000)
            ==> ends_of(closes(s)) is None,
        s.len() >= 2 && s[0].close.bits != 0 && s[0].close.bits != 0x8000_0000_0000_0000
            ==> ends_of(closes(s)) == Some((s[0].close, s[s.len() - 1].close)),
{
}

proof fn lemma_pairs_of_prefix(a: Seq<Double>, b: Seq<Double>, n: int)
    requires
        forall|i: int| 0 <= i <= n ==> a[i] == b[i],
    ensures
        positive_pairs(a, n) == positive_pairs(b, n),
    decreases n,
{
    if n > 0 {
        lemma_pairs_of_prefix(a, b, n - 1);
    }
}

/// A further candle adds one return, from the close before it to its own, where both are
/// positive, and otherwise none; a single candle has no return.
pub proof fn each_candle_adds_its_return(s: Seq<Candle>, c: Candle)
    ensures
        ({
            let before = positive_pairs(closes(s), s.len() - 1);
            let after = positive_pairs(closes(s.push(c)), s.len() as int);
            &&& s.len() == 0 ==> after == Seq::<(Double, Double)>::empty()
            &&& s.len() > 0 && Double::zero().lt(s[s.len() - 1].close) && Double::zero().lt(c.close)
                ==> after == before.push((s[s.len() - 1].close, c.close))
            &&& s.len() > 0 && !(Double::zero().lt(s[s.len() - 1].close) && Double::zero().lt(
                c.close,
            )) ==> after == before
        }),
{
    if s.len() > 0 {
        let n = s.len() as int;
        let prices = closes(s.push(c));
        assert(prices[n - 1] == s[n - 1].close && prices[n] == c.close);
        assert forall|i: int| 0 <= i <= n - 1 implies prices[i] == closes(s)[i] by {}
        lemma_pairs_of_prefix(prices, closes(s), n - 1);
    }
}

/// What the metrics of a timeframe are computed from: the returns of the coin and of
/// BTC, and of each the last close but one and the last, in that order, the coin's for
/// the coin and BTC's for BTC.
pub proof fn inputs_compare_the_last_candles(
    r: Option<IntervalInputs>,
    candles: Seq<Candle>,
    btc: Seq<Candle>,
)
    requires
        are_inputs_of(r, candles, btc),
    ensures
        r is None <==> candles.len() < 2,
        r matches Some(x) ==> {
            let (n, m) = (candles.len() as int, btc.len() as int);
            &&& x.pairs@ == positive_pairs(closes(candles), n - 1)
            &&& x.btc_pairs@ == positive_pairs(closes(btc), m - 1)
            &&& x.ends == if candles[n - 2].close.bits == 0 || candles[n - 2].close.bits
                == 0x8000_0000_0000_0000 {
                None
            } else {
                Some((candles[n - 2].close, candles[n - 1].close))
            }
            &&& m < 2 ==> x.btc_ends is None
            &&& m >= 2 ==> x.btc_ends == if btc[m - 2].close.bits == 0 || btc[m - 2].close.bits
                == 0x8000_0000_0000_0000 {
                None
            } else {
                Some((btc[m - 2].close, btc[m - 1].close))
            }
        },
{
    if candles.len() >= 2 {
        let t = tail(candles, 2);
        assert(t[0] == candles[candles.len() - 2] && t[t.len() - 1] == candles[candles.len() - 1]);
        ends_are_the_first_and_the_last_close(t);
    }
    let u = tail(btc, 2);
    ends_are_the_first_and_the_last_close(u);
    if btc.len() >= 2 {
        assert(u[0] == btc[btc.len() - 2] && u[u.len() - 1] == btc[btc.len() - 1]);
    }
}

/// The local high is no lower than the high of any candle, and is that of one of them,
/// those that are no number left aside; the drawdown is counted from it, where it is
/// positive, and the change from the close 24 candles from the end, where there is one
/// and it is positive.
pub proof fn frame_is_of_highs_and_closes(s: Seq<Candle>)
    ensures
        ({
            let f = frame_of(s);
            &&& !f.local_high.nan()
            &&& forall|i: int|
                0 <= i < s.len() && !(#[trigger] s[i]).high.nan() ==> s[i].high.le(f.local_high)
            &&& f.local_high.bits == 0xFFEF_FFFF_FFFF_FFFF || exists|i: int|
                0 <= i < s.len() && (#[trigger] s[i]).high == f.local_high
            &&& Double::zero().lt(f.local_high) ==> f.drawdown_from == Some(f.local_high)
            &&& !Double::zero().lt(f.local_high) ==> f.drawdown_from is None
            &&& s.len() >= 24 && Double::zero().lt(s[s.len() - 24].close) ==> f.change_from == Some(
                s[s.len() - 24].close,
            )
            &&& s.len() < 24 || !Double::zero().lt(s[s.len() - 24].close) ==> f.change_from is None
        }),
{
    let prices = highs(s);
    local_high_is_highest(prices, s.len() as int);
    assert forall|i: int| 0 <= i < s.len() && !(#[trigger] s[i]).high.nan() implies s[i].high.le(
        frame_of(s).local_high,
    ) by {
        assert(prices[i] == s[i].high);
    }
    if highest(prices, s.len() as int) != lowest() {
        let i = choose|i: int|
            0 <= i < s.len() && #[trigger] prices[i] == highest(prices, s.len() as int);
        assert(s[i].high == frame_of(s).local_high);
    }
}

/// The state of BTC, figure by figure: the change over 24 hours is the change, where
/// there was a price to count it from, and the drawdown the drawdown; a drawdown of more
/// than two per cent is a dip, and the dip has lasted an hour for each of the last
/// candles that closed below the dip level, back to the first that did not.
pub proof fn btc_state_holds_its_figures(s: Seq<Candle>, price: Double, f: BtcFigures)
    requires
        s.len() * 3600 <= i64::MAX,
    ensures
        ({
            let r = btc_state_of(s, price, f);
            &&& r.price == price
            &&& s.len() >= 24 && Double::zero().lt(s[s.len() - 24].close) ==> r.change_24h_pct
                == f.change_24h_pct
            &&& s.len() < 24 || !Double::zero().lt(s[s.len() - 24].close) ==> r.change_24h_pct.bits
                == 0
            &&& s.len() == 0 ==> r.drawdown_pct.bits == 0 && r.local_high.bits == 0
                && !r.is_dipping && r.dip_duration_secs == 0
            &&& s.len() > 0 ==> {
                &&& r.local_high == frame_of(s).local_high
                &&& Double::zero().lt(r.local_high) ==> r.drawdown_pct == f.drawdown_pct
                &&& !Double::zero().lt(r.local_high) ==> r.drawdown_pct.bits == 0
                &&& r.is_dipping <==> r.drawdown_pct.lt(Double { bits: 0xC000_0000_0000_0000 })
                &&& exists|n: int|
                    0 <= n <= s.len() && r.dip_duration_secs == 3600 * n && #[trigger] last_below(
                        s,
                        f.dip_level,
                        n,
                    )
            }
        }),
{
    let n = run_below(closes(s), f.dip_level);
    dip_is_the_longest_run(closes(s), f.dip_level);
    assert(n * 3600 <= s.len() * 3600);
    assert(last_below(s, f.dip_level, n as int)) by {
        assert forall|i: int| s.len() - n <= i < s.len() implies (#[trigger] s[i]).close.lt(
            f.dip_level,
        ) by {
            assert(closes(s)[i] == s[i].close);
        }
        if n < s.len() {
            assert(closes(s)[s.len() - n - 1] == s[s.len() - n - 1].close);
        }
    }
}

/// Whether the last `n` candles, and not the one before them, closed below a level.
pub open spec fn last_below(s: Seq<Candle>, level: Double, n: int) -> bool {
    &&& forall|i: int| s.len() - n <= i < s.len() ==> (#[trigger] s[i]).close.lt(level)
    &&& n < s.len() ==> !s[s.len() - n - 1].close.lt(level)
}

/// The price of a coin is that of the first one listed under its name, and zero where
/// none is.
pub proof fn price_is_of_the_first_of_the_name(coins: Seq<CoinInfo>, name: Seq<char>, k: int)
    ensures
        0 <= k < coins.len() && coins[k].name@ == name && (forall|j: int|
            0 <= j < k ==> (#[trigger] coins[j]).name@ != name) ==> price_of_coin(coins, name)
            == coins[k].price,
        (forall|j: int| 0 <= j < coins.len() ==> (#[trigger] coins[j]).name@ != name)
            ==> price_of_coin(coins, name).bits == 0,
    decreases coins.len(),
{
    if coins.len() > 0 {
        let rest = coins.skip(1);
        price_is_of_the_first_of_the_name(rest, name, k - 1);
        assert(forall|j: int| 0 <= j < rest.len() ==> #[trigger] rest[j] == coins[j + 1]);
        if 0 < k < coins.len() {
            assert(rest[k - 1] == coins[k]);
        }
    }
}

/// A row holds its coin's market data, each figure in its own place, and of each
/// timeframe what was computed for it, each in its own place.
pub proof fn rows_hold_what_was_computed(
    m: CoinMetrics,
    coin: CoinInfo,
    stats: Seq<Option<IntervalStats>>,
    latest_m5: Seq<Candle>,
    k: int,
)
    requires
        is_row_of(m, coin, stats, latest_m5),
        0 <= k < stats.len(),
    ensures
        m.coin@ == coin.name@,
        m.is_perp == coin.is_perp,
        latest_m5.len() > 0 ==> m.price == latest_m5[latest_m5.len() - 1].close,
        latest_m5.len() == 0 ==> m.price == coin.price,
        m.change_24h_pct == coin.change_24h_pct,
        m.volume_24h == coin.volume_24h,
        m.open_interest == coin.open_interest,
        m.funding_rate == coin.funding_rate,
        m.relative_strength.bits == 0,
        m.score.bits == 0,
        stats[k] matches Some(x) ==> m.volatility.of(all_intervals()[k]) == Some(x.volatility)
            && m.btc_correlation.of(all_intervals()[k]) == Some(x.correlation) && m.btc_beta.of(
            all_intervals()[k],
        ) == Some(x.beta) && m.vs_btc.of(all_intervals()[k]) == Some(x.vs_btc),
        stats[k] is None ==> m.volatility.of(all_intervals()[k]) is None && m.btc_correlation.of(
            all_intervals()[k],
        ) is None && m.btc_beta.of(all_intervals()[k]) is None && m.vs_btc.of(
            all_intervals()[k],
        ) is None,
{
    assert(holds_stats(m, all_intervals()[k], stats[k]));
}

/// There is one row for each coin, in the order of the coins, each from its own numbers.
pub proof fn each_coin_has_its_row(
    rows: Seq<CoinMetrics>,
    coins: Seq<CoinInfo>,
    stats: Seq<Vec<Option<IntervalStats>>>,
    latest_m5: Seq<Vec<Candle>>,
    k: int,
)
    requires
        are_rows_of(rows, coins, stats, latest_m5),
        0 <= k < coins.len(),
    ensures
        rows.len() == coins.len(),
        rows[k].coin@ == coins[k].name@,
        is_row_of(rows[k], coins[k], stats[k]@, latest_m5[k]@),
{
    assert(is_row_of(rows[k], coins[k], stats[k]@, latest_m5[k]@));
}

/// Metrics say what their fields hold, each under its own name; those of a coin of which
/// nothing is known hold nothing.
pub proof fn metrics_say_what_they_hold(m: CoinMetrics, name: Seq<char>, perp: bool, i: Interval)
    ensures
        m@.coin == m.coin@,
        m@.is_perp == m.is_perp,
        m@.price == m.price,
        m@.change_24h_pct == m.change_24h_pct,
        m@.volume_24h == m.volume_24h,
        m@.open_interest == m.open_interest,
        m@.funding_rate == m.funding_rate,
        m@.volatility == m.volatility,
        m@.btc_correlation == m.btc_correlation,
        m@.btc_beta == m.btc_beta,
        m@.vs_btc == m.vs_btc,
        m@.relative_strength == m.relative_strength,
        m@.score == m.score,
        ({
            let b = blank_metrics(name, perp);
            &&& b.coin == name
            &&& b.is_perp == perp
            &&& b.price.bits == 0
            &&& b.change_24h_pct.bits == 0
            &&& b.volume_24h.bits == 0
            &&& b.open_interest.bits == 0
            &&& b.funding_rate.bits == 0
            &&& b.relative_strength.bits == 0
            &&& b.score.bits == 0
            &&& b.volatility.of(i) is None
            &&& b.btc_correlation.of(i) is None
            &&& b.btc_beta.of(i) is None
            &&& b.vs_btc.of(i) is None
        }),
{
}

/// A score is bounded by zero and a hundred and is otherwise the sum that it was made
/// from; only a positive volume counts.
pub proof fn score_is_the_bounded_sum(sum: Double, volume: Double)
    ensures
        ({
            let (zero, hundred) = (Double { bits: 0 }, Double { bits: 0x4059_0000_0000_0000 });
            let r = sum.within(Double::zero(), full_score());
            &&& sum.lt(zero) ==> r == zero
            &&& hundred.lt(sum) ==> r == hundred
            &&& !sum.lt(zero) && !hundred.lt(sum) ==> r == sum
        }),
        Double::zero().lt(volume) ==> if_positive(volume) == Some(volume),
        !Double::zero().lt(volume) ==> if_positive(volume) is None,
{
}

} // verus!
