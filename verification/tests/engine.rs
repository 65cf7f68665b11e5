//! What enters metrics, and the state of BTC.

use vsbtc::analysis::engine::{
    AnalysisEngine, BtcFigures, BtcState, CoinMetrics, IntervalStats,
};
use vsbtc::double::Double;
use vsbtc::feeds::types::{Candle, CoinInfo, Interval, PerInterval};

fn d(x: f64) -> Double {
    Double { bits: x.to_bits() }
}

fn candle(high: f64, close: f64) -> Candle {
    Candle {
        coin: "BTC".to_string(),
        open: d(0.0),
        high: d(high),
        low: d(0.0),
        close: d(close),
        volume: d(0.0),
        timestamp: 0,
        interval: Interval::H1,
    }
}

fn closes(prices: &[f64]) -> Vec<Candle> {
    prices.iter().map(|p| candle(*p, *p)).collect()
}

fn coin(name: &str, price: f64) -> CoinInfo {
    CoinInfo {
        name: name.to_string(),
        is_perp: true,
        price: d(price),
        volume_24h: d(2.0),
        open_interest: d(3.0),
        funding_rate: d(4.0),
        change_24h_pct: d(5.0),
    }
}

#[test]
fn returns_are_of_positive_neighbours() {
    let pairs = AnalysisEngine::return_pairs(&closes(&[1.0, 2.0, 0.0, 3.0, 4.0, -1.0, 5.0, 6.0]));
    assert_eq!(pairs, vec![(d(1.0), d(2.0)), (d(3.0), d(4.0)), (d(5.0), d(6.0))]);
    assert!(AnalysisEngine::return_pairs(&closes(&[f64::NAN, 1.0])).is_empty());
    assert!(AnalysisEngine::return_pairs(&closes(&[1.0])).is_empty());
    assert!(AnalysisEngine::return_pairs(&[]).is_empty());
}

#[test]
fn positive_prices_give_a_return_each() {
    let pairs = AnalysisEngine::return_pairs(&closes(&[1.0, 2.0, 4.0]));
    assert_eq!(pairs, vec![(d(1.0), d(2.0)), (d(2.0), d(4.0))]);
}

#[test]
fn a_period_has_two_ends() {
    assert_eq!(AnalysisEngine::period_ends(&closes(&[1.0, 9.0, 3.0])), Some((d(1.0), d(3.0))));
    assert_eq!(AnalysisEngine::period_ends(&closes(&[1.0])), None);
    assert_eq!(AnalysisEngine::period_ends(&closes(&[0.0, 3.0])), None);
    assert_eq!(AnalysisEngine::period_ends(&closes(&[-0.0, 3.0])), None);
    assert!(AnalysisEngine::period_ends(&closes(&[f64::NAN, 3.0])).is_some());
}

#[test]
fn series_need_two_returns_in_common() {
    assert_eq!(AnalysisEngine::overlap(5, 3), Some(3));
    assert_eq!(AnalysisEngine::overlap(2, 9), Some(2));
    assert_eq!(AnalysisEngine::overlap(1, 9), None);
    assert_eq!(AnalysisEngine::overlap(9, 0), None);
}

#[test]
fn a_timeframe_needs_two_candles() {
    let btc = closes(&[10.0, 11.0, 12.0]);
    assert!(AnalysisEngine::interval_inputs(&closes(&[1.0]), &btc).is_none());
    let x = AnalysisEngine::interval_inputs(&closes(&[1.0, 2.0, 4.0]), &btc).unwrap();
    assert_eq!(x.pairs, vec![(d(1.0), d(2.0)), (d(2.0), d(4.0))]);
    assert_eq!(x.btc_pairs, vec![(d(10.0), d(11.0)), (d(11.0), d(12.0))]);
    assert_eq!(x.ends, Some((d(2.0), d(4.0))));
    assert_eq!(x.btc_ends, Some((d(11.0), d(12.0))));
    let x = AnalysisEngine::interval_inputs(&closes(&[1.0, 2.0]), &[]).unwrap();
    assert!(x.btc_pairs.is_empty());
    assert_eq!(x.btc_ends, None);
}

fn stats(x: f64) -> IntervalStats {
    IntervalStats { volatility: d(x), correlation: d(x + 1.0), beta: d(x + 2.0), vs_btc: d(x + 3.0) }
}

#[test]
fn metrics_hold_what_was_computed() {
    let s = vec![Some(stats(0.0)), None, Some(stats(2.0)), None, None, None, Some(stats(6.0))];
    let m = AnalysisEngine::coin_metrics(&coin("ETH", 7.0), &s, &[]);
    assert_eq!(m.coin, "ETH");
    assert!(m.is_perp);
    assert_eq!(m.price, d(7.0));
    assert_eq!(m.volume_24h, d(2.0));
    assert_eq!(m.open_interest, d(3.0));
    assert_eq!(m.funding_rate, d(4.0));
    assert_eq!(m.change_24h_pct, d(5.0));
    assert_eq!(m.volatility.get(Interval::M5), Some(d(0.0)));
    assert_eq!(m.btc_correlation.get(Interval::H1), Some(d(3.0)));
    assert_eq!(m.btc_beta.get(Interval::D30), Some(d(8.0)));
    assert_eq!(m.vs_btc.get(Interval::D30), Some(d(9.0)));
    assert_eq!(m.vs_btc.get(Interval::M15), None);
    assert_eq!(m.relative_strength, Double::zero());
    assert_eq!(m.score, Double::zero());
    let m = AnalysisEngine::coin_metrics(&coin("ETH", 7.0), &vec![None; 7], &closes(&[8.0, 9.0]));
    assert_eq!(m.price, d(9.0));
    assert!(m.volatility.values().is_empty());
}

#[test]
fn score_has_its_inputs_and_bounds() {
    let mut m = CoinMetrics::blank("X", false);
    assert!(!m.is_perp);
    assert_eq!(m.coin, "X");
    assert_eq!(AnalysisEngine::score_inputs(&m).volume, None);
    m.volume_24h = d(1e6);
    m.relative_strength = d(0.25);
    m.btc_beta.insert(Interval::D1, d(1.5));
    m.volatility.insert(Interval::H4, d(0.02));
    let x = AnalysisEngine::score_inputs(&m);
    assert_eq!(x.volatilities, vec![d(0.02)]);
    assert_eq!(x.betas, vec![d(1.5)]);
    assert_eq!(x.volume, Some(d(1e6)));
    assert_eq!(x.relative_strength, d(0.25));
    assert_eq!(AnalysisEngine::bounded_score(d(-3.0)), d(0.0));
    assert_eq!(AnalysisEngine::bounded_score(d(50.5)), d(50.5));
    assert_eq!(AnalysisEngine::bounded_score(d(100.5)), d(100.0));
    assert!(AnalysisEngine::bounded_score(d(f64::NAN)).is_nan());
}

#[test]
fn price_of_btc() {
    let coins = [coin("ETH", 1.0), coin("BTC", 2.0), coin("BTC", 3.0)];
    assert_eq!(AnalysisEngine::btc_current_price(&[], &coins), d(2.0));
    assert_eq!(AnalysisEngine::btc_current_price(&[], &coins[..1]), d(0.0));
    assert_eq!(AnalysisEngine::btc_current_price(&closes(&[5.0, 6.0]), &coins), d(6.0));
}

fn figures(drawdown: f64, change: f64, level: f64) -> BtcFigures {
    BtcFigures { drawdown_pct: d(drawdown), change_24h_pct: d(change), dip_level: d(level) }
}

fn is_blank(s: &BtcState) -> bool {
    s.change_24h_pct == Double::zero()
        && s.drawdown_pct == Double::zero()
        && s.local_high == Double::zero()
        && !s.is_dipping
        && s.dip_duration_secs == 0
}

#[test]
fn without_candles_only_the_price_is_known() {
    assert!(is_blank(&BtcState::default()));
    let s = AnalysisEngine::compute_btc_state(&[], d(5.0), &figures(-9.0, 9.0, 9.0));
    assert_eq!(s.price, d(5.0));
    assert!(is_blank(&s));
}

#[test]
fn local_high_is_the_highest() {
    let c = vec![candle(3.0, 1.0), candle(f64::NAN, 2.0), candle(7.0, 3.0), candle(5.0, 4.0)];
    let f = AnalysisEngine::btc_frame(&c);
    assert_eq!(f.local_high, d(7.0));
    assert_eq!(f.drawdown_from, Some(d(7.0)));
    assert_eq!(f.change_from, None);
    let f = AnalysisEngine::btc_frame(&closes(&[-1.0, -2.0]));
    assert_eq!(f.local_high, d(-1.0));
    assert_eq!(f.drawdown_from, None);
    assert_eq!(AnalysisEngine::btc_frame(&closes(&[f64::NAN])).local_high, d(f64::MIN));
}

#[test]
fn change_is_counted_from_24_candles_back() {
    let mut prices: Vec<f64> = (1..=30).map(|x| x as f64).collect();
    assert_eq!(AnalysisEngine::btc_frame(&closes(&prices)).change_from, Some(d(7.0)));
    assert_eq!(AnalysisEngine::btc_frame(&closes(&prices[..24])).change_from, Some(d(1.0)));
    assert_eq!(AnalysisEngine::btc_frame(&closes(&prices[..23])).change_from, None);
    prices[6] = 0.0;
    assert_eq!(AnalysisEngine::btc_frame(&closes(&prices)).change_from, None);
}

#[test]
fn dips_are_counted_back_from_the_end() {
    let c = closes(&[100.0, 97.0, 99.0, 97.0, 96.0]);
    let s = AnalysisEngine::compute_btc_state(&c, d(96.0), &figures(-4.0, 50.0, 98.0));
    assert_eq!(s.price, d(96.0));
    assert_eq!(s.local_high, d(100.0));
    assert_eq!(s.drawdown_pct, d(-4.0));
    assert_eq!(s.change_24h_pct, d(0.0));
    assert!(s.is_dipping);
    assert_eq!(s.dip_duration_secs, 2 * 3600);
    let s = AnalysisEngine::compute_btc_state(&c, d(99.0), &figures(-2.0, 0.0, 98.0));
    assert!(!s.is_dipping);
    let s = AnalysisEngine::compute_btc_state(&c[..3], d(99.0), &figures(-1.0, 0.0, 98.0));
    assert_eq!(s.dip_duration_secs, 0);
    let s = AnalysisEngine::compute_btc_state(&c, d(99.0), &figures(-1.0, 0.0, 1000.0));
    assert_eq!(s.dip_duration_secs, 5 * 3600);
}

#[test]
fn no_high_no_drawdown() {
    let c = closes(&[0.0, 0.0]);
    let s = AnalysisEngine::compute_btc_state(&c, d(0.0), &figures(-50.0, 1.0, 0.0));
    assert_eq!(s.drawdown_pct, d(0.0));
    assert!(!s.is_dipping);
    assert_eq!(s.local_high, d(0.0));
}

#[test]
fn numbers_of_timeframes_start_empty() {
    let m = CoinMetrics::blank("A", true);
    for i in Interval::all() {
        assert_eq!(m.volatility.get(*i), PerInterval::none().get(*i));
    }
    let copy = m.clone();
    assert_eq!(copy.coin, m.coin);
}

#[test]
fn timeframes_meet_those_of_btc() {
    let mut coin: Vec<Vec<Candle>> = vec![vec![]; 7];
    let mut btc: Vec<Vec<Candle>> = vec![vec![]; 7];
    coin[2] = closes(&[1.0, 2.0]);
    btc[2] = closes(&[10.0, 20.0]);
    btc[3] = closes(&[30.0, 40.0]);
    coin[6] = closes(&[5.0, 6.0]);
    let r = AnalysisEngine::timeframe_inputs(&coin, &btc);
    assert_eq!(r.len(), 7);
    assert!(r[0].is_none() && r[3].is_none());
    assert_eq!(r[2].as_ref().unwrap().btc_pairs, vec![(d(10.0), d(20.0))]);
    assert_eq!(r[6].as_ref().unwrap().ends, Some((d(5.0), d(6.0))));
    assert_eq!(r[6].as_ref().unwrap().btc_ends, None);
    let rows = AnalysisEngine::metric_rows(&[], &vec![], &vec![]);
    assert!(rows.is_empty());
}
