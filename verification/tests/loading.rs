//! The course of loading, and the rows of the database.

use vsbtc::analysis::engine::{BtcState, IntervalStats};
use vsbtc::double::Double;
use vsbtc::feeds::messages::FeedMessage;
use vsbtc::feeds::types::{Candle, CoinInfo, Interval};
use vsbtc::pipeline::{
    btc_state_query, candle_to_store, full_backfill_progress, gap_plan, loaded_candles,
    metrics_messages, metrics_query, metrics_report, on_coin_list, price_query, priority_order,
    Backfill, BackfillAction, FullAction, FullBackfill, GapPlan, ListStep, Stage,
    CANDLE_REQUEST_WEIGHT, THROTTLE_MILLIS, WEIGHT_PER_MINUTE,
};
use vsbtc::store::database::{
    candle_row, coin_row, data_file, data_folder, latest_time, oldest_first, parse_interval,
    prune_cutoff, prune_cutoffs, row_candle, CandleRow,
};

fn d(x: f64) -> Double {
    Double { bits: x.to_bits() }
}

fn coin(name: &str, volume: f64) -> CoinInfo {
    CoinInfo {
        name: name.to_string(),
        is_perp: true,
        price: d(1.0),
        volume_24h: d(volume),
        open_interest: d(3.0),
        funding_rate: d(4.0),
        change_24h_pct: d(5.0),
    }
}

fn candle(name: &str, timestamp: i64, interval: Interval) -> Candle {
    Candle {
        coin: name.to_string(),
        open: d(1.0),
        high: d(2.0),
        low: d(0.5),
        close: d(1.5),
        volume: d(10.0),
        timestamp,
        interval,
    }
}

#[test]
fn loading_stops_without_coins() {
    let steps = on_coin_list(Ok(vec![]));
    assert!(matches!(&steps[..],
        [ListStep::Tell(FeedMessage::Error(s))] if s == "No coins found on Hyperliquid"));
    let steps = on_coin_list(Err("no route".to_string()));
    assert!(matches!(&steps[..],
        [ListStep::Tell(FeedMessage::Error(s))] if s == "Failed to fetch coins: no route"));
}

#[test]
fn coins_are_stored_then_told_then_used() {
    let steps = on_coin_list(Ok(vec![coin("A", 1.0), coin("B", 2.0)]));
    match &steps[..] {
        [ListStep::Store(a), ListStep::Tell(FeedMessage::CoinList(b)), ListStep::Use(c)] => {
            for list in [a, b, c] {
                assert_eq!(list.len(), 2);
                assert_eq!((list[0].name.as_str(), list[1].name.as_str()), ("A", "B"));
                assert_eq!(list[1].volume_24h, d(2.0));
            }
        }
        _ => panic!("other steps"),
    }
}

#[test]
fn btc_and_the_largest_come_first() {
    let coins = [
        coin("A", 5.0),
        coin("B", 7.0),
        coin("C", 5.0),
        coin("BTC", 1.0),
        coin("D", 9.0),
        coin("E", 0.0),
        coin("F", -0.0),
    ];
    assert_eq!(priority_order(&coins), vec![3, 4, 1, 0, 2, 5, 6]);
    assert_eq!(priority_order(&[]), Vec::<usize>::new());
    let odd = [coin("A", f64::NAN), coin("BTC", f64::NAN), coin("B", 1.0)];
    let mut order = priority_order(&odd);
    assert_eq!(order[0], 1);
    order.sort();
    assert_eq!(order, vec![0, 1, 2]);
}

fn drive(total: usize, requests: bool) -> (Vec<BackfillAction>, Vec<u64>, Backfill) {
    let mut b = Backfill::new(total);
    let mut actions = Vec::new();
    let mut pauses = Vec::new();
    while b.stage != Stage::Done {
        actions.push(b.action());
        pauses.push(b.advance(requests));
    }
    (actions, pauses, b)
}

#[test]
fn every_coin_is_loaded_in_every_timeframe_once() {
    for total in [1usize, 2, 20, 21, 22, 40] {
        let (actions, _, end) = drive(total, true);
        let first = total.min(21);
        assert_eq!(actions.len(), 8 * total + first + 4);
        let mut loads: Vec<(usize, &str)> = actions
            .iter()
            .filter_map(|a| match a {
                BackfillAction::Fetch { coin, interval } => Some((*coin, interval.as_str())),
                _ => None,
            })
            .collect();
        assert_eq!(loads.len(), 7 * total);
        for (k, (c, i)) in loads[..3 * first].iter().enumerate() {
            assert_eq!(*c, k / 3);
            assert_eq!(*i, ["1h", "4h", "1d"][k % 3]);
        }
        assert_eq!(loads[3 * first], (0, "5m"));
        loads.sort();
        loads.dedup();
        assert_eq!(loads.len(), 7 * total);
        assert_eq!(end.fetched, 7 * total);
        assert_eq!(end.skipped, 0);
    }
}

#[test]
fn loading_takes_its_stages_in_order() {
    let (actions, pauses, end) = drive(22, false);
    assert!(pauses.iter().all(|p| *p == 0));
    assert_eq!(end.skipped, 154);
    assert!(matches!(actions[3], BackfillAction::Report { coin: 0 }));
    assert!(matches!(actions[83], BackfillAction::Report { coin: 20 }));
    assert!(matches!(actions[84], BackfillAction::ComputeMetrics));
    assert!(matches!(actions[85], BackfillAction::StartLive));
    assert!(matches!(actions[86], BackfillAction::Fetch { coin: 0, interval: Interval::M5 }));
    assert!(matches!(actions[89], BackfillAction::Fetch { coin: 0, interval: Interval::D30 }));
    assert!(matches!(actions[90], BackfillAction::Report { coin: 0 }));
    assert!(matches!(actions[191], BackfillAction::Fetch { coin: 21, interval: Interval::M5 }));
    let n = actions.len();
    assert!(matches!(actions[n - 3], BackfillAction::Report { coin: 21 }));
    assert!(matches!(actions[n - 2], BackfillAction::Prune));
    assert!(matches!(actions[n - 1], BackfillAction::ComputeMetrics));
    assert!(matches!(end.action(), BackfillAction::Done));
}

#[test]
fn only_background_requests_are_throttled() {
    let (actions, pauses, _) = drive(3, true);
    let live = actions
        .iter()
        .position(|a| matches!(a, BackfillAction::StartLive))
        .unwrap();
    assert!(60_000 / THROTTLE_MILLIS * CANDLE_REQUEST_WEIGHT <= WEIGHT_PER_MINUTE);
    for (k, (a, p)) in actions.iter().zip(&pauses).enumerate() {
        let fetch = matches!(a, BackfillAction::Fetch { .. });
        assert_eq!(*p, if fetch && k > live { 1400 } else { 0 });
    }
}

#[test]
fn reports_count_coins() {
    let mut b = Backfill::new(2);
    let mut reports = Vec::new();
    while b.stage != Stage::Done {
        let a = b.action();
        if let BackfillAction::Report { coin } = a {
            let p = b.progress(["BTC", "ETH"][coin]);
            reports.push((p.coin, p.current, p.total, p.fetched, p.skipped, p.phase));
        }
        b.advance(matches!(a, BackfillAction::Fetch { coin: 0, .. }));
    }
    let expected = vec![
        ("BTC".to_string(), 1, 2, 3, 0, "Priority"),
        ("ETH".to_string(), 2, 2, 3, 3, "Priority"),
        ("BTC".to_string(), 1, 2, 7, 3, "Background"),
        ("ETH".to_string(), 2, 2, 7, 7, "Background"),
    ];
    assert_eq!(reports, expected);
}

#[test]
fn only_the_gap_is_loaded() {
    let now = 1_700_000_000_500;
    assert_eq!(gap_plan(None, now, Interval::H1), GapPlan::Fetch { since: None });
    let fresh = now - 3_600_000 + 1;
    assert_eq!(gap_plan(Some(fresh), now, Interval::H1), GapPlan::Fresh);
    let old = now - 3_600_000;
    assert_eq!(gap_plan(Some(old), now, Interval::H1), GapPlan::Fetch { since: Some(old) });
    assert_eq!(gap_plan(Some(now + 5), now, Interval::M5), GapPlan::Fresh);
    assert_eq!(
        gap_plan(Some(i64::MIN), i64::MAX, Interval::D30),
        GapPlan::Fetch { since: Some(i64::MIN) }
    );
}

#[test]
fn loaded_candles_bear_the_name_of_their_coin() {
    let c = vec![candle("HYPE", 1, Interval::H1), candle("HYPE", 2, Interval::H1)];
    let out = loaded_candles(Ok(c), "HYPE/SPOT").unwrap();
    assert_eq!(out.len(), 2);
    assert!(out.iter().all(|c| c.coin == "HYPE/SPOT" && c.close == d(1.5)));
    assert_eq!(out[1].timestamp, 2);
    assert!(loaded_candles(Ok(vec![]), "A").is_none());
    assert!(loaded_candles(Err("late".to_string()), "A").is_none());
}

#[test]
fn live_candles_are_stored_as_they_pass() {
    let msg = FeedMessage::LiveCandle(candle("BTC", 7, Interval::M5));
    assert_eq!(candle_to_store(&msg).unwrap().timestamp, 7);
    assert!(candle_to_store(&FeedMessage::Connected(true)).is_none());
    assert!(candle_to_store(&FeedMessage::CandleBatch(vec![])).is_none());
}

#[test]
fn full_backfill_reports_each_coin() {
    let coins = [coin("A", 1.0), coin("B", 2.0)];
    let p = full_backfill_progress(&coins, 1);
    assert_eq!((p.coin.as_str(), p.current, p.total), ("B", 2, 2));
    assert_eq!((p.fetched, p.skipped, p.phase), (0, 0, "Backfill"));
}

#[test]
fn questions_to_the_database() {
    let q = btc_state_query();
    assert_eq!((q.coin.as_str(), q.interval, q.limit), ("BTC", Interval::H1, 168));
    let q = metrics_query("ETH", Interval::M5);
    assert_eq!((q.coin.as_str(), q.interval, q.limit), ("ETH", Interval::M5, 864));
    let q = price_query("SOL");
    assert_eq!((q.coin.as_str(), q.interval, q.limit), ("SOL", Interval::M5, 1));
}

#[test]
fn stored_names_of_timeframes() {
    for i in Interval::all() {
        assert_eq!(parse_interval(i.as_str()), *i);
    }
    assert_eq!(parse_interval("1w"), Interval::M5);
    assert_eq!(parse_interval(""), Interval::M5);
    assert_eq!((data_folder(), data_file()), ("vsbtc", "data.db"));
}

#[test]
fn a_stored_candle_is_read_back() {
    for i in Interval::all() {
        let c = candle("BTC", 1_700_000_000_000, *i);
        let row = candle_row(&c);
        assert_eq!(row.timestamp, 1_700_000_000);
        assert_eq!(row.interval, i.as_str());
        let back = row_candle(&row);
        assert_eq!(back.coin, c.coin);
        assert_eq!(back.interval, c.interval);
        assert_eq!(back.timestamp, c.timestamp);
        assert_eq!(
            (back.open, back.high, back.low, back.close, back.volume),
            (c.open, c.high, c.low, c.close, c.volume)
        );
    }
    assert_eq!(candle_row(&candle("A", 1999, Interval::M5)).timestamp, 1);
    assert_eq!(candle_row(&candle("A", -1, Interval::M5)).timestamp, -1);
}

fn row(timestamp: i64) -> CandleRow {
    CandleRow {
        coin: "BTC".to_string(),
        interval: "1h".to_string(),
        timestamp,
        open: d(0.0),
        high: d(0.0),
        low: d(0.0),
        close: d(0.0),
        volume: d(0.0),
    }
}

#[test]
fn candles_come_oldest_first() {
    let c = oldest_first(&[row(30), row(20), row(10)]);
    let times: Vec<i64> = c.iter().map(|c| c.timestamp).collect();
    assert_eq!(times, vec![10_000, 20_000, 30_000]);
    assert!(oldest_first(&[]).is_empty());
}

#[test]
fn seconds_beyond_all_dates() {
    let (first, last) = (-8334601228800i64, 8210266876799i64);
    assert_eq!(latest_time(None), None);
    assert_eq!(latest_time(Some(last)), Some(last * 1000));
    assert_eq!(latest_time(Some(last + 1)), None);
    assert_eq!(latest_time(Some(first)), Some(first * 1000));
    assert_eq!(latest_time(Some(first - 1)), None);
    assert_eq!(row_candle(&row(last + 1)).timestamp, 0);
    assert_eq!(row_candle(&row(i64::MAX)).timestamp, 0);
}

#[test]
fn coins_are_stored() {
    let r = coin_row(&coin("BTC", 9.0), 77);
    assert_eq!((r.name.as_str(), r.is_perp, r.updated_at), ("BTC", 1, 77));
    assert_eq!((r.last_price, r.volume_24h), (d(1.0), d(9.0)));
    let spot = CoinInfo { is_perp: false, ..coin("X", 1.0) };
    assert_eq!(coin_row(&spot, 0).is_perp, 0);
}

#[test]
fn old_candles_are_dropped() {
    let now = 1_700_000_000;
    assert_eq!(prune_cutoff(now, Interval::M5), Some(now - 259_200));
    assert_eq!(prune_cutoff(now, Interval::D30), None);
    let all = prune_cutoffs(now);
    assert_eq!(all.len(), 6);
    for (i, s) in all {
        assert_eq!(s, now - i.duration_secs() * i.max_candles() as i64);
    }
}

#[test]
fn everything_is_loaded_coin_by_coin() {
    let coins = [coin("A", 1.0), coin("B", 2.0)];
    let mut run = FullBackfill::new(2);
    let mut told = Vec::new();
    let mut steps = 0;
    loop {
        let reply = match run.action() {
            FullAction::Done => break,
            FullAction::Report { coin } => {
                assert_eq!((steps % 8, coin), (0, steps / 8));
                Ok(vec![])
            }
            FullAction::Fetch { coin, interval } => {
                assert_eq!(coin, steps / 8);
                assert_eq!(interval, Interval::all()[steps % 8 - 1]);
                match (coin, interval) {
                    (0, Interval::M5) => Err("late".to_string()),
                    (0, Interval::M15) => Ok(vec![]),
                    (0, Interval::H1) => Ok(vec![candle("A", 1, Interval::H1)]),
                    (1, Interval::D30) => Ok(vec![candle("B", 2, Interval::D30)]),
                    _ => Ok(vec![]),
                }
            }
        };
        match run.message(&coins, reply) {
            Some(FeedMessage::Progress(p)) => {
                assert_eq!((p.total, p.fetched, p.skipped, p.phase), (2, 0, 0, "Backfill"));
                told.push((p.coin, p.current));
            }
            Some(FeedMessage::CandleBatch(c)) => told.push((c[0].interval.as_str().to_string(), c.len())),
            Some(_) => panic!("other message"),
            None => {}
        }
        run.advance();
        steps += 1;
    }
    assert_eq!(steps, 16);
    let expected = vec![("A", 1), ("1h", 1), ("B", 2), ("30d", 1)];
    let told: Vec<(&str, usize)> = told.iter().map(|t| (t.0.as_str(), t.1)).collect();
    assert_eq!(told, expected);
    assert!(matches!(FullBackfill::new(0).action(), FullAction::Done));
}

#[test]
fn metrics_are_told_in_order() {
    let s = IntervalStats { volatility: d(1.0), correlation: d(2.0), beta: d(3.0), vs_btc: d(4.0) };
    let coins = [coin("A", 1.0), coin("B", 2.0)];
    let stats = vec![vec![None; 7], vec![Some(s); 7]];
    let latest = vec![vec![candle("A", 1, Interval::M5)], vec![]];
    let msgs = metrics_report(BtcState::default(), &coins, &stats, &latest, 77);
    match &msgs[..] {
        [FeedMessage::BtcStateUpdate(_), FeedMessage::MetricsUpdate(rows), FeedMessage::DbSize(77)] => {
            assert_eq!(rows.len(), 2);
            assert_eq!((rows[0].coin.as_str(), rows[0].price), ("A", d(1.5)));
            assert_eq!((rows[1].coin.as_str(), rows[1].price), ("B", d(1.0)));
            assert!(rows[0].volatility.values().is_empty());
            assert_eq!(rows[1].vs_btc.get(Interval::D7), Some(d(4.0)));
        }
        _ => panic!("other messages"),
    }
    assert_eq!(metrics_messages(BtcState::default(), vec![], 1).len(), 3);
}
