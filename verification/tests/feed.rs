//! Requests, replies and the live connection.

use serde_json::Value;
use vsbtc::double::Double;
use vsbtc::feeds::hyperliquid::{
    all_coins, coin_info, finish_candle, finish_candles, market_figures, parse_candle_reply,
    parse_coin_list, parse_spot_list, spot_info, CandleNumbers, PerpNumbers,
};
use vsbtc::feeds::live::{
    candle_update, finish_prices, live_candle, on_link_event, price_update, read_live_text,
    subscriptions, LinkAction, LinkEvent, LinkState, LiveCandleText, LiveText, LiveUpdate,
};
use vsbtc::feeds::messages::FeedMessage;
use vsbtc::feeds::requests::{
    candle_request, candle_subscription, candle_window, coin_list_request, mids_subscription,
    rest_url, spot_list_request, trade_url, ws_url,
};
use vsbtc::feeds::types::{Candle, CoinInfo, Interval, PerInterval};
use vsbtc::json::{parse_json, to_json, Json};

fn d(x: f64) -> Double {
    Double { bits: x.to_bits() }
}

fn number(s: &str) -> Option<Double> {
    s.parse::<f64>().ok().map(d)
}

fn coin(name: &str) -> CoinInfo {
    CoinInfo {
        name: name.to_string(),
        is_perp: true,
        price: d(1.0),
        volume_24h: d(2.0),
        open_interest: d(3.0),
        funding_rate: d(4.0),
        change_24h_pct: d(5.0),
    }
}

fn candle(name: &str) -> Candle {
    Candle {
        coin: name.to_string(),
        open: d(1.0),
        high: d(2.0),
        low: d(0.5),
        close: d(1.5),
        volume: d(10.0),
        timestamp: 1_700_000_000_000,
        interval: Interval::M5,
    }
}

fn numbers(x: f64) -> CandleNumbers {
    CandleNumbers {
        open: Some(d(x)),
        high: Some(d(x)),
        low: Some(d(x)),
        close: Some(d(x)),
        volume: Some(d(x)),
    }
}

#[test]
fn timeframes() {
    let labels: Vec<&str> = Interval::all().iter().map(|i| i.as_str()).collect();
    assert_eq!(labels, vec!["5m", "15m", "1h", "4h", "1d", "7d", "30d"]);
    let exchange: Vec<&str> = Interval::all().iter().map(|i| i.as_hl_str()).collect();
    assert_eq!(exchange, vec!["5m", "15m", "1h", "4h", "1d", "1w", "1M"]);
    let secs: Vec<i64> = Interval::all().iter().map(|i| i.duration_secs()).collect();
    assert_eq!(secs, vec![300, 900, 3600, 14400, 86400, 604800, 2592000]);
}

#[test]
fn kept_as_long_as_read() {
    for i in Interval::all() {
        match i.retention_secs() {
            Some(s) => assert_eq!(s, i.duration_secs() * i.max_candles() as i64),
            None => assert_eq!(*i, Interval::D30),
        }
    }
    assert_eq!(Interval::M5.retention_secs(), Some(3 * 86400));
}

#[test]
fn one_number_for_each_timeframe() {
    let mut p = PerInterval::none();
    assert!(p.values().is_empty());
    p.insert(Interval::D7, d(7.0));
    p.insert(Interval::M15, d(1.0));
    p.insert(Interval::D7, d(8.0));
    assert_eq!(p.get(Interval::D7), Some(d(8.0)));
    assert_eq!(p.get(Interval::M15), Some(d(1.0)));
    assert_eq!(p.get(Interval::H1), None);
    assert_eq!(p.values(), vec![d(1.0), d(8.0)]);
    for i in Interval::all() {
        p.insert(*i, d(0.5));
        assert_eq!(p.get(*i), Some(d(0.5)));
    }
    assert_eq!(p.values().len(), 7);
}

#[test]
fn names_of_the_interface() {
    assert_eq!(coin("HYPE/SPOT").api_name(), "HYPE");
    assert_eq!(coin("BTC").api_name(), "BTC");
}

#[test]
fn addresses() {
    assert_eq!(rest_url(), "https://api.hyperliquid.xyz/info");
    assert_eq!(ws_url(), "wss://api.hyperliquid.xyz/ws");
    assert_eq!(trade_url("ETH"), "https://app.hyperliquid.xyz/trade/ETH");
}

#[test]
fn requests_are_what_the_exchange_takes() {
    assert_eq!(coin_list_request().to_string(), r#"{"type":"metaAndAssetCtxs"}"#);
    assert_eq!(spot_list_request().to_string(), r#"{"type":"spotMetaAndAssetCtxs"}"#);
    let r = candle_request("BTC", Interval::D7, -5, 1_700_000_000_000);
    let expected: Value = serde_json::from_str(
        r#"{"type":"candleSnapshot","req":{"coin":"BTC","interval":"1w","startTime":-5,"endTime":1700000000000}}"#,
    )
    .unwrap();
    assert_eq!(r, expected);
}

#[test]
fn subscriptions_are_what_the_exchange_takes() {
    let expected: Value = serde_json::from_str(
        r#"{"method":"subscribe","subscription":{"type":"candle","coin":"HYPE","interval":"5m"}}"#,
    )
    .unwrap();
    let sent: Value = serde_json::from_str(&candle_subscription(&coin("HYPE/SPOT"))).unwrap();
    assert_eq!(sent, expected);
    assert_eq!(
        mids_subscription(),
        r#"{"method":"subscribe","subscription":{"type":"allMids"}}"#
    );
    let all = subscriptions(&[coin("BTC"), coin("ETH")]);
    assert_eq!(all.len(), 3);
    assert_eq!(all[0], mids_subscription());
    assert_eq!(all[1], candle_subscription(&coin("BTC")));
    assert_eq!(all[2], candle_subscription(&coin("ETH")));
}

#[test]
fn candles_are_asked_for_up_to_now() {
    assert_eq!(candle_window(1_000_000, Some(7), Interval::H1, 10), (7, 1_000_000));
    assert_eq!(candle_window(10_000_000, None, Interval::M5, 10), (7_000_000, 10_000_000));
    assert_eq!(candle_window(5, None, Interval::M5, 0), (5, 5));
}

#[test]
fn documents_are_read() {
    let j = parse_json(r#" {"a":[1,"x",null,true,1.5,-3],"b":{"c":"d"}} "#).unwrap();
    let a = j.get("a").unwrap();
    assert_eq!(a.as_items().unwrap().len(), 6);
    assert_eq!(a.at(0).unwrap().as_integer(), Some(1));
    assert_eq!(a.at(1).unwrap().as_text().unwrap(), "x");
    assert!(matches!(a.at(2), Some(Json::Null)));
    assert!(matches!(a.at(3), Some(Json::Bool(true))));
    assert_eq!(a.at(4).unwrap().as_integer(), None);
    assert_eq!(a.at(5).unwrap().as_integer(), Some(-3));
    assert!(a.at(6).is_none());
    assert_eq!(j.get("b").unwrap().get_text("c").unwrap(), "d");
    assert!(j.get("z").is_none());
    assert_eq!(parse_json("{").err().unwrap(), "EOF while parsing an object at line 1 column 1");
    assert_eq!(parse_json("").err().unwrap(), "EOF while parsing a value at line 1 column 0");
}

#[test]
fn repeated_keys_count_once() {
    let j = parse_json(r#"{"a":1,"a":2}"#).unwrap();
    assert_eq!(j.get_integer("a"), Some(2));
    let v: Value = serde_json::from_str(r#"{"t":9223372036854775808,"u":9223372036854775807}"#).unwrap();
    assert_eq!(to_json(&v).get_integer("t"), None);
    assert_eq!(to_json(&v).get_integer("u"), Some(i64::MAX));
}

const COINS: &str = r#"[
    {"universe":[{"name":"BTC"},{"name":""},{"szDecimals":1},{"name":"ETH"},{"name":"SOL"}]},
    [
        {"markPx":"100.5","dayNtlVlm":"2e9","openInterest":"10","funding":"0.0001","prevDayPx":"100"},
        {"markPx":"1"},
        {"markPx":"2"},
        {"markPx":3,"prevDayPx":"x"}
    ]
]"#;

#[test]
fn coin_list_is_read() {
    let listing = parse_coin_list(COINS).unwrap();
    assert_eq!(listing.uneven, Some((5, 4)));
    let rows = listing.rows;
    let names: Vec<&str> = rows.iter().map(|r| r.name.as_str()).collect();
    assert_eq!(names, vec!["BTC", "ETH"]);
    assert_eq!(rows[0].mark_px.as_deref(), Some("100.5"));
    assert_eq!(rows[0].day_ntl_vlm.as_deref(), Some("2e9"));
    assert_eq!(rows[0].open_interest.as_deref(), Some("10"));
    assert_eq!(rows[0].funding.as_deref(), Some("0.0001"));
    assert_eq!(rows[0].prev_day_px.as_deref(), Some("100"));
    assert_eq!(rows[1].mark_px, None);
    assert_eq!(rows[1].prev_day_px.as_deref(), Some("x"));
}

#[test]
fn other_replies_list_no_coin() {
    for reply in ["{}", "[]", "null", "[{},[]]", r#"[{"universe":[{"name":"A"}]}]"#, r#"[{"universe":{}},[{}]]"#] {
        let listing = parse_coin_list(reply).unwrap();
        assert!(listing.rows.is_empty(), "{reply}");
        assert_eq!(listing.uneven, None);
    }
    let even = parse_coin_list(r#"[{"universe":[{"name":"A"}]},[{}]]"#).unwrap();
    assert_eq!((even.rows.len(), even.uneven), (1, None));
    assert!(parse_coin_list("no json").is_err());
}

#[test]
fn missing_figures_are_zero() {
    let none = PerpNumbers {
        mark_px: None,
        day_ntl_vlm: None,
        open_interest: None,
        funding: None,
        prev_day_px: None,
    };
    let f = market_figures(&none);
    assert_eq!(f.price, Double::zero());
    assert_eq!(f.volume_24h, Double::zero());
    assert_eq!(f.open_interest, Double::zero());
    assert_eq!(f.funding_rate, Double::zero());
    assert_eq!(f.change_from, None);
    for (prev, from) in [(100.0, Some(d(100.0))), (0.0, None), (-1.0, None), (f64::NAN, None)] {
        let n = PerpNumbers { prev_day_px: Some(d(prev)), ..none };
        assert_eq!(market_figures(&n).change_from, from);
    }
}

#[test]
fn coins_carry_their_market_data() {
    let rows = parse_coin_list(COINS).unwrap().rows;
    let n = PerpNumbers {
        mark_px: number("100.5"),
        day_ntl_vlm: number("2e9"),
        open_interest: number("10"),
        funding: number("0.0001"),
        prev_day_px: number("100"),
    };
    let f = market_figures(&n);
    let c = coin_info(&rows[0], &f, d(1005.0), d(0.5));
    assert_eq!(c.name, "BTC");
    assert!(c.is_perp);
    assert_eq!(c.price, d(100.5));
    assert_eq!(c.volume_24h, d(2e9));
    assert_eq!(c.open_interest, d(1005.0));
    assert_eq!(c.funding_rate, d(0.0001));
    assert_eq!(c.change_24h_pct, d(0.5));
    let f = market_figures(&PerpNumbers { prev_day_px: None, ..n });
    assert_eq!(coin_info(&rows[0], &f, d(1005.0), d(0.5)).change_24h_pct, Double::zero());
}

#[test]
fn candles_are_read() {
    let reply = r#"[
        {"t":1700000000000,"o":"1","h":"2","l":"0.5","c":"1.5","v":"10"},
        {"t":1700000300000,"o":"1","h":"2","l":"0.5","c":"1.5"},
        {"t":"1700000300000","o":"1","h":"2","l":"0.5","c":"1.5","v":"10"},
        {"t":9000000000000000,"o":"1","h":"2","l":"0.5","c":"1.5","v":"10"},
        {"t":1700000600000,"o":"one","h":"2","l":"0.5","c":"1.5","v":"10"},
        {"t":-1,"o":"3","h":"3","l":"3","c":"3","v":"3"}
    ]"#;
    let rows = parse_candle_reply(reply).unwrap();
    assert_eq!(rows.len(), 3);
    let read: Vec<CandleNumbers> = rows
        .iter()
        .map(|r| CandleNumbers {
            open: number(&r.open),
            high: number(&r.high),
            low: number(&r.low),
            close: number(&r.close),
            volume: number(&r.volume),
        })
        .collect();
    let candles = finish_candles("BTC", Interval::H4, &rows, &read);
    assert_eq!(candles.len(), 2);
    assert_eq!(candles[0].coin, "BTC");
    assert_eq!(candles[0].interval, Interval::H4);
    assert_eq!(candles[0].timestamp, 1_700_000_000_000);
    assert_eq!(candles[0].open, d(1.0));
    assert_eq!(candles[0].high, d(2.0));
    assert_eq!(candles[0].low, d(0.5));
    assert_eq!(candles[0].close, d(1.5));
    assert_eq!(candles[0].volume, d(10.0));
    assert_eq!(candles[1].timestamp, -1);
    assert!(parse_candle_reply("{}").unwrap().is_empty());
    assert!(parse_candle_reply("oops").is_err());
}

#[test]
fn dates_have_a_first_and_a_last_millisecond() {
    let first = -8334601228800i64 * 1000;
    let last = 8210266876799i64 * 1000 + 999;
    for (t, ok) in [(first, true), (first - 1, false), (last, true), (last + 1, false)] {
        let reply = format!(r#"[{{"t":{t},"o":"1","h":"2","l":"0.5","c":"1.5","v":"10"}}]"#);
        let rows = parse_candle_reply(&reply).unwrap();
        assert_eq!(rows.len(), if ok { 1 } else { 0 });
        if ok {
            assert_eq!(rows[0].timestamp, t);
        }
    }
}

#[test]
fn a_candle_needs_every_number() {
    let rows = parse_candle_reply(
        r#"[{"t":1,"o":"1","h":"2","l":"0.5","c":"1.5","v":"10"}]"#,
    )
    .unwrap();
    let n = numbers(1.0);
    assert!(finish_candle("A", Interval::D1, &rows[0], &n).is_some());
    for n in [
        CandleNumbers { open: None, ..n },
        CandleNumbers { high: None, ..n },
        CandleNumbers { low: None, ..n },
        CandleNumbers { close: None, ..n },
        CandleNumbers { volume: None, ..n },
    ] {
        assert!(finish_candle("A", Interval::D1, &rows[0], &n).is_none());
    }
}

fn live(symbol: &str) -> LiveText {
    read_live_text(&format!(
        r#"{{"channel":"candle","data":{{"s":"{symbol}","data":{{"t":1700000000123,"o":"1","h":"2","l":"0.5","c":"1.5","v":"10"}}}}}}"#
    ))
}

fn live_row(symbol: &str) -> LiveCandleText {
    match live(symbol) {
        LiveText::Candle(c) => c,
        _ => panic!("no candle"),
    }
}

#[test]
fn live_candles_are_read() {
    assert_eq!(live_row("BTC").coin, "BTC");
    assert_eq!(live_row("BTC-PERP/USD").coin, "BTC");
    assert_eq!(live_row("BTC/USD-PERP").coin, "BTC/USD");
    let c = live_candle(&[coin("HYPE/SPOT"), coin("BTC")], &live_row("HYPE"), &numbers(2.0)).unwrap();
    assert_eq!(c.coin, "HYPE/SPOT");
    assert_eq!(c.interval, Interval::M5);
    assert_eq!(c.timestamp, 1_700_000_000_123);
    assert_eq!(c.close, d(2.0));
    let c = live_candle(&[], &live_row("XYZ"), &numbers(2.0)).unwrap();
    assert_eq!(c.coin, "XYZ");
    let two = [coin("HYPE"), coin("HYPE/SPOT")];
    assert_eq!(live_candle(&two, &live_row("HYPE"), &numbers(2.0)).unwrap().coin, "HYPE/SPOT");
    let bad = CandleNumbers { low: None, ..numbers(2.0) };
    assert!(live_candle(&two, &live_row("HYPE"), &bad).is_none());
}

#[test]
fn live_prices_are_read() {
    let t = read_live_text(
        r#"{"channel":"allMids","data":{"mids":{"BTC":"100.5","ETH":"x","SOL":7,"HYPE":"30"}}}"#,
    );
    let mids = match t {
        LiveText::Mids(m) => m,
        _ => panic!("no prices"),
    };
    let mut names: Vec<&str> = mids.iter().map(|m| m.0.as_str()).collect();
    names.sort();
    assert_eq!(names, vec!["BTC", "ETH", "HYPE"]);
    let read: Vec<Option<Double>> = mids.iter().map(|m| number(&m.1)).collect();
    let prices = finish_prices(&[], &mids, &read);
    assert_eq!(prices.len(), 2);
    for (name, price) in prices {
        match name.as_str() {
            "BTC" => assert_eq!(price, d(100.5)),
            "HYPE" => assert_eq!(price, d(30.0)),
            other => panic!("{other}"),
        }
    }
}

#[test]
fn other_messages_say_nothing() {
    for t in [
        "not json",
        "{}",
        r#"{"channel":"subscriptionResponse","data":{"method":"subscribe"}}"#,
        r#"{"data":{"s":"BTC","data":{"t":1}}}"#,
        r#"{"data":{"mids":[]}}"#,
    ] {
        assert!(matches!(read_live_text(t), LiveText::Nothing), "{t}");
    }
}

fn told(actions: &[LinkAction]) -> Vec<bool> {
    actions
        .iter()
        .filter_map(|a| match a {
            LinkAction::Tell(FeedMessage::Connected(b)) => Some(*b),
            _ => None,
        })
        .collect()
}

fn recovers(actions: &[LinkAction]) -> bool {
    let n = actions.len();
    n >= 3
        && matches!(actions[n - 3], LinkAction::Tell(FeedMessage::Connected(false)))
        && matches!(actions[n - 2], LinkAction::Wait(5000))
        && matches!(actions[n - 1], LinkAction::Connect)
}

#[test]
fn link_is_kept_up() {
    let (s, a) = on_link_event(LinkState::Closed, LinkEvent::OpenFailed);
    assert_eq!(s, LinkState::Closed);
    assert!(recovers(&a) && a.len() == 3);
    let (s, a) = on_link_event(s, LinkEvent::Opened);
    assert_eq!(s, LinkState::Open);
    assert_eq!(told(&a), vec![true]);
    assert!(matches!(a[1], LinkAction::Subscribe));
    let (s, a) = on_link_event(s, LinkEvent::Ping);
    assert!(s == LinkState::Open && a.len() == 1 && matches!(a[0], LinkAction::Pong));
    let (s, a) = on_link_event(s, LinkEvent::Other);
    assert!(s == LinkState::Open && a.is_empty());
    let (s, a) = on_link_event(s, LinkEvent::Broken);
    assert_eq!(s, LinkState::Closed);
    assert!(recovers(&a));
    assert_eq!(told(&a), vec![false, false]);
    let (s, a) = on_link_event(LinkState::Open, LinkEvent::Ended);
    assert_eq!(s, LinkState::Closed);
    assert!(recovers(&a) && a.len() == 3);
}

#[test]
fn link_hands_on_what_it_receives() {
    let (_, a) = on_link_event(
        LinkState::Open,
        LinkEvent::Received(LiveUpdate::Candle(candle("BTC"))),
    );
    assert!(matches!(&a[..], [LinkAction::Tell(FeedMessage::LiveCandle(c))] if c.coin == "BTC"));
    let (_, a) = on_link_event(
        LinkState::Open,
        LinkEvent::Received(LiveUpdate::Prices(vec![("BTC".to_string(), d(1.0))])),
    );
    assert!(matches!(&a[..], [LinkAction::Tell(FeedMessage::PriceUpdate(p))] if p.len() == 1));
    let (_, a) = on_link_event(LinkState::Open, LinkEvent::Received(LiveUpdate::Nothing));
    assert!(a.is_empty());
    let (s, a) = on_link_event(
        LinkState::Closed,
        LinkEvent::Received(LiveUpdate::Candle(candle("BTC"))),
    );
    assert!(s == LinkState::Closed && a.is_empty());
}

#[test]
fn spot_markets_are_listed_too() {
    let rows = parse_spot_list(
        r#"[{"universe":[]},[
            {"coin":"@107","markPx":"30","dayNtlVlm":"5","prevDayPx":"20"},
            {"markPx":"1"},
            {"coin":"PURR/USDC","markPx":"0.2"}
        ]]"#,
    )
    .unwrap();
    assert_eq!(rows.len(), 2);
    assert_eq!(rows[0].name, "@107");
    assert_eq!(rows[0].mark_px.as_deref(), Some("30"));
    assert_eq!(rows[0].day_ntl_vlm.as_deref(), Some("5"));
    assert_eq!(rows[0].prev_day_px.as_deref(), Some("20"));
    assert_eq!(rows[1].prev_day_px, None);
    assert!(parse_spot_list("{}").unwrap().is_empty());
    assert!(parse_spot_list("x").is_err());
    let figures = market_figures(&PerpNumbers {
        mark_px: number("30"),
        day_ntl_vlm: number("5"),
        open_interest: None,
        funding: None,
        prev_day_px: number("20"),
    });
    let c = spot_info(&rows[0], &figures, d(50.0));
    assert_eq!(c.name, "@107/SPOT");
    assert_eq!(c.api_name(), "@107");
    assert!(!c.is_perp);
    assert_eq!((c.price, c.volume_24h, c.change_24h_pct), (d(30.0), d(5.0), d(50.0)));
    assert_eq!((c.open_interest, c.funding_rate), (Double::zero(), Double::zero()));
    let none = market_figures(&PerpNumbers {
        mark_px: None,
        day_ntl_vlm: None,
        open_interest: None,
        funding: None,
        prev_day_px: None,
    });
    assert_eq!(spot_info(&rows[1], &none, d(50.0)).change_24h_pct, Double::zero());

    let all = all_coins(Ok(vec![coin("BTC"), coin("ETH")]), Ok(vec![c.clone()])).unwrap();
    let listed: Vec<(&str, bool)> = all.iter().map(|c| (c.name.as_str(), c.is_perp)).collect();
    assert_eq!(listed, vec![("BTC", true), ("ETH", true), ("@107/SPOT", false)]);
    let perps = all_coins(Ok(vec![coin("BTC")]), Err("late".to_string())).unwrap();
    assert_eq!(perps.len(), 1);
    assert_eq!(all_coins(Err("down".to_string()), Ok(vec![c])).unwrap_err(), "down");
}

#[test]
fn live_messages_bring_updates() {
    let coins = [coin("HYPE/SPOT")];
    match candle_update(&coins, &live_row("HYPE"), &numbers(2.0)) {
        LiveUpdate::Candle(c) => assert_eq!((c.coin.as_str(), c.close), ("HYPE/SPOT", d(2.0))),
        _ => panic!("no candle"),
    }
    let bad = CandleNumbers { high: None, ..numbers(2.0) };
    assert!(matches!(candle_update(&coins, &live_row("HYPE"), &bad), LiveUpdate::Nothing));
    let mids = vec![("A".to_string(), "1".to_string()), ("B".to_string(), "x".to_string())];
    match price_update(&coins, &mids, &vec![Some(d(1.0)), None]) {
        LiveUpdate::Prices(p) => assert_eq!(p, vec![("A".to_string(), d(1.0))]),
        _ => panic!("no prices"),
    }
}

#[test]
fn prices_go_to_the_coins_that_are_shown() {
    let coins = [coin("HYPE"), coin("HYPE/SPOT"), coin("@107/SPOT")];
    let mids: Vec<(String, String)> = ["HYPE", "@107", "HYPE/SPOT", "XYZ"]
        .iter()
        .map(|n| (n.to_string(), "1".to_string()))
        .collect();
    let prices = finish_prices(&coins, &mids, &vec![Some(d(1.0)); 4]);
    let names: Vec<&str> = prices.iter().map(|p| p.0.as_str()).collect();
    assert_eq!(names, vec!["HYPE", "@107/SPOT", "HYPE/SPOT", "XYZ"]);
}
