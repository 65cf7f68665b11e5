//! The state of the screen, its table and its texts.

use vsbtc::analysis::engine::{BtcState, CoinMetrics};
use vsbtc::double::Double;
use vsbtc::feeds::messages::FeedMessage;
use vsbtc::feeds::types::{BackfillProgress, Candle, CoinInfo, Interval};
use vsbtc::ui::app::{loading_text, AppPhase, StatusBar, VsBtcApp};
use vsbtc::ui::format::{
    change_color, format_bytes, format_duration, green, price_decimals, red, score_color,
    volatility_color, volume_unit, Rgb, VolumeUnit,
};
use vsbtc::ui::table::{
    header_text, headers, no_data, no_data_color, passes, row_cells, sort_after_click, sorted_rows,
    MarketFilter, RowAverages, RowChoice, SortColumn,
};

fn d(x: f64) -> Double {
    Double { bits: x.to_bits() }
}

fn coin(name: &str, price: f64, volume: f64) -> CoinInfo {
    CoinInfo {
        name: name.to_string(),
        is_perp: true,
        price: d(price),
        volume_24h: d(volume),
        open_interest: d(3.0),
        funding_rate: d(4.0),
        change_24h_pct: d(5.0),
    }
}

fn metrics(name: &str, price: f64) -> CoinMetrics {
    let mut m = CoinMetrics::blank(name, true);
    m.price = d(price);
    m
}

fn candle(name: &str) -> Candle {
    Candle {
        coin: name.to_string(),
        open: d(1.0),
        high: d(2.0),
        low: d(0.5),
        close: d(1.5),
        volume: d(10.0),
        timestamp: 0,
        interval: Interval::M5,
    }
}

fn progress(current: usize, total: usize, phase: &'static str) -> FeedMessage {
    FeedMessage::Progress(BackfillProgress {
        coin: "ETH".to_string(),
        current,
        total,
        fetched: 7,
        skipped: 8,
        phase,
    })
}

fn prices(list: &[(&str, f64)]) -> FeedMessage {
    FeedMessage::PriceUpdate(list.iter().map(|p| (p.0.to_string(), d(p.1))).collect())
}

fn names(app: &VsBtcApp) -> Vec<&str> {
    app.metrics.iter().map(|m| m.coin.as_str()).collect()
}

fn averages(app: &VsBtcApp) -> Vec<RowAverages> {
    app.metrics
        .iter()
        .map(|m| RowAverages {
            volatility: mean(&m.volatility.values()),
            beta: mean(&m.btc_beta.values()),
        })
        .collect()
}

fn mean(v: &[Double]) -> Double {
    if v.is_empty() {
        return d(0.0);
    }
    d(v.iter().map(|x| f64::from_bits(x.bits)).sum::<f64>() / v.len() as f64)
}

fn shown(app: &VsBtcApp) -> Vec<&str> {
    app.sorted_coins(&averages(app))
        .into_iter()
        .map(|k| app.metrics[k].coin.as_str())
        .collect()
}

#[test]
fn application_starts_empty() {
    let app = VsBtcApp::new();
    assert!(app.metrics.is_empty());
    assert_eq!(app.phase, AppPhase::Initializing);
    assert!(!app.shows_table());
    assert_eq!(app.sort_column, SortColumn::OpenInterest);
    assert!(!app.sort_ascending);
    assert_eq!(app.market_filter, MarketFilter::All);
    assert_eq!(app.search_query, "");
    assert_eq!((app.min_volume, app.min_volatility), (d(0.0), d(0.0)));
    assert_eq!((app.coins_tracked, app.db_size, app.ws_connected), (0, 0, false));
    assert_eq!(app.backfill_phase, "");
    assert!(shown(&app).is_empty());
}

#[test]
fn coin_list_makes_rows() {
    let mut app = VsBtcApp::new();
    let list = FeedMessage::CoinList(vec![coin("BTC", 100.0, 9.0), coin("ETH", 10.0, 8.0)]);
    assert!(!app.process_message(&list));
    assert_eq!(app.phase, AppPhase::Backfilling);
    assert!(app.shows_table());
    assert_eq!(app.coins_tracked, 2);
    assert_eq!(names(&app), vec!["BTC", "ETH"]);
    let m = &app.metrics[1];
    assert!(m.is_perp);
    assert_eq!((m.price, m.volume_24h), (d(10.0), d(8.0)));
    assert_eq!((m.open_interest, m.funding_rate, m.change_24h_pct), (d(3.0), d(4.0), d(5.0)));
}

#[test]
fn coin_list_keeps_live_price() {
    let mut app = VsBtcApp::new();
    app.process_message(&FeedMessage::CoinList(vec![coin("BTC", 0.0, 9.0)]));
    app.process_message(&FeedMessage::CoinList(vec![coin("BTC", 100.0, 9.0)]));
    assert_eq!(app.metrics[0].price, d(100.0));
    app.process_message(&prices(&[("BTC", 101.0)]));
    app.process_message(&FeedMessage::CoinList(vec![coin("BTC", 99.0, 7.0), coin("SOL", 1.0, 1.0)]));
    assert_eq!(app.metrics[0].price, d(101.0));
    assert_eq!(app.metrics[0].volume_24h, d(7.0));
    assert_eq!(names(&app), vec!["BTC", "SOL"]);
    assert_eq!(app.coins_tracked, 2);
}

#[test]
fn prices_reach_known_coins_only() {
    let mut app = VsBtcApp::new();
    app.process_message(&FeedMessage::CoinList(vec![coin("BTC", 100.0, 9.0), coin("ETH", 10.0, 8.0)]));
    assert!(app.process_message(&prices(&[("XYZ", 1.0), ("ETH", 11.0), ("BTC", 102.0)])));
    assert_eq!(names(&app), vec!["BTC", "ETH"]);
    assert_eq!(app.metrics[0].price, d(102.0));
    assert_eq!(app.metrics[1].price, d(11.0));
    assert_eq!(app.btc_state.price, d(102.0));
    app.process_message(&prices(&[("ETH", 12.0)]));
    assert_eq!(app.btc_state.price, d(102.0));
    let mut other = VsBtcApp::new();
    other.process_message(&prices(&[("BTC", 5.0)]));
    assert!(other.metrics.is_empty());
    assert_eq!(other.btc_state.price, d(5.0));
}

#[test]
fn metrics_take_the_place_of_rows() {
    let mut app = VsBtcApp::new();
    app.process_message(&FeedMessage::CoinList(vec![coin("BTC", 100.0, 9.0), coin("ETH", 10.0, 8.0)]));
    let update = FeedMessage::MetricsUpdate(vec![metrics("ETH", 12.0), metrics("NEW", 1.0), metrics("ETH", 13.0)]);
    assert!(app.process_message(&update));
    assert_eq!(names(&app), vec!["BTC", "ETH", "NEW"]);
    assert_eq!(app.metrics[0].price, d(100.0));
    assert_eq!(app.metrics[1].price, d(13.0));
    assert_eq!(app.metrics[1].volume_24h, d(0.0));
}

#[test]
fn live_with_the_last_report() {
    let mut app = VsBtcApp::new();
    app.process_message(&FeedMessage::CoinList(vec![coin("BTC", 1.0, 1.0)]));
    for m in [progress(2, 2, "Priority"), progress(1, 2, "Background"), progress(2, 2, "Backfill")] {
        app.process_message(&m);
        assert_eq!(app.phase, AppPhase::Backfilling);
    }
    app.process_message(&progress(2, 2, "Background"));
    assert_eq!(app.phase, AppPhase::Live);
    assert_eq!(app.backfill_coin, "ETH");
    assert_eq!((app.backfill_current, app.backfill_total), (2, 2));
    assert_eq!((app.backfill_fetched, app.backfill_skipped), (7, 8));
    assert_eq!(app.backfill_phase, "Background");
    app.process_message(&FeedMessage::CoinList(vec![]));
    app.process_message(&progress(1, 2, "Background"));
    assert_eq!(app.phase, AppPhase::Live);
}

#[test]
fn other_messages() {
    let mut app = VsBtcApp::new();
    assert!(app.process_message(&FeedMessage::CandleBatch(vec![candle("BTC")])));
    assert!(app.process_message(&FeedMessage::LiveCandle(candle("BTC"))));
    assert!(!app.process_message(&FeedMessage::Error("x".to_string())));
    assert!(!app.process_message(&FeedMessage::DbSize(2048)));
    assert!(!app.process_message(&FeedMessage::Connected(true)));
    let mut state = BtcState::default();
    state.is_dipping = true;
    assert!(!app.process_message(&FeedMessage::BtcStateUpdate(state)));
    assert!(app.metrics.is_empty());
    assert_eq!(app.db_size, 2048);
    assert!(app.ws_connected);
    assert!(app.btc_state.is_dipping);
    assert_eq!(app.phase, AppPhase::Initializing);
}

#[test]
fn pending_messages_are_taken_in_order() {
    let mut app = VsBtcApp::new();
    let msgs = [
        FeedMessage::Connected(true),
        FeedMessage::CoinList(vec![coin("BTC", 1.0, 1.0)]),
        FeedMessage::Connected(false),
    ];
    assert!(!app.process_messages(&msgs));
    assert!(!app.ws_connected);
    assert!(!app.process_messages(&[]));
    assert!(app.process_messages(&[prices(&[("BTC", 2.0)]), FeedMessage::DbSize(1)]));
    assert_eq!(app.metrics[0].price, d(2.0));
}

#[test]
fn messages_leave_settings_alone() {
    let mut app = VsBtcApp::new();
    app.search_query = "b".to_string();
    app.min_volume = d(5.0);
    app.click_header(SortColumn::Price);
    app.process_messages(&[
        FeedMessage::CoinList(vec![coin("BTC", 1.0, 1.0)]),
        progress(1, 1, "Background"),
        prices(&[("BTC", 2.0)]),
    ]);
    assert_eq!(app.search_query, "b");
    assert_eq!(app.min_volume, d(5.0));
    assert_eq!((app.sort_column, app.sort_ascending), (SortColumn::Price, false));
}

fn filled() -> VsBtcApp {
    let mut app = VsBtcApp::new();
    app.process_message(&FeedMessage::CoinList(vec![
        coin("BTC", 100.0, 9.0),
        coin("ETH", 10.0, 8.0),
        coin("kPEPE", 0.1, 1.0),
        coin("SOL", 10.0, 2.0),
    ]));
    app
}

#[test]
fn rows_are_sorted_by_each_column() {
    let mut app = filled();
    assert_eq!(shown(&app), vec!["BTC", "ETH", "kPEPE", "SOL"]);
    app.click_header(SortColumn::Price);
    assert_eq!(shown(&app), vec!["BTC", "ETH", "SOL", "kPEPE"]);
    app.click_header(SortColumn::Price);
    assert_eq!(shown(&app), vec!["kPEPE", "ETH", "SOL", "BTC"]);
    app.click_header(SortColumn::Coin);
    assert_eq!(shown(&app), vec!["kPEPE", "SOL", "ETH", "BTC"]);
    app.click_header(SortColumn::Coin);
    assert_eq!(shown(&app), vec!["BTC", "ETH", "SOL", "kPEPE"]);
    app.click_header(SortColumn::Volume);
    assert_eq!(shown(&app), vec!["BTC", "ETH", "SOL", "kPEPE"]);
    app.metrics[2].volatility.insert(Interval::H1, d(0.5));
    app.metrics[1].vs_btc.insert(Interval::D1, d(-0.5));
    app.metrics[3].btc_beta.insert(Interval::D1, d(2.0));
    app.metrics[0].funding_rate = d(9.0);
    app.metrics[1].change_24h_pct = d(50.0);
    app.click_header(SortColumn::Volatility(Interval::H1));
    assert_eq!(shown(&app), vec!["kPEPE", "BTC", "ETH", "SOL"]);
    app.click_header(SortColumn::VsBtc(Interval::D1));
    assert_eq!(shown(&app), vec!["BTC", "kPEPE", "SOL", "ETH"]);
    app.click_header(SortColumn::VsBtc(Interval::H4));
    assert_eq!(shown(&app), vec!["BTC", "ETH", "kPEPE", "SOL"]);
    app.click_header(SortColumn::Beta);
    assert_eq!(shown(&app)[0], "SOL");
    app.click_header(SortColumn::FundingRate);
    assert_eq!(shown(&app)[0], "BTC");
    app.click_header(SortColumn::Change24h);
    assert_eq!(shown(&app)[0], "ETH");
}

#[test]
fn rows_are_filtered() {
    let mut app = filled();
    app.search_query = "Pe".to_string();
    assert_eq!(shown(&app), vec!["kPEPE"]);
    app.search_query = "t".to_string();
    assert_eq!(shown(&app), vec!["BTC", "ETH"]);
    app.search_query = "zzz".to_string();
    assert!(shown(&app).is_empty());
    app.search_query = String::new();
    app.min_volume = d(2.0);
    assert_eq!(shown(&app), vec!["BTC", "ETH", "SOL"]);
    app.min_volatility = d(0.02);
    assert!(shown(&app).is_empty());
    app.metrics[3].volatility.insert(Interval::H1, d(0.01));
    app.metrics[3].volatility.insert(Interval::H4, d(0.04));
    assert_eq!(shown(&app), vec!["SOL"]);
    app.min_volatility = d(-1.0);
    assert_eq!(shown(&app).len(), 3);
    app.min_volume = d(f64::NAN);
    assert!(shown(&app).is_empty());
}

#[test]
fn rows_without_a_number_are_still_shown() {
    let mut app = filled();
    app.metrics[1].open_interest = d(f64::NAN);
    let mut all = shown(&app);
    all.sort();
    assert_eq!(all, vec!["BTC", "ETH", "SOL", "kPEPE"]);
}

#[test]
fn search_takes_texts_in_lower_case() {
    let m = metrics("BTC", 1.0);
    let avg = RowAverages { volatility: d(0.0), beta: d(0.0) };
    let choice = RowChoice {
        search_query: "Tc".to_string(),
        min_volume: d(0.0),
        min_volatility: d(0.0),
    };
    assert!(passes(&m, &avg, "btc", &choice, "tc"));
    assert!(!passes(&m, &avg, "btc", &choice, "Tc"));
    let rows = vec![metrics("A", 1.0), metrics("B", 2.0)];
    let lowered = vec!["a".to_string(), "b".to_string()];
    let any = RowChoice { search_query: String::new(), ..choice };
    let r = sorted_rows(&rows, &[avg, avg], &lowered, &any, "", SortColumn::Price, false);
    assert_eq!(r, vec![1, 0]);
}

#[test]
fn clicks_on_headers() {
    let c = SortColumn::VsBtc(Interval::H1);
    assert_eq!(sort_after_click(c, SortColumn::Coin, true), (c, false));
    assert_eq!(sort_after_click(c, c, false), (c, true));
    assert_eq!(sort_after_click(c, c, true), (c, false));
    assert_eq!(header_text("OI", c, c, true), "OI ▲");
    assert_eq!(header_text("OI", c, c, false), "OI ▼");
    assert_eq!(header_text("OI", SortColumn::OpenInterest, c, false), "OI");
}

#[test]
fn table_has_its_columns() {
    let labels: Vec<String> = headers().into_iter().map(|h| h.0).collect();
    assert_eq!(
        labels,
        vec![
            "Coin", "Price", "24h%", "Vol 24h", "OI", "Funding", "V.5m", "V.15m", "V.1h", "V.4h",
            "V.1d", "V.7d", "V.30d", "vs.5m", "vs.15m", "vs.1h", "vs.4h", "vs.1d", "vs.7d",
            "vs.30d", "Beta",
        ]
    );
    let columns: Vec<SortColumn> = headers().into_iter().map(|h| h.1).collect();
    assert_eq!(columns[4], SortColumn::OpenInterest);
    assert_eq!(columns[8], SortColumn::Volatility(Interval::H1));
    assert_eq!(columns[19], SortColumn::VsBtc(Interval::D30));
    for (i, a) in columns.iter().enumerate() {
        assert!(columns[i + 1..].iter().all(|b| a != b));
    }
}

#[test]
fn cells_of_a_row() {
    let mut m = metrics("ETH", 1.0);
    m.funding_rate = d(-0.1);
    m.volatility.insert(Interval::M15, d(0.04));
    m.vs_btc.insert(Interval::D1, d(-0.01));
    m.vs_btc.insert(Interval::D7, d(0.0));
    let avg = RowAverages { volatility: d(0.04), beta: d(1.5) };
    let c = row_cells(&m, &avg);
    assert_eq!(c.link, "https://app.hyperliquid.xyz/trade/ETH");
    assert_eq!(c.change_color, green());
    assert_eq!(c.funding_color, red());
    assert_eq!((c.volatility.len(), c.vs_btc.len()), (7, 7));
    assert_eq!(c.volatility[0].value, None);
    assert_eq!(c.volatility[1].value, Some((d(0.04), Rgb { red: 255, green: 180, blue: 0 })));
    assert_eq!(c.vs_btc[4].value, Some((d(-0.01), red())));
    assert_eq!(c.vs_btc[5].value, Some((d(0.0), green())));
    assert_eq!(c.beta, None);
    m.btc_beta.insert(Interval::H1, d(1.5));
    assert_eq!(row_cells(&m, &avg).beta, Some(d(1.5)));
    assert_eq!(no_data(), "—");
    assert_eq!(no_data_color(), Rgb { red: 80, green: 80, blue: 80 });
}

#[test]
fn status_bar_tells_how_far_loading_is() {
    let mut app = VsBtcApp::new();
    app.process_messages(&[FeedMessage::CoinList(vec![coin("BTC", 1.0, 1.0)]), FeedMessage::DbSize(1536)]);
    match app.status_bar() {
        StatusBar::Summary { coins, size } => {
            assert_eq!(coins, "Coins: 1");
            assert_eq!(size, "DB: 1.5KB");
        }
        _ => panic!("no report yet"),
    }
    app.process_message(&progress(3, 40, "Priority"));
    match app.status_bar() {
        StatusBar::Loading { phase, text, current, total } => {
            assert_eq!(phase, "[Priority]");
            assert_eq!(text, "3/40 — ETH (fetched: 7, skipped: 8)");
            assert_eq!((current, total), (3, 40));
        }
        _ => panic!("loading"),
    }
    app.process_message(&progress(40, 40, "Background"));
    assert!(matches!(app.status_bar(), StatusBar::Summary { .. }));
}

#[test]
fn connection_is_shown() {
    let mut app = VsBtcApp::new();
    assert_eq!(app.connection(), ("● Disconnected", red()));
    app.process_message(&FeedMessage::Connected(true));
    assert_eq!(app.connection(), ("● Connected", green()));
}

#[test]
fn loading_screen_estimates_the_rest() {
    assert!(loading_text(0, 0, "").is_none());
    let t = loading_text(10, 50, "SOL").unwrap();
    assert_eq!(t.count, "10/50");
    assert_eq!(t.coin, "Loading: SOL");
    assert_eq!(t.remaining, "~1m 20s remaining");
}

#[test]
fn sizes_are_written_as_doubles_are() {
    let kb = 1024u64;
    let mut sizes = vec![
        0, 1, 1023, kb, 1025, 1075, 1076, 1126, 1127, 1177, 1178, 1536, 1_048_575, 1_048_576,
        1_153_433, 1_153_434, 5_000_000, 1_073_741_823, 1_073_741_824, 123_456_789_012,
        (1 << 53) - 1, 1 << 53, (1 << 53) + 1, (1 << 53) + 3, (1 << 54) + 2, (1 << 54) + 6,
        u64::MAX, u64::MAX - 1024, u64::MAX - 1023,
    ];
    for k in 0..200u64 {
        sizes.push(kb + 64 * k);
        sizes.push(1_048_576 + 26_214 * k + k % 3);
        sizes.push(1_073_741_824 + 53_687_091 * k + k % 5);
        sizes.push(kb * 1024 * 1024 + (k << 24));
    }
    for bytes in sizes {
        let f = bytes as f64;
        let expected = if bytes >= 1_073_741_824 {
            format!("{:.1}GB", f / 1_073_741_824.0)
        } else if bytes >= 1_048_576 {
            format!("{:.1}MB", f / 1_048_576.0)
        } else if bytes >= 1_024 {
            format!("{:.1}KB", f / 1_024.0)
        } else {
            format!("{}B", bytes)
        };
        assert_eq!(format_bytes(bytes), expected);
    }
}

#[test]
fn sizes_in_words() {
    assert_eq!(format_bytes(512), "512B");
    assert_eq!(format_bytes(1536), "1.5KB");
    assert_eq!(format_bytes(1_048_576), "1.0MB");
    assert_eq!(format_bytes(3_221_225_472), "3.0GB");
}

#[test]
fn durations_in_words() {
    assert_eq!(format_duration(-5), "-5s");
    assert_eq!(format_duration(0), "0s");
    assert_eq!(format_duration(59), "59s");
    assert_eq!(format_duration(60), "1m 0s");
    assert_eq!(format_duration(3599), "59m 59s");
    assert_eq!(format_duration(3600), "1h 0m");
    assert_eq!(format_duration(86399), "23h 59m");
    assert_eq!(format_duration(90000), "1d 1h");
}

#[test]
fn colours_of_numbers() {
    assert_eq!(change_color(d(0.0)), green());
    assert_eq!(change_color(d(-0.0)), green());
    assert_eq!(change_color(d(-1e-9)), red());
    assert_eq!(change_color(d(f64::NAN)), red());
    let rgb = |red, green, blue| Rgb { red, green, blue };
    assert_eq!(green(), rgb(0, 200, 80));
    assert_eq!(red(), rgb(255, 80, 80));
    for (vol, color) in [
        (0.05, rgb(255, 80, 80)),
        (0.049, rgb(255, 180, 0)),
        (0.03, rgb(255, 180, 0)),
        (0.029, rgb(200, 200, 100)),
        (0.01, rgb(200, 200, 100)),
        (0.0099, rgb(150, 150, 150)),
        (f64::NAN, rgb(150, 150, 150)),
    ] {
        assert_eq!(volatility_color(d(vol)), color);
    }
    for (score, color) in [
        (80.0, rgb(0, 255, 100)),
        (79.9, rgb(180, 220, 0)),
        (60.0, rgb(180, 220, 0)),
        (40.0, rgb(200, 200, 100)),
        (39.9, rgb(150, 150, 150)),
    ] {
        assert_eq!(score_color(d(score)), color);
    }
}

#[test]
fn prices_and_volumes() {
    for (p, n) in [(1000.0, 2), (999.9, 4), (1.0, 4), (0.99, 6), (0.01, 6), (0.0099, 8), (-5.0, 8)] {
        assert_eq!(price_decimals(d(p)), n);
    }
    for (v, u, suffix, ones, decimals) in [
        (1e9, VolumeUnit::Billions, "B", 1_000_000_000, 1),
        (999e6, VolumeUnit::Millions, "M", 1_000_000, 1),
        (1e6, VolumeUnit::Millions, "M", 1_000_000, 1),
        (1e3, VolumeUnit::Thousands, "K", 1_000, 1),
        (999.0, VolumeUnit::Ones, "", 1, 0),
    ] {
        let unit = volume_unit(d(v));
        assert_eq!(unit, u);
        assert_eq!((unit.suffix(), unit.ones(), unit.decimals()), (suffix, ones, decimals));
    }
}
