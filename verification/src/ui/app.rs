//! The state of the screen and how messages change it.

use crate::analysis::engine::{BtcState, CoinMetrics, MetricsModel, blank_btc_state, blank_metrics};
use crate::double::Double;
use crate::feeds::messages::FeedMessage;
use crate::feeds::types::{BackfillProgress, CoinInfo};
use crate::text::{decimal, decimal_text, lowercase, same_text, texts, to_lowercase};
use crate::ui::format::{Rgb, duration_text, format_bytes, format_duration, green, red, size_text};
use crate::ui::table::{Choice, MarketFilter, RowAverages, RowChoice, SortColumn, clicked,
    column_is_numeric, is_sorted, lists_shown, shown_rows, sort_after_click, sorted_rows};
use vstd::prelude::*;
use vstd::string::*;

verus! {

/// How far the application has come.
#[derive(Clone, Copy, Debug, PartialEq, Eq, Structural)]
pub enum AppPhase {
    /// The coin list is being fetched.
    Initializing,
    /// Past candles are being loaded.
    Backfilling,
    /// Everything is loaded.
    Live,
}

/// The state of the screen.
#[derive(Debug)]
pub struct VsBtcApp {
    /// The metrics of each coin, in the order in which the coins became known.
    pub metrics: Vec<CoinMetrics>,
    pub btc_state: BtcState,
    pub phase: AppPhase,
    pub backfill_coin: String,
    pub backfill_current: usize,
    pub backfill_total: usize,
    pub backfill_fetched: usize,
    pub backfill_skipped: usize,
    pub backfill_phase: &'static str,
    pub ws_connected: bool,
    pub coins_tracked: usize,
    pub db_size: u64,
    pub sort_column: SortColumn,
    pub sort_ascending: bool,
    pub market_filter: MarketFilter,
    pub search_query: String,
    pub min_volume: Double,
    pub min_volatility: Double,
}

/// What the screen shows.
#[verifier::ext_equal]
pub struct AppModel {
    pub metrics: Seq<MetricsModel>,
    pub btc_state: BtcState,
    pub phase: AppPhase,
    pub backfill: Report,
    pub ws_connected: bool,
    pub coins_tracked: usize,
    pub db_size: u64,
    pub settings: Settings,
}

/// What was last told of the backfill.
#[verifier::ext_equal]
pub struct Report {
    pub coin: Seq<char>,
    pub current: usize,
    pub total: usize,
    pub fetched: usize,
    pub skipped: usize,
    pub phase: Seq<char>,
}

/// What the user has chosen.
#[verifier::ext_equal]
pub struct Settings {
    pub sort_column: SortColumn,
    pub sort_ascending: bool,
    pub market_filter: MarketFilter,
    pub search_query: Seq<char>,
    pub min_volume: Double,
    pub min_volatility: Double,
}

/// What each of several metrics says.
pub open spec fn metric_models(v: Seq<CoinMetrics>) -> Seq<MetricsModel> {
    v.map_values(|m: CoinMetrics| m@)
}

impl View for VsBtcApp {
    type V = AppModel;

    open spec fn view(&self) -> AppModel {
        AppModel {
            metrics: metric_models(self.metrics@),
            btc_state: self.btc_state,
            phase: self.phase,
            backfill: Report {
                coin: self.backfill_coin@,
                current: self.backfill_current,
                total: self.backfill_total,
                fetched: self.backfill_fetched,
                skipped: self.backfill_skipped,
                phase: self.backfill_phase@,
            },
            ws_connected: self.ws_connected,
            coins_tracked: self.coins_tracked,
            db_size: self.db_size,
            settings: Settings {
                sort_column: self.sort_column,
                sort_ascending: self.sort_ascending,
                market_filter: self.market_filter,
                search_query: self.search_query@,
                min_volume: self.min_volume,
                min_volatility: self.min_volatility,
            },
        }
    }
}

/// The state in which the application starts: nothing is known, and rows are
/// sorted by open interest, the largest first.
pub open spec fn initial() -> AppModel {
    AppModel {
        metrics: Seq::empty(),
        btc_state: blank_btc_state(Double::zero()),
        phase: AppPhase::Initializing,
        backfill: Report {
            coin: Seq::empty(),
            current: 0,
            total: 0,
            fetched: 0,
            skipped: 0,
            phase: Seq::empty(),
        },
        ws_connected: false,
        coins_tracked: 0,
        db_size: 0,
        settings: Settings {
            sort_column: SortColumn::OpenInterest,
            sort_ascending: false,
            market_filter: MarketFilter::All,
            search_query: Seq::empty(),
            min_volume: Double::zero(),
            min_volatility: Double::zero(),
        },
    }
}

/// The place of the first row with a coin's name; the number of rows where there
/// is none.
pub open spec fn place_of(rows: Seq<MetricsModel>, name: Seq<char>) -> int
    decreases rows.len(),
{
    if rows.len() == 0 || rows[0].coin == name {
        0
    } else {
        1 + place_of(rows.skip(1), name)
    }
}

/// The row of a coin.
pub open spec fn row_of(rows: Seq<MetricsModel>, name: Seq<char>) -> Option<MetricsModel> {
    let k = place_of(rows, name);
    if k < rows.len() {
        Some(rows[k])
    } else {
        None
    }
}

/// Whether no two rows are of the same coin.
pub open spec fn one_row_each(rows: Seq<MetricsModel>) -> bool {
    forall|i: int, j: int|
        0 <= i < j < rows.len() ==> (#[trigger] rows[i]).coin != (#[trigger] rows[j]).coin
}

/// A row with the market data of its coin. The price is taken over only where
/// there is none yet.
pub open spec fn refreshed(m: MetricsModel, c: CoinInfo) -> MetricsModel {
    MetricsModel {
        change_24h_pct: c.change_24h_pct,
        volume_24h: c.volume_24h,
        open_interest: c.open_interest,
        funding_rate: c.funding_rate,
        price: if !m.price.nan() && m.price.rank() == 0 {
            c.price
        } else {
            m.price
        },
        ..m
    }
}

/// The rows after a coin was listed: its row is refreshed; a new coin gets a row.
pub open spec fn with_coin(rows: Seq<MetricsModel>, c: CoinInfo) -> Seq<MetricsModel> {
    let k = place_of(rows, c.name@);
    if k < rows.len() {
        rows.update(k, refreshed(rows[k], c))
    } else {
        rows.push(refreshed(blank_metrics(c.name@, c.is_perp), c))
    }
}

/// The rows after several coins were listed.
pub open spec fn with_coins(rows: Seq<MetricsModel>, coins: Seq<CoinInfo>) -> Seq<MetricsModel>
    decreases coins.len(),
{
    if coins.len() == 0 {
        rows
    } else {
        with_coin(with_coins(rows, coins.drop_last()), coins.last())
    }
}

/// The rows after a coin's price became known; the price of a coin without a row
/// is left aside.
pub open spec fn with_price(rows: Seq<MetricsModel>, name: Seq<char>, price: Double) -> Seq<
    MetricsModel,
> {
    let k = place_of(rows, name);
    if k < rows.len() {
        rows.update(k, MetricsModel { price, ..rows[k] })
    } else {
        rows
    }
}

/// The rows after several prices became known.
pub open spec fn with_prices(rows: Seq<MetricsModel>, prices: Seq<(String, Double)>) -> Seq<
    MetricsModel,
>
    decreases prices.len(),
{
    if prices.len() == 0 {
        rows
    } else {
        with_price(with_prices(rows, prices.drop_last()), prices.last().0@, prices.last().1)
    }
}

/// The last price listed under a name.
pub open spec fn price_listed(prices: Seq<(String, Double)>, name: Seq<char>) -> Option<Double>
    decreases prices.len(),
{
    if prices.len() == 0 {
        None
    } else if prices.last().0@ == name {
        Some(prices.last().1)
    } else {
        price_listed(prices.drop_last(), name)
    }
}

/// The rows after a coin's metrics were computed: they take the place of its row
/// or become a new one.
pub open spec fn with_row(rows: Seq<MetricsModel>, m: MetricsModel) -> Seq<MetricsModel> {
    let k = place_of(rows, m.coin);
    if k < rows.len() {
        rows.update(k, m)
    } else {
        rows.push(m)
    }
}

/// The rows after the metrics of several coins were computed.
pub open spec fn with_rows(rows: Seq<MetricsModel>, ms: Seq<CoinMetrics>) -> Seq<MetricsModel>
    decreases ms.len(),
{
    if ms.len() == 0 {
        rows
    } else {
        with_row(with_rows(rows, ms.drop_last()), ms.last()@)
    }
}

/// Whether a report says that everything is loaded.
pub open spec fn is_last_report(p: BackfillProgress) -> bool {
    p.current == p.total && p.phase@ == "Background"@
}

/// The state after a message.
pub open spec fn after_message(a: AppModel, msg: FeedMessage) -> AppModel {
    match msg {
        FeedMessage::CoinList(coins) => AppModel {
            coins_tracked: coins@.len() as usize,
            phase: if a.phase == AppPhase::Initializing {
                AppPhase::Backfilling
            } else {
                a.phase
            },
            metrics: with_coins(a.metrics, coins@),
            ..a
        },
        FeedMessage::Progress(p) => AppModel {
            backfill: Report {
                coin: p.coin@,
                current: p.current,
                total: p.total,
                fetched: p.fetched,
                skipped: p.skipped,
                phase: p.phase@,
            },
            phase: if is_last_report(p) {
                AppPhase::Live
            } else {
                a.phase
            },
            ..a
        },
        FeedMessage::CandleBatch(_) | FeedMessage::LiveCandle(_) | FeedMessage::Error(_) => a,
        FeedMessage::PriceUpdate(prices) => AppModel {
            metrics: with_prices(a.metrics, prices@),
            btc_state: match price_listed(prices@, "BTC"@) {
                Some(price) => BtcState { price, ..a.btc_state },
                None => a.btc_state,
            },
            ..a
        },
        FeedMessage::MetricsUpdate(ms) => AppModel { metrics: with_rows(a.metrics, ms@), ..a },
        FeedMessage::BtcStateUpdate(state) => AppModel { btc_state: state, ..a },
        FeedMessage::DbSize(size) => AppModel { db_size: size, ..a },
        FeedMessage::Connected(status) => AppModel { ws_connected: status, ..a },
    }
}

/// Whether a message brings market data, so that the time of the last update is
/// that of its arrival.
pub open spec fn brings_data(msg: FeedMessage) -> bool {
    msg is CandleBatch || msg is LiveCandle || msg is PriceUpdate || msg is MetricsUpdate
}

/// The state after several messages.
pub open spec fn after_messages(a: AppModel, msgs: Seq<FeedMessage>) -> AppModel
    decreases msgs.len(),
{
    if msgs.len() == 0 {
        a
    } else {
        after_message(after_messages(a, msgs.drop_last()), msgs.last())
    }
}

fn find_row(rows: &Vec<CoinMetrics>, name: &str) -> (k: usize)
    ensures
        k == place_of(metric_models(rows@), name@),
        k <= rows@.len(),
{
    let ghost models = metric_models(rows@);
    let mut k: usize = 0;
    assert(models.skip(0) =~= models);
    while k < rows.len() && !same_text(rows[k].coin.as_str(), name)
        invariant
            k <= rows@.len(),
            models == metric_models(rows@),
            place_of(models, name@) == k + place_of(models.skip(k as int), name@),
        decreases rows@.len() - k,
    {
        assert(models.skip(k as int)[0] == rows@[k as int]@);
        assert(models.skip(k as int).skip(1) =~= models.skip(k + 1));
        k = k + 1;
    }
    proof {
        if k < rows.len() {
            assert(models.skip(k as int)[0] == rows@[k as int]@);
        }
    }
    k
}

/// The place of a coin's row, where it has one, holds a row of that name, and no
/// row before it does.
pub proof fn row_has_the_name(rows: Seq<MetricsModel>, name: Seq<char>)
    ensures
        0 <= place_of(rows, name) <= rows.len(),
        place_of(rows, name) < rows.len() ==> rows[place_of(rows, name)].coin == name,
        forall|i: int| 0 <= i < place_of(rows, name) ==> (#[trigger] rows[i]).coin != name,
    decreases rows.len(),
{
    if rows.len() > 0 && rows[0].coin != name {
        let rest = rows.skip(1);
        row_has_the_name(rest, name);
        assert forall|i: int| 0 <= i < place_of(rows, name) implies (#[trigger] rows[i]).coin
            != name by {
            if i > 0 {
                assert(rest[i - 1] == rows[i]);
            }
        }
    }
}

impl VsBtcApp {
    /// The state in which the application starts.
    pub fn new() -> (r: VsBtcApp)
        ensures
            r@ == initial(),
    {
        let r = VsBtcApp {
            metrics: Vec::new(),
            btc_state: BtcState::default(),
            phase: AppPhase::Initializing,
            backfill_coin: String::new(),
            backfill_current: 0,
            backfill_total: 0,
            backfill_fetched: 0,
            backfill_skipped: 0,
            backfill_phase: "",
            ws_connected: false,
            coins_tracked: 0,
            db_size: 0,
            sort_column: SortColumn::OpenInterest,
            sort_ascending: false,
            market_filter: MarketFilter::All,
            search_query: String::new(),
            min_volume: Double::zero(),
            min_volatility: Double::zero(),
        };
        proof {
            reveal_strlit("");
            assert(r@ =~~= initial());
        }
        r
    }

    fn list_coin(&mut self, c: &CoinInfo)
        ensures
            final(self)@ == (AppModel { metrics: with_coin(old(self)@.metrics, *c), ..old(self)@ }),
    {
        let k: usize = find_row(&self.metrics, c.name.as_str());
        let ghost before = self.metrics@;
        let mut m = if k < self.metrics.len() {
            self.metrics[k].clone()
        } else {
            CoinMetrics::blank(c.name.as_str(), c.is_perp)
        };
        m.change_24h_pct = c.change_24h_pct;
        m.volume_24h = c.volume_24h;
        m.open_interest = c.open_interest;
        m.funding_rate = c.funding_rate;
        if m.price.is_zero() {
            m.price = c.price;
        }
        if k < self.metrics.len() {
            self.metrics.set(k, m);
        } else {
            self.metrics.push(m);
        }
        assert(metric_models(self.metrics@) =~= with_coin(metric_models(before), *c));
    }

    fn set_price(&mut self, name: &str, price: Double)
        ensures
            final(self)@ == (AppModel {
                metrics: with_price(old(self)@.metrics, name@, price),
                ..old(self)@
            }),
    {
        let k: usize = find_row(&self.metrics, name);
        let ghost before = self.metrics@;
        if k < self.metrics.len() {
            let mut m = self.metrics[k].clone();
            m.price = price;
            self.metrics.set(k, m);
        }
        assert(metric_models(self.metrics@) =~= with_price(metric_models(before), name@, price));
    }

    fn set_row(&mut self, m: &CoinMetrics)
        ensures
            final(self)@ == (AppModel { metrics: with_row(old(self)@.metrics, m@), ..old(self)@ }),
    {
        let k: usize = find_row(&self.metrics, m.coin.as_str());
        let ghost before = self.metrics@;
        if k < self.metrics.len() {
            self.metrics.set(k, m.clone());
        } else {
            self.metrics.push(m.clone());
        }
        assert(metric_models(self.metrics@) =~= with_row(metric_models(before), m@));
    }

    /// Takes in a message. The result tells whether it brought market data.
    pub fn process_message(&mut self, msg: &FeedMessage) -> (r: bool)
        ensures
            final(self)@ == after_message(old(self)@, *msg),
            r == brings_data(*msg),
    {
        let ghost start = self@;
        match msg {
            FeedMessage::CoinList(coins) => {
                self.coins_tracked = coins.len();
                if self.phase == AppPhase::Initializing {
                    self.phase = AppPhase::Backfilling;
                }
                let ghost here = self@;
                let mut i: usize = 0;
                assert(coins@.take(0) =~= Seq::empty());
                while i < coins.len()
                    invariant
                        i <= coins@.len(),
                        self@ == (AppModel {
                            metrics: with_coins(start.metrics, coins@.take(i as int)),
                            ..here
                        }),
                    decreases coins@.len() - i,
                {
                    self.list_coin(&coins[i]);
                    assert(coins@.take(i + 1).drop_last() =~= coins@.take(i as int));
                    i = i + 1;
                }
                assert(coins@.take(i as int) =~= coins@);
                false
            },
            FeedMessage::Progress(p) => {
                self.backfill_coin = p.coin.clone();
                self.backfill_current = p.current;
                self.backfill_total = p.total;
                self.backfill_fetched = p.fetched;
                self.backfill_skipped = p.skipped;
                self.backfill_phase = p.phase;
                if p.current == p.total && same_text(p.phase, "Background") {
                    self.phase = AppPhase::Live;
                }
                false
            },
            FeedMessage::CandleBatch(_) => true,
            FeedMessage::LiveCandle(_) => true,
            FeedMessage::PriceUpdate(prices) => {
                let mut i: usize = 0;
                assert(prices@.take(0) =~= Seq::empty());
                while i < prices.len()
                    invariant
                        i <= prices@.len(),
                        self@ == (AppModel {
                            metrics: with_prices(start.metrics, prices@.take(i as int)),
                            btc_state: match price_listed(prices@.take(i as int), "BTC"@) {
                                Some(price) => BtcState { price, ..start.btc_state },
                                None => start.btc_state,
                            },
                            ..start
                        }),
                    decreases prices@.len() - i,
                {
                    self.set_price(prices[i].0.as_str(), prices[i].1);
                    if same_text(prices[i].0.as_str(), "BTC") {
                        self.btc_state.price = prices[i].1;
                    }
                    assert(prices@.take(i + 1).drop_last() =~= prices@.take(i as int));
                    i = i + 1;
                }
                assert(prices@.take(i as int) =~= prices@);
                true
            },
            FeedMessage::MetricsUpdate(ms) => {
                let mut i: usize = 0;
                assert(ms@.take(0) =~= Seq::empty());
                while i < ms.len()
                    invariant
                        i <= ms@.len(),
                        self@ == (AppModel {
                            metrics: with_rows(start.metrics, ms@.take(i as int)),
                            ..start
                        }),
                    decreases ms@.len() - i,
                {
                    self.set_row(&ms[i]);
                    assert(ms@.take(i + 1).drop_last() =~= ms@.take(i as int));
                    i = i + 1;
                }
                assert(ms@.take(i as int) =~= ms@);
                true
            },
            FeedMessage::BtcStateUpdate(state) => {
                self.btc_state = *state;
                false
            },
            FeedMessage::DbSize(size) => {
                self.db_size = *size;
                false
            },
            FeedMessage::Connected(status) => {
                self.ws_connected = *status;
                false
            },
            FeedMessage::Error(_) => false,
        }
    }

    /// Takes in all messages that are pending, in the order of their arrival. The
    /// result tells whether any of them brought market data.
    pub fn process_messages(&mut self, msgs: &[FeedMessage]) -> (r: bool)
        ensures
            final(self)@ == after_messages(old(self)@, msgs@),
            r == exists|i: int| 0 <= i < msgs@.len() && brings_data(#[trigger] msgs@[i]),
    {
        let ghost start = self@;
        let mut r = false;
        let mut i: usize = 0;
        assert(msgs@.take(0) =~= Seq::empty());
        while i < msgs.len()
            invariant
                i <= msgs@.len(),
                self@ == after_messages(start, msgs@.take(i as int)),
                r == exists|j: int| 0 <= j < i && brings_data(#[trigger] msgs@[j]),
            decreases msgs@.len() - i,
        {
            if self.process_message(&msgs[i]) {
                r = true;
            }
            assert(msgs@.take(i + 1).drop_last() =~= msgs@.take(i as int));
            i = i + 1;
        }
        assert(msgs@.take(i as int) =~= msgs@);
        r
    }

    /// Whether the table is shown, and not the loading screen.
    pub fn shows_table(&self) -> (r: bool)
        ensures
            r == (self.phase != AppPhase::Initializing),
    {
        self.phase != AppPhase::Initializing
    }

    /// The rows that are shown, in order, as places in the list of metrics.
    pub fn sorted_coins(&self, averages: &[RowAverages]) -> (r: Vec<usize>)
        requires
            averages@.len() == self.metrics@.len(),
        ensures
            lists_shown(r@, rows_shown(self@, averages@)),
            column_is_numeric(
                self@.metrics,
                averages@,
                rows_shown(self@, averages@),
                self.sort_column,
            ) ==> is_sorted(
                self@.metrics,
                averages@,
                self.sort_column,
                self.sort_ascending,
                r@,
            ),
    {
        let mut lowered: Vec<String> = Vec::new();
        let mut i: usize = 0;
        while i < self.metrics.len()
            invariant
                i <= self.metrics@.len(),
                lowered@.len() == i,
                forall|j: int|
                    0 <= j < i ==> (#[trigger] lowered@[j])@ == lowercase(self.metrics@[j].coin@),
            decreases self.metrics@.len() - i,
        {
            lowered.push(to_lowercase(self.metrics[i].coin.as_str()));
            i = i + 1;
        }
        let lowered_query = to_lowercase(self.search_query.as_str());
        let choice = RowChoice {
            search_query: self.search_query.clone(),
            min_volume: self.min_volume,
            min_volatility: self.min_volatility,
        };
        assert(texts(lowered@) =~= lowered_names(self@.metrics));
        sorted_rows(
            &self.metrics,
            averages,
            &lowered,
            &choice,
            lowered_query.as_str(),
            self.sort_column,
            self.sort_ascending,
        )
    }

    /// Takes in a click on the header of a column.
    pub fn click_header(&mut self, column: SortColumn)
        ensures
            final(self)@ == ({
                let (sort_column, sort_ascending) = clicked(
                    column,
                    old(self).sort_column,
                    old(self).sort_ascending,
                );
                AppModel {
                    settings: Settings { sort_column, sort_ascending, ..old(self)@.settings },
                    ..old(self)@
                }
            }),
    {
        let (col, ascending) = sort_after_click(column, self.sort_column, self.sort_ascending);
        self.sort_column = col;
        self.sort_ascending = ascending;
    }

    /// What is said of the connection, and its colour.
    pub fn connection(&self) -> (r: (&'static str, Rgb))
        ensures
            r.0@ == if self.ws_connected {
                "● Connected"@
            } else {
                "● Disconnected"@
            },
            r.1 == if self.ws_connected {
                green()
            } else {
                red()
            },
    {
        if self.ws_connected {
            ("● Connected", green())
        } else {
            ("● Disconnected", red())
        }
    }

    /// What the status bar says: while past candles are being loaded and a report
    /// has come, how far loading is; otherwise how much is held.
    pub fn status_bar(&self) -> (r: StatusBar)
        ensures
            if self.phase == AppPhase::Backfilling && self.backfill_total > 0 {
                r matches StatusBar::Loading { phase, text, current, total } && phase@ == "["@
                    + self.backfill_phase@ + "]"@ && text@ == report_text(self@.backfill) && current
                    == self.backfill_current && total == self.backfill_total
            } else {
                r matches StatusBar::Summary { coins, size } && coins@ == "Coins: "@ + decimal(
                    self.coins_tracked as nat,
                ) && size@ == "DB: "@ + size_text(self.db_size as nat)
            },
    {
        if self.phase == AppPhase::Backfilling && self.backfill_total > 0 {
            let mut phase = "[".to_owned();
            phase.append(self.backfill_phase);
            phase.append("]");
            let mut text = decimal_text(self.backfill_current as u64);
            text.append("/");
            text.append(decimal_text(self.backfill_total as u64).as_str());
            text.append(" — ");
            text.append(self.backfill_coin.as_str());
            text.append(" (fetched: ");
            text.append(decimal_text(self.backfill_fetched as u64).as_str());
            text.append(", skipped: ");
            text.append(decimal_text(self.backfill_skipped as u64).as_str());
            text.append(")");
            StatusBar::Loading {
                phase,
                text,
                current: self.backfill_current,
                total: self.backfill_total,
            }
        } else {
            StatusBar::Summary {
                coins: "Coins: ".to_owned().concat(
                    decimal_text(self.coins_tracked as u64).as_str(),
                ),
                size: "DB: ".to_owned().concat(format_bytes(self.db_size).as_str()),
            }
        }
    }
}

/// The names of rows in lower case.
pub open spec fn lowered_names(rows: Seq<MetricsModel>) -> Seq<Seq<char>> {
    Seq::new(rows.len(), |i: int| lowercase(rows[i].coin))
}

/// Which rows the screen shows: those that the user's choice lets through.
pub open spec fn rows_shown(a: AppModel, averages: Seq<RowAverages>) -> Seq<bool> {
    shown_rows(
        a.metrics,
        averages,
        lowered_names(a.metrics),
        Choice {
            search_query: a.settings.search_query,
            min_volume: a.settings.min_volume,
            min_volatility: a.settings.min_volatility,
        },
        lowercase(a.settings.search_query),
    )
}

/// What the status bar says.
#[derive(Debug)]
pub enum StatusBar {
    /// How far loading is.
    Loading { phase: String, text: String, current: usize, total: usize },
    /// How much is held.
    Summary { coins: String, size: String },
}

/// How far loading is, in words.
pub open spec fn report_text(r: Report) -> Seq<char> {
    decimal(r.current as nat) + "/"@ + decimal(r.total as nat) + " — "@ + r.coin + " (fetched: "@
        + decimal(r.fetched as nat) + ", skipped: "@ + decimal(r.skipped as nat) + ")"@
}

/// What the loading screen says of how far loading is.
#[derive(Debug)]
pub struct LoadingText {
    pub count: String,
    pub coin: String,
    pub remaining: String,
}

/// What the loading screen says of how far loading is; nothing before it has begun.
/// Each coin that is left is taken to need two seconds.
pub fn loading_text(current: usize, total: usize, coin: &str) -> (r: Option<LoadingText>)
    requires
        current <= total,
        2 * (total - current) <= i64::MAX,
    ensures
        r is None <==> total == 0,
        r matches Some(t) ==> {
            &&& t.count@ == decimal(current as nat) + "/"@ + decimal(total as nat)
            &&& t.coin@ == "Loading: "@ + coin@
            &&& t.remaining@ == "~"@ + duration_text(2 * (total - current)) + " remaining"@
        },
{
    if total == 0 {
        return None;
    }
    let mut count = decimal_text(current as u64);
    count.append("/");
    count.append(decimal_text(total as u64).as_str());
    let mut remaining = "~".to_owned();
    remaining.append(format_duration(((total - current) as i64) * 2).as_str());
    remaining.append(" remaining");
    Some(LoadingText { count, coin: "Loading: ".to_owned().concat(coin), remaining })
}

} // verus!
