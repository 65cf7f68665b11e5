//! What holds of the screen whatever messages arrive.

use crate::analysis::engine::{CoinMetrics, MetricsModel};
use crate::double::Double;
use crate::feeds::live::{LinkAction, LinkEvent, LinkState, link_step,
    screen_knows_whether_the_link_stands, told_status};
use crate::feeds::messages::FeedMessage;
use crate::feeds::types::{BackfillProgress, CoinInfo, Interval};
use crate::pipeline::{Backfill, phase_name};
use crate::text::{decimal, lowercase, occurs_in};
use crate::ui::app::{AppModel, AppPhase, after_message, after_messages, initial, is_last_report,
    Report, VsBtcApp, brings_data, one_row_each, place_of, price_listed, refreshed, report_text,
    row_has_the_name, row_of, rows_shown, with_coin, with_coins, with_price, with_prices, with_row,
    with_rows};
use crate::ui::table::{RowAverages, SortColumn};
use vstd::prelude::*;

verus! {

/// Whether rows begin with the rows of the same coins as others, and there is still
/// one row for each coin.
pub open spec fn extends(after: Seq<MetricsModel>, before: Seq<MetricsModel>) -> bool {
    &&& before.len() <= after.len()
    &&& forall|i: int| 0 <= i < before.len() ==> (#[trigger] after[i]).coin == before[i].coin
    &&& one_row_each(after)
}

/// The row at a place is the one found by its name.
proof fn lemma_found_by_name(rows: Seq<MetricsModel>, i: int)
    requires
        one_row_each(rows),
        0 <= i < rows.len(),
    ensures
        place_of(rows, rows[i].coin) == i,
{
    row_has_the_name(rows, rows[i].coin);
    let k = place_of(rows, rows[i].coin);
    if k < i {
        assert(rows[k].coin != rows[i].coin);
    }
}

proof fn lemma_extends_trans(c: Seq<MetricsModel>, b: Seq<MetricsModel>, a: Seq<MetricsModel>)
    requires
        extends(c, b),
        extends(b, a),
    ensures
        extends(c, a),
{
    assert forall|i: int| 0 <= i < a.len() implies (#[trigger] c[i]).coin == a[i].coin by {
        assert(b[i].coin == a[i].coin);
    }
}

proof fn lemma_put_extends(
    rows: Seq<MetricsModel>,
    after: Seq<MetricsModel>,
    name: Seq<char>,
    m: MetricsModel,
)
    requires
        one_row_each(rows),
        m.coin == name,
        after == if place_of(rows, name) < rows.len() {
            rows.update(place_of(rows, name), m)
        } else {
            rows.push(m)
        },
    ensures
        extends(after, rows),
{
    row_has_the_name(rows, name);
}

/// Coins are never lost by a coin list, and each keeps its one row.
pub proof fn coin_list_keeps_rows(rows: Seq<MetricsModel>, coins: Seq<CoinInfo>)
    requires
        one_row_each(rows),
    ensures
        extends(with_coins(rows, coins), rows),
    decreases coins.len(),
{
    if coins.len() > 0 {
        let before = with_coins(rows, coins.drop_last());
        let c = coins.last();
        coin_list_keeps_rows(rows, coins.drop_last());
        row_has_the_name(before, c.name@);
        let k = place_of(before, c.name@);
        let m = if k < before.len() {
            refreshed(before[k], c)
        } else {
            refreshed(crate::analysis::engine::blank_metrics(c.name@, c.is_perp), c)
        };
        lemma_put_extends(before, with_coin(before, c), c.name@, m);
        lemma_extends_trans(with_coins(rows, coins), before, rows);
    }
}

/// New metrics never lose a coin, and each keeps its one row.
pub proof fn metrics_keep_rows(rows: Seq<MetricsModel>, ms: Seq<CoinMetrics>)
    requires
        one_row_each(rows),
    ensures
        extends(with_rows(rows, ms), rows),
    decreases ms.len(),
{
    if ms.len() > 0 {
        let before = with_rows(rows, ms.drop_last());
        let m = ms.last()@;
        metrics_keep_rows(rows, ms.drop_last());
        lemma_put_extends(before, with_row(before, m), m.coin, m);
        lemma_extends_trans(with_rows(rows, ms), before, rows);
    }
}

/// Prices add no coin and lose none. Each known coin has the last price listed
/// under its name, if any, and is otherwise unchanged.
pub proof fn prices_reach_known_coins(rows: Seq<MetricsModel>, prices: Seq<(String, Double)>)
    requires
        one_row_each(rows),
    ensures
        with_prices(rows, prices).len() == rows.len(),
        forall|i: int|
            0 <= i < rows.len() ==> #[trigger] with_prices(rows, prices)[i] == (MetricsModel {
                price: match price_listed(prices, rows[i].coin) {
                    Some(p) => p,
                    None => rows[i].price,
                },
                ..rows[i]
            }),
    decreases prices.len(),
{
    if prices.len() > 0 {
        let rest = prices.drop_last();
        let before = with_prices(rows, rest);
        let (name, price) = (prices.last().0@, prices.last().1);
        prices_reach_known_coins(rows, rest);
        assert(one_row_each(before));
        row_has_the_name(before, name);
        let k = place_of(before, name);
        assert forall|i: int| 0 <= i < rows.len() implies #[trigger] with_prices(rows, prices)[i]
            == (MetricsModel {
            price: match price_listed(prices, rows[i].coin) {
                Some(p) => p,
                None => rows[i].price,
            },
            ..rows[i]
        }) by {
            assert(before[i].coin == rows[i].coin);
            if rows[i].coin == name {
                lemma_found_by_name(before, i);
                assert(k == i);
            }
        }
    }
}

/// The last listing of a coin.
pub open spec fn coin_listed(coins: Seq<CoinInfo>, name: Seq<char>) -> Option<CoinInfo>
    decreases coins.len(),
{
    if coins.len() == 0 {
        None
    } else if coins.last().name@ == name {
        Some(coins.last())
    } else {
        coin_listed(coins.drop_last(), name)
    }
}

/// Whether a price is known.
pub open spec fn has_price(m: MetricsModel) -> bool {
    m.price.nan() || m.price.rank() != 0
}

/// A coin list refreshes the market data of each known coin that is listed, and
/// nothing else of it; a price that is known stays.
pub proof fn coin_list_keeps_live_prices(rows: Seq<MetricsModel>, coins: Seq<CoinInfo>, i: int)
    requires
        one_row_each(rows),
        0 <= i < rows.len(),
    ensures
        ({
            let m = with_coins(rows, coins)[i];
            &&& coin_listed(coins, rows[i].coin) is None ==> m == rows[i]
            &&& coin_listed(coins, rows[i].coin) matches Some(c) ==> m == (MetricsModel {
                change_24h_pct: c.change_24h_pct,
                volume_24h: c.volume_24h,
                open_interest: c.open_interest,
                funding_rate: c.funding_rate,
                price: m.price,
                ..rows[i]
            })
            &&& has_price(rows[i]) ==> m.price == rows[i].price
        }),
    decreases coins.len(),
{
    if coins.len() > 0 {
        let rest = coins.drop_last();
        let before = with_coins(rows, rest);
        let c = coins.last();
        coin_list_keeps_rows(rows, rest);
        coin_list_keeps_live_prices(rows, rest, i);
        row_has_the_name(before, c.name@);
        assert(before[i].coin == rows[i].coin);
        if rows[i].coin == c.name@ {
            lemma_found_by_name(before, i);
        }
    }
}

/// Every coin that is listed has a row with its market data: those of its last
/// listing.
pub proof fn listed_coins_have_rows(rows: Seq<MetricsModel>, coins: Seq<CoinInfo>, k: int)
    requires
        one_row_each(rows),
        0 <= k < coins.len(),
    ensures
        coin_listed(coins, coins[k].name@) is Some,
        ({
            let c = coin_listed(coins, coins[k].name@)->0;
            &&& c.name@ == coins[k].name@
            &&& row_of(with_coins(rows, coins), coins[k].name@) matches Some(m)
                && m.change_24h_pct == c.change_24h_pct && m.volume_24h == c.volume_24h
                && m.open_interest == c.open_interest && m.funding_rate == c.funding_rate
        }),
    decreases coins.len(),
{
    let rest = coins.drop_last();
    let before = with_coins(rows, rest);
    let after = with_coins(rows, coins);
    let c = coins.last();
    let name = coins[k].name@;
    coin_list_keeps_rows(rows, rest);
    coin_list_keeps_rows(rows, coins);
    row_has_the_name(before, c.name@);
    let p = place_of(before, c.name@);
    if name == c.name@ {
        lemma_found_by_name(after, p);
    } else {
        assert(coins[k] == rest[k]);
        listed_coins_have_rows(rows, rest, k);
        let q = place_of(before, name);
        row_has_the_name(before, name);
        assert(q != p);
        assert(after[q] == before[q]);
        lemma_found_by_name(after, q);
    }
}

/// The last metrics of a coin.
pub open spec fn metrics_listed(ms: Seq<CoinMetrics>, name: Seq<char>) -> Option<MetricsModel>
    decreases ms.len(),
{
    if ms.len() == 0 {
        None
    } else if ms.last().coin@ == name {
        Some(ms.last()@)
    } else {
        metrics_listed(ms.drop_last(), name)
    }
}

/// New metrics of a coin are those that are shown, and no other row changes.
pub proof fn metrics_replace_rows(rows: Seq<MetricsModel>, ms: Seq<CoinMetrics>, name: Seq<char>)
    requires
        one_row_each(rows),
    ensures
        row_of(with_rows(rows, ms), name) == match metrics_listed(ms, name) {
            Some(m) => Some(m),
            None => row_of(rows, name),
        },
    decreases ms.len(),
{
    if ms.len() > 0 {
        let rest = ms.drop_last();
        let before = with_rows(rows, rest);
        let after = with_rows(rows, ms);
        let m = ms.last()@;
        metrics_replace_rows(rows, rest, name);
        metrics_keep_rows(rows, rest);
        metrics_keep_rows(rows, ms);
        row_has_the_name(before, m.coin);
        row_has_the_name(before, name);
        row_has_the_name(after, name);
        let p = place_of(before, m.coin);
        if name == m.coin {
            lemma_found_by_name(after, p);
        } else {
            let q = place_of(before, name);
            if q < before.len() {
                assert(after[q] == before[q]);
                lemma_found_by_name(after, q);
            } else {
                let r = place_of(after, name);
                if r < after.len() {
                    assert(r == p || after[r] == before[r]);
                }
            }
        }
    }
}

/// No message loses a coin, none gives a coin a second row, and none changes what
/// the user has chosen.
pub proof fn message_keeps_rows_and_settings(a: AppModel, msg: FeedMessage)
    requires
        one_row_each(a.metrics),
    ensures
        extends(after_message(a, msg).metrics, a.metrics),
        after_message(a, msg).settings == a.settings,
{
    match msg {
        FeedMessage::CoinList(coins) => {
            coin_list_keeps_rows(a.metrics, coins@);
        },
        FeedMessage::PriceUpdate(prices) => {
            prices_reach_known_coins(a.metrics, prices@);
            let r = with_prices(a.metrics, prices@);
            assert forall|i: int, j: int| 0 <= i < j < r.len() implies (#[trigger] r[i]).coin != (
            #[trigger] r[j]).coin by {
                assert(r[i].coin == a.metrics[i].coin);
                assert(r[j].coin == a.metrics[j].coin);
            }
        },
        FeedMessage::MetricsUpdate(ms) => {
            metrics_keep_rows(a.metrics, ms@);
        },
        _ => {},
    }
}

/// The same of any number of messages; in particular each coin has one row in every
/// state that messages lead to from the first.
pub proof fn messages_keep_rows_and_settings(a: AppModel, msgs: Seq<FeedMessage>)
    requires
        one_row_each(a.metrics),
    ensures
        extends(after_messages(a, msgs).metrics, a.metrics),
        after_messages(a, msgs).settings == a.settings,
        one_row_each(after_messages(initial(), msgs).metrics),
    decreases msgs.len(),
{
    if msgs.len() > 0 {
        let rest = msgs.drop_last();
        messages_keep_rows_and_settings(a, rest);
        message_keeps_rows_and_settings(after_messages(a, rest), msgs.last());
        message_keeps_rows_and_settings(after_messages(initial(), rest), msgs.last());
        lemma_extends_trans(
            after_messages(a, msgs).metrics,
            after_messages(a, rest).metrics,
            a.metrics,
        );
    }
}

/// How far a phase is.
pub open spec fn phase_rank(p: AppPhase) -> int {
    match p {
        AppPhase::Initializing => 0,
        AppPhase::Backfilling => 1,
        AppPhase::Live => 2,
    }
}

/// Whether a message says that everything is loaded.
pub open spec fn ends_loading(msg: FeedMessage) -> bool {
    msg matches FeedMessage::Progress(p) && is_last_report(p)
}

/// The application never goes back to an earlier phase. It is live from the last
/// report of the background on and not before, and it leaves the first phase with a
/// coin list or that report.
pub proof fn phases_only_go_on(a: AppModel, msgs: Seq<FeedMessage>)
    ensures
        phase_rank(after_messages(a, msgs).phase) >= phase_rank(a.phase),
        after_messages(a, msgs).phase == AppPhase::Live <==> a.phase == AppPhase::Live
            || exists|i: int| 0 <= i < msgs.len() && ends_loading(#[trigger] msgs[i]),
        after_messages(a, msgs).phase == AppPhase::Initializing <==> a.phase
            == AppPhase::Initializing && forall|i: int|
            0 <= i < msgs.len() ==> !(#[trigger] msgs[i] is CoinList) && !ends_loading(msgs[i]),
    decreases msgs.len(),
{
    if msgs.len() > 0 {
        let rest = msgs.drop_last();
        phases_only_go_on(a, rest);
        assert(forall|i: int| 0 <= i < rest.len() ==> #[trigger] rest[i] == msgs[i]);
        assert(forall|i: int| 0 <= i < rest.len() ==> rest[i] == #[trigger] msgs[i]);
        assert(msgs[msgs.len() - 1] == msgs.last());
    }
}

/// The screen says that the connection stands exactly where the last message about
/// it did.
pub proof fn connection_is_as_last_told(a: AppModel, msgs: Seq<FeedMessage>, k: int)
    requires
        0 <= k < msgs.len(),
        msgs[k] is Connected,
        forall|i: int| k < i < msgs.len() ==> !(#[trigger] msgs[i] is Connected),
    ensures
        msgs[k] matches FeedMessage::Connected(status) && after_messages(a, msgs).ws_connected
            == status,
    decreases msgs.len(),
{
    if k < msgs.len() - 1 {
        let rest = msgs.drop_last();
        assert(rest[k] == msgs[k]);
        assert forall|i: int| k < i < rest.len() implies !(#[trigger] rest[i] is Connected) by {
            assert(rest[i] == msgs[i]);
        }
        connection_is_as_last_told(a, rest, k);
        assert(!(msgs[msgs.len() - 1] is Connected));
    }
}

/// The messages among actions on the live connection that the screen is sent.
pub open spec fn told(actions: Seq<LinkAction>) -> Seq<FeedMessage>
    decreases actions.len(),
{
    if actions.len() == 0 {
        Seq::empty()
    } else {
        let before = told(actions.drop_last());
        match actions.last() {
            LinkAction::Tell(msg) => before.push(msg),
            _ => before,
        }
    }
}

/// The screen shows whether the live connection stands: where it did before an
/// event, it does after it.
pub proof fn screen_follows_the_link(a: AppModel, state: LinkState, event: LinkEvent)
    requires
        a.ws_connected == (state == LinkState::Open),
    ensures
        after_messages(a, told(link_step(state, event).1)).ws_connected == (link_step(
            state,
            event,
        ).0 == LinkState::Open),
{
    let (after, actions) = link_step(state, event);
    screen_knows_whether_the_link_stands(state, event);
    lemma_told_last(a, actions);
}

proof fn lemma_told_last(a: AppModel, actions: Seq<LinkAction>)
    ensures
        after_messages(a, told(actions)).ws_connected == match told_status(actions) {
            Some(b) => b,
            None => a.ws_connected,
        },
    decreases actions.len(),
{
    if actions.len() > 0 {
        let before = told(actions.drop_last());
        lemma_told_last(a, actions.drop_last());
        if let LinkAction::Tell(msg) = actions.last() {
            assert(before.push(msg).drop_last() =~= before);
        }
    }
}

/// The report after which the screen is live is the one that comes when every load
/// was made.
pub proof fn last_report_comes_when_all_is_loaded(b: Backfill, p: BackfillProgress)
    requires
        b.wf(),
        b.next_action() is Report,
        p.current == b.coin + 1,
        p.total == b.total,
        p.phase@ == phase_name(b.stage),
    ensures
        is_last_report(p) <==> b.loads_done() == 7 * b.total,
{
    crate::pipeline::only_the_last_report_is_full(b);
    reveal_strlit("Priority");
    reveal_strlit("Background");
    assert("Priority"@.len() != "Background"@.len());
}

/// A coin that is listed has its market data taken over, each figure in its own place;
/// its price is taken over exactly where it is zero, and nothing else of its row changes,
/// nor any other row. A coin without a row gets one at the end, of which nothing but its
/// market data is known.
pub proof fn listing_a_coin_takes_over_its_market_data(rows: Seq<MetricsModel>, c: CoinInfo, k: int)
    requires
        one_row_each(rows),
    ensures
        0 <= k < rows.len() && rows[k].coin == c.name@ ==> {
            let (after, m) = (with_coin(rows, c), with_coin(rows, c)[k]);
            &&& after.len() == rows.len()
            &&& forall|j: int|
                0 <= j < rows.len() && j != k ==> #[trigger] with_coin(rows, c)[j] == rows[j]
            &&& m.coin == rows[k].coin
            &&& m.is_perp == rows[k].is_perp
            &&& m.change_24h_pct == c.change_24h_pct
            &&& m.volume_24h == c.volume_24h
            &&& m.open_interest == c.open_interest
            &&& m.funding_rate == c.funding_rate
            &&& rows[k].price.bits == 0 || rows[k].price.bits == 0x8000_0000_0000_0000 ==> m.price
                == c.price
            &&& rows[k].price.bits != 0 && rows[k].price.bits != 0x8000_0000_0000_0000 ==> m.price
                == rows[k].price
            &&& m.volatility == rows[k].volatility
            &&& m.btc_correlation == rows[k].btc_correlation
            &&& m.btc_beta == rows[k].btc_beta
            &&& m.vs_btc == rows[k].vs_btc
            &&& m.relative_strength == rows[k].relative_strength
            &&& m.score == rows[k].score
        },
        (forall|j: int| 0 <= j < rows.len() ==> (#[trigger] rows[j]).coin != c.name@) ==> {
            let (after, m) = (with_coin(rows, c), with_coin(rows, c)[rows.len() as int]);
            &&& after.len() == rows.len() + 1
            &&& forall|j: int|
                0 <= j < rows.len() ==> #[trigger] with_coin(rows, c)[j] == rows[j]
            &&& m.coin == c.name@
            &&& m.is_perp == c.is_perp
            &&& m.price == c.price
            &&& m.change_24h_pct == c.change_24h_pct
            &&& m.volume_24h == c.volume_24h
            &&& m.open_interest == c.open_interest
            &&& m.funding_rate == c.funding_rate
            &&& m.relative_strength.bits == 0
            &&& m.score.bits == 0
            &&& forall|i: Interval| (#[trigger] m.volatility.of(i)) is None
            &&& forall|i: Interval| (#[trigger] m.btc_correlation.of(i)) is None
            &&& forall|i: Interval| (#[trigger] m.btc_beta.of(i)) is None
            &&& forall|i: Interval| (#[trigger] m.vs_btc.of(i)) is None
        },
{
    row_has_the_name(rows, c.name@);
    if 0 <= k < rows.len() && rows[k].coin == c.name@ {
        lemma_found_by_name(rows, k);
    }
}

/// Lists are taken in from their first entry to their last.
pub proof fn lists_are_taken_in_order(
    rows: Seq<MetricsModel>,
    coins: Seq<CoinInfo>,
    c: CoinInfo,
    prices: Seq<(String, Double)>,
    p: (String, Double),
    ms: Seq<CoinMetrics>,
    m: CoinMetrics,
    a: AppModel,
    msgs: Seq<FeedMessage>,
    msg: FeedMessage,
)
    ensures
        with_coins(rows, Seq::empty()) == rows,
        with_coins(rows, coins.push(c)) == with_coin(with_coins(rows, coins), c),
        with_prices(rows, Seq::empty()) == rows,
        with_prices(rows, prices.push(p)) == with_price(with_prices(rows, prices), p.0@, p.1),
        with_rows(rows, Seq::empty()) == rows,
        with_rows(rows, ms.push(m)) == with_row(with_rows(rows, ms), m@),
        after_messages(a, Seq::empty()) == a,
        after_messages(a, msgs.push(msg)) == after_message(after_messages(a, msgs), msg),
{
    assert(coins.push(c).drop_last() =~= coins);
    assert(prices.push(p).drop_last() =~= prices);
    assert(ms.push(m).drop_last() =~= ms);
    assert(msgs.push(msg).drop_last() =~= msgs);
}

/// The price listed under a name is that of the last entry of the name.
pub proof fn last_price_of_a_name_counts(prices: Seq<(String, Double)>, name: Seq<char>, k: int)
    ensures
        0 <= k < prices.len() && prices[k].0@ == name && (forall|j: int|
            k < j < prices.len() ==> (#[trigger] prices[j]).0@ != name) ==> price_listed(
            prices,
            name,
        ) == Some(prices[k].1),
        (forall|j: int| 0 <= j < prices.len() ==> (#[trigger] prices[j]).0@ != name)
            ==> price_listed(prices, name) is None,
    decreases prices.len(),
{
    if prices.len() > 0 {
        let rest = prices.drop_last();
        last_price_of_a_name_counts(rest, name, k);
        assert(forall|j: int| 0 <= j < rest.len() ==> #[trigger] rest[j] == prices[j]);
        assert(prices.last() == prices[prices.len() - 1]);
    }
}

/// Each message changes what it brings and nothing else.
pub proof fn messages_change_what_they_bring(a: AppModel, msg: FeedMessage)
    ensures
        ({
            let r = after_message(a, msg);
            &&& r.settings == a.settings
            &&& !(msg is CoinList) && !(msg is PriceUpdate) && !(msg is MetricsUpdate) ==> r.metrics
                == a.metrics
            &&& !(msg is PriceUpdate) && !(msg is BtcStateUpdate) ==> r.btc_state == a.btc_state
            &&& !(msg is CoinList) && !(msg is Progress) ==> r.phase == a.phase
            &&& !(msg is Progress) ==> r.backfill == a.backfill
            &&& !(msg is Connected) ==> r.ws_connected == a.ws_connected
            &&& !(msg is CoinList) ==> r.coins_tracked == a.coins_tracked
            &&& !(msg is DbSize) ==> r.db_size == a.db_size
            &&& msg matches FeedMessage::Connected(b) ==> r.ws_connected == b
            &&& msg matches FeedMessage::DbSize(n) ==> r.db_size == n
            &&& msg matches FeedMessage::BtcStateUpdate(s) ==> r.btc_state == s
            &&& msg matches FeedMessage::CoinList(coins) ==> r.metrics == with_coins(
                a.metrics,
                coins@,
            ) && r.coins_tracked == coins.len() && (a.phase == AppPhase::Initializing ==> r.phase
                == AppPhase::Backfilling) && (a.phase != AppPhase::Initializing ==> r.phase
                == a.phase)
            &&& msg matches FeedMessage::MetricsUpdate(ms) ==> r.metrics == with_rows(
                a.metrics,
                ms@,
            )
            &&& msg matches FeedMessage::PriceUpdate(prices) ==> r.metrics == with_prices(
                a.metrics,
                prices@,
            ) && (price_listed(prices@, "BTC"@) is None ==> r.btc_state == a.btc_state) && (
            price_listed(prices@, "BTC"@) matches Some(p) ==> r.btc_state.price == p)
                && r.btc_state.change_24h_pct == a.btc_state.change_24h_pct
                && r.btc_state.drawdown_pct == a.btc_state.drawdown_pct && r.btc_state.local_high
                == a.btc_state.local_high && r.btc_state.is_dipping == a.btc_state.is_dipping
                && r.btc_state.dip_duration_secs == a.btc_state.dip_duration_secs
            &&& msg matches FeedMessage::Progress(p) ==> r.backfill.coin == p.coin@
                && r.backfill.current == p.current && r.backfill.total == p.total
                && r.backfill.fetched == p.fetched && r.backfill.skipped == p.skipped
                && r.backfill.phase == p.phase@ && (p.current == p.total && p.phase@
                == "Background"@ ==> r.phase == AppPhase::Live) && (p.current != p.total || p.phase@
                != "Background"@ ==> r.phase == a.phase)
        }),
        brings_data(msg) <==> match msg {
            FeedMessage::CandleBatch(_) => true,
            FeedMessage::LiveCandle(_) => true,
            FeedMessage::PriceUpdate(_) => true,
            FeedMessage::MetricsUpdate(_) => true,
            FeedMessage::CoinList(_) => false,
            FeedMessage::Progress(_) => false,
            FeedMessage::BtcStateUpdate(_) => false,
            FeedMessage::DbSize(_) => false,
            FeedMessage::Connected(_) => false,
            FeedMessage::Error(_) => false,
        },
{
}

/// The screen's state says what its fields hold, each under its own name.
pub proof fn state_says_what_it_holds(app: VsBtcApp, k: int)
    ensures
        app@.metrics.len() == app.metrics@.len(),
        0 <= k < app.metrics@.len() ==> app@.metrics[k] == app.metrics@[k]@,
        app@.btc_state == app.btc_state,
        app@.phase == app.phase,
        app@.backfill.coin == app.backfill_coin@,
        app@.backfill.current == app.backfill_current,
        app@.backfill.total == app.backfill_total,
        app@.backfill.fetched == app.backfill_fetched,
        app@.backfill.skipped == app.backfill_skipped,
        app@.backfill.phase == app.backfill_phase@,
        app@.ws_connected == app.ws_connected,
        app@.coins_tracked == app.coins_tracked,
        app@.db_size == app.db_size,
        app@.settings.sort_column == app.sort_column,
        app@.settings.sort_ascending == app.sort_ascending,
        app@.settings.market_filter == app.market_filter,
        app@.settings.search_query == app.search_query@,
        app@.settings.min_volume == app.min_volume,
        app@.settings.min_volatility == app.min_volatility,
{
}

/// The application starts with nothing known and nothing left out, and shows the largest
/// open interest first.
pub proof fn application_starts_with_nothing()
    ensures
        initial().metrics.len() == 0,
        initial().phase == AppPhase::Initializing,
        !initial().ws_connected,
        initial().coins_tracked == 0,
        initial().db_size == 0,
        initial().btc_state.price.bits == 0,
        !initial().btc_state.is_dipping,
        initial().settings.sort_column == SortColumn::OpenInterest,
        !initial().settings.sort_ascending,
        initial().settings.search_query.len() == 0,
        initial().settings.min_volume.bits == 0,
        initial().settings.min_volatility.bits == 0,
{
}

/// The screen shows a row where the row's name in lower case holds the search text in
/// lower case, or nothing is searched for, and its volume and its average volatility are
/// no less than the user's least.
pub proof fn screen_shows_what_the_user_asks_for(a: AppModel, averages: Seq<RowAverages>, i: int)
    requires
        0 <= i < a.metrics.len(),
    ensures
        rows_shown(a, averages).len() == a.metrics.len(),
        rows_shown(a, averages)[i] <==> {
            &&& a.settings.search_query.len() == 0 || occurs_in(
                lowercase(a.settings.search_query),
                lowercase(a.metrics[i].coin),
            )
            &&& a.settings.min_volume.le(a.metrics[i].volume_24h)
            &&& a.settings.min_volatility.le(Double { bits: 0 }) || a.settings.min_volatility.le(
                averages[i].volatility,
            )
        },
{
}

/// The status bar tells of a report its count, its coin, and what was fetched and what
/// skipped, each in its own place.
pub proof fn report_is_told_in_full(r: Report)
    ensures
        report_text(r) == decimal(r.current as nat) + "/"@ + decimal(r.total as nat) + " — "@
            + r.coin + " (fetched: "@ + decimal(r.fetched as nat) + ", skipped: "@ + decimal(
            r.skipped as nat,
        ) + ")"@,
{
}

/// New metrics and new prices find their row by its coin, change that row, and no other;
/// metrics of a coin without a row are added, prices of one are not.
pub proof fn updates_change_the_row_of_their_coin(
    rows: Seq<MetricsModel>,
    m: MetricsModel,
    price: Double,
    k: int,
)
    requires
        one_row_each(rows),
    ensures
        0 <= k < rows.len() && rows[k].coin == m.coin ==> {
            &&& with_row(rows, m).len() == rows.len()
            &&& with_row(rows, m)[k] == m
            &&& forall|j: int|
                0 <= j < rows.len() && j != k ==> #[trigger] with_row(rows, m)[j] == rows[j]
            &&& with_price(rows, m.coin, price).len() == rows.len()
            &&& with_price(rows, m.coin, price)[k] == (MetricsModel { price, ..rows[k] })
            &&& forall|j: int|
                0 <= j < rows.len() && j != k ==> #[trigger] with_price(rows, m.coin, price)[j]
                    == rows[j]
        },
        (forall|j: int| 0 <= j < rows.len() ==> (#[trigger] rows[j]).coin != m.coin) ==> with_row(
            rows,
            m,
        ) == rows.push(m) && with_price(rows, m.coin, price) == rows,
{
    row_has_the_name(rows, m.coin);
    if 0 <= k < rows.len() && rows[k].coin == m.coin {
        lemma_found_by_name(rows, k);
    }
}

} // verus!
