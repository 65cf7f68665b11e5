//! What is sent to the exchange.

use crate::feeds::types::{CoinInfo, Interval, spot_ending};
use crate::json::{
    JsonTree, entry_map, field, integer_field, integer_value, json_rendering, object_value, render,
    text_field, text_value, value_tree, whole,
};
use crate::text::without_suffix;
use serde_json::Value;
use vstd::prelude::*;

verus! {

/// Where requests go.
pub fn rest_url() -> (r: &'static str)
    ensures
        r@ == "https://api.hyperliquid.xyz/info"@,
{
    "https://api.hyperliquid.xyz/info"
}

/// Where the live connection is opened.
pub fn ws_url() -> (r: &'static str)
    ensures
        r@ == "wss://api.hyperliquid.xyz/ws"@,
{
    "wss://api.hyperliquid.xyz/ws"
}

/// The page on which a coin is traded.
pub fn trade_url(coin: &str) -> (r: String)
    ensures
        r@ == "https://app.hyperliquid.xyz/trade/"@ + coin@,
{
    "https://app.hyperliquid.xyz/trade/".to_owned().concat(coin)
}

/// The request for the perpetual contracts.
pub open spec fn coin_list_tree() -> JsonTree {
    JsonTree::Object(map!["type"@ => JsonTree::Text("metaAndAssetCtxs"@)])
}

/// The request for the perpetual contracts.
pub fn coin_list_request() -> (r: Value)
    ensures
        value_tree(r) == coin_list_tree(),
{
    let entries: Vec<(&'static str, Value)> = vec![("type", text_value("metaAndAssetCtxs"))];
    proof {
        lemma_one_entry(entries@);
    }
    object_value(entries)
}

/// The request for the spot markets.
pub open spec fn spot_list_tree() -> JsonTree {
    JsonTree::Object(map!["type"@ => JsonTree::Text("spotMetaAndAssetCtxs"@)])
}

/// The request for the spot markets.
pub fn spot_list_request() -> (r: Value)
    ensures
        value_tree(r) == spot_list_tree(),
{
    let entries: Vec<(&'static str, Value)> = vec![("type", text_value("spotMetaAndAssetCtxs"))];
    proof {
        lemma_one_entry(entries@);
    }
    object_value(entries)
}

/// The request for the candles of a coin between two points in time.
pub open spec fn candle_request_tree(
    coin: Seq<char>,
    interval: Interval,
    start: i64,
    end: i64,
) -> JsonTree {
    JsonTree::Object(
        map![
            "type"@ => JsonTree::Text("candleSnapshot"@),
            "req"@ => JsonTree::Object(map![
                "coin"@ => JsonTree::Text(coin),
                "interval"@ => JsonTree::Text(interval.exchange_label()),
                "startTime"@ => JsonTree::Number(Some(start)),
                "endTime"@ => JsonTree::Number(Some(end)),
            ]),
        ],
    )
}

/// The request for the candles of a coin between two points in time.
pub fn candle_request(coin: &str, interval: Interval, start: i64, end: i64) -> (r: Value)
    ensures
        value_tree(r) == candle_request_tree(coin@, interval, start, end),
{
    let req: Vec<(&'static str, Value)> = vec![
        ("coin", text_value(coin)),
        ("interval", text_value(interval.as_hl_str())),
        ("startTime", integer_value(start)),
        ("endTime", integer_value(end)),
    ];
    proof {
        lemma_four_entries(req@);
        lemma_names_differ();
    }
    let entries: Vec<(&'static str, Value)> = vec![
        ("type", text_value("candleSnapshot")),
        ("req", object_value(req)),
    ];
    proof {
        lemma_two_entries(entries@);
        lemma_names_differ();
    }
    object_value(entries)
}

/// From when on candles are asked for: from a given point in time or, without one,
/// from as many candles back as are wanted.
pub open spec fn window_start(now: i64, since: Option<i64>, interval: Interval, lookback: nat) -> int {
    match since {
        Some(t) => t as int,
        None => now - interval.seconds() * lookback * 1000,
    }
}

/// From when to when candles are asked for: up to now.
pub fn candle_window(now: i64, since: Option<i64>, interval: Interval, lookback: usize) -> (r: (
    i64,
    i64,
))
    requires
        since is None ==> interval.seconds() * lookback * 1000 <= i64::MAX && now
            - interval.seconds() * lookback * 1000 >= i64::MIN,
    ensures
        r.0 == window_start(now, since, interval, lookback as nat),
        r.1 == now,
{
    let start: i64 = match since {
        Some(t) => t,
        None => {
            let d: i64 = interval.duration_secs();
            proof {
                assert(lookback <= d * lookback) by (nonlinear_arith)
                    requires
                        d >= 1,
                ;
                assert(d * (lookback as i64) == interval.seconds() * lookback);
            }
            now - d * (lookback as i64) * 1000
        },
    };
    (start, now)
}

/// The message that subscribes to the five-minute candles of a coin.
pub open spec fn candle_subscription_tree(api_name: Seq<char>) -> JsonTree {
    JsonTree::Object(
        map![
            "method"@ => JsonTree::Text("subscribe"@),
            "subscription"@ => JsonTree::Object(map![
                "type"@ => JsonTree::Text("candle"@),
                "coin"@ => JsonTree::Text(api_name),
                "interval"@ => JsonTree::Text("5m"@),
            ]),
        ],
    )
}

/// The message that subscribes to the mid prices of all coins.
pub open spec fn mids_subscription_tree() -> JsonTree {
    JsonTree::Object(
        map![
            "method"@ => JsonTree::Text("subscribe"@),
            "subscription"@ => JsonTree::Object(map!["type"@ => JsonTree::Text("allMids"@)]),
        ],
    )
}

/// The message that subscribes to the five-minute candles of a coin.
pub fn candle_subscription(coin: &CoinInfo) -> (r: String)
    ensures
        r@ == json_rendering(
            candle_subscription_tree(without_suffix(coin.name@, spot_ending())),
        ),
{
    let inner: Vec<(&'static str, Value)> = vec![
        ("type", text_value("candle")),
        ("coin", text_value(coin.api_name().as_str())),
        ("interval", text_value("5m")),
    ];
    proof {
        lemma_three_entries(inner@);
        lemma_names_differ();
    }
    let entries: Vec<(&'static str, Value)> = vec![
        ("method", text_value("subscribe")),
        ("subscription", object_value(inner)),
    ];
    proof {
        lemma_two_entries(entries@);
        lemma_names_differ();
        reveal_with_fuel(whole, 3);
    }
    render(&object_value(entries))
}

/// The message that subscribes to the mid prices of all coins.
pub fn mids_subscription() -> (r: String)
    ensures
        r@ == json_rendering(mids_subscription_tree()),
{
    let inner: Vec<(&'static str, Value)> = vec![("type", text_value("allMids"))];
    proof {
        lemma_one_entry(inner@);
    }
    let entries: Vec<(&'static str, Value)> = vec![
        ("method", text_value("subscribe")),
        ("subscription", object_value(inner)),
    ];
    proof {
        lemma_two_entries(entries@);
        lemma_names_differ();
        reveal_with_fuel(whole, 3);
    }
    render(&object_value(entries))
}

/// The names of entries that stand side by side differ.
proof fn lemma_names_differ()
    ensures
        "type"@ != "req"@,
        "coin"@ != "interval"@,
        "coin"@ != "startTime"@,
        "coin"@ != "endTime"@,
        "interval"@ != "startTime"@,
        "interval"@ != "endTime"@,
        "startTime"@ != "endTime"@,
        "method"@ != "subscription"@,
        "type"@ != "coin"@,
        "type"@ != "interval"@,
{
    reveal_strlit("type");
    reveal_strlit("req");
    reveal_strlit("coin");
    reveal_strlit("interval");
    reveal_strlit("startTime");
    reveal_strlit("endTime");
    reveal_strlit("method");
    reveal_strlit("subscription");
    assert("type"@.len() == 4 && "req"@.len() == 3 && "coin"@.len() == 4);
    assert("interval"@.len() == 8 && "startTime"@.len() == 9 && "endTime"@.len() == 7);
    assert("method"@.len() == 6 && "subscription"@.len() == 12);
    assert("type"@[0] == 't' && "coin"@[0] == 'c');
}

proof fn lemma_one_entry(e: Seq<(&'static str, Value)>)
    requires
        e.len() == 1,
    ensures
        entry_map(e) == map![e[0].0@ => value_tree(e[0].1)],
{
    reveal_with_fuel(entry_map, 2);
    assert(e.drop_last() =~= Seq::empty());
}

proof fn lemma_two_entries(e: Seq<(&'static str, Value)>)
    requires
        e.len() == 2,
    ensures
        entry_map(e) == map![e[0].0@ => value_tree(e[0].1), e[1].0@ => value_tree(e[1].1)],
{
    lemma_one_entry(e.drop_last());
}

proof fn lemma_three_entries(e: Seq<(&'static str, Value)>)
    requires
        e.len() == 3,
    ensures
        entry_map(e) == map![
            e[0].0@ => value_tree(e[0].1),
            e[1].0@ => value_tree(e[1].1),
            e[2].0@ => value_tree(e[2].1),
        ],
{
    lemma_two_entries(e.drop_last());
}

proof fn lemma_four_entries(e: Seq<(&'static str, Value)>)
    requires
        e.len() == 4,
    ensures
        entry_map(e) == map![
            e[0].0@ => value_tree(e[0].1),
            e[1].0@ => value_tree(e[1].1),
            e[2].0@ => value_tree(e[2].1),
            e[3].0@ => value_tree(e[3].1),
        ],
{
    lemma_three_entries(e.drop_last());
}

/// The request for candles names the coin, the exchange's name of the timeframe, and
/// the two points in time, each under its own key, and nothing else.
pub proof fn candle_request_says_what_is_wanted(
    coin: Seq<char>,
    interval: Interval,
    start: i64,
    end: i64,
)
    ensures
        ({
            let t = candle_request_tree(coin, interval, start, end);
            &&& text_field(t, "type"@) == Some("candleSnapshot"@)
            &&& field(t, "req"@) matches Some(q) && text_field(q, "coin"@) == Some(coin)
                && text_field(q, "interval"@) == Some(interval.exchange_label()) && integer_field(
                q,
                "startTime"@,
            ) == Some(start) && integer_field(q, "endTime"@) == Some(end) && (forall|k: Seq<char>|
             #[trigger]
                field(q, k) is Some ==> k == "coin"@ || k == "interval"@ || k == "startTime"@ || k
                    == "endTime"@)
            &&& forall|k: Seq<char>| #[trigger]
                field(t, k) is Some ==> k == "type"@ || k == "req"@
        }),
{
    lemma_names_differ();
}

/// The subscriptions ask for what they are named after.
pub proof fn subscriptions_say_what_is_wanted(api_name: Seq<char>)
    ensures
        text_field(coin_list_tree(), "type"@) == Some("metaAndAssetCtxs"@),
        text_field(spot_list_tree(), "type"@) == Some("spotMetaAndAssetCtxs"@),
        text_field(candle_subscription_tree(api_name), "method"@) == Some("subscribe"@),
        field(candle_subscription_tree(api_name), "subscription"@) matches Some(q) && text_field(
            q,
            "type"@,
        ) == Some("candle"@) && text_field(q, "coin"@) == Some(api_name) && text_field(
            q,
            "interval"@,
        ) == Some(Interval::M5.exchange_label()),
        text_field(mids_subscription_tree(), "method"@) == Some("subscribe"@),
        field(mids_subscription_tree(), "subscription"@) matches Some(q) && text_field(q, "type"@)
            == Some("allMids"@),
{
    lemma_names_differ();
}

/// Candles are asked for from a point in time on where one is given, and otherwise from
/// as long ago as the wanted number of candles lasts.
pub proof fn window_reaches_back_as_far_as_wanted(
    now: i64,
    t: i64,
    interval: Interval,
    lookback: nat,
)
    ensures
        window_start(now, Some(t), interval, lookback) == t,
        now - window_start(now, None, interval, lookback) == 1000 * (interval.seconds() * lookback),
        window_start(now, None, interval, 0) == now,
        window_start(now, None, interval, lookback) - window_start(
            now,
            None,
            interval,
            lookback + 1,
        ) == 1000 * interval.seconds(),
{
    let s = interval.seconds();
    assert(s * (lookback + 1) == s * lookback + s) by (nonlinear_arith);
    assert(s * 0 == 0) by (nonlinear_arith);
}

} // verus!
