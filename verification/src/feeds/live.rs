//! The live connection: what it receives, and how it is kept up.

use crate::double::Double;
use crate::feeds::hyperliquid::{
    CandleNumbers, CandleText, CandleTextModel, candle_text, finish_candle, numbered_candle,
    read_candle,
};
use crate::feeds::messages::FeedMessage;
use crate::feeds::requests::{
    candle_subscription, candle_subscription_tree, mids_subscription, mids_subscription_tree,
};
use crate::feeds::types::{Candle, CoinInfo, Interval, spot_ending};
use crate::json::{Json, JsonTree, field, json_meaning, json_rendering, key_place, key_place_is_first,
    parse_json, text_field};
use crate::text::{same_text, trim_suffixes, without_suffix, without_suffixes};
use vstd::prelude::*;
use vstd::string::*;

verus! {

/// A live candle as the exchange sends it.
#[derive(Debug)]
pub struct LiveCandleText {
    pub coin: String,
    pub row: CandleText,
}

/// What the exchange says of a live candle.
pub struct LiveCandleModel {
    pub coin: Seq<char>,
    pub row: CandleTextModel,
}

impl View for LiveCandleText {
    type V = LiveCandleModel;

    open spec fn view(&self) -> LiveCandleModel {
        LiveCandleModel { coin: self.coin@, row: self.row@ }
    }
}

/// The coin of a live symbol: the symbol without the endings `/USD` and then
/// without the endings `-PERP`.
pub open spec fn symbol_coin(symbol: Seq<char>) -> Seq<char> {
    without_suffixes(without_suffixes(symbol, "/USD"@), "-PERP"@)
}

/// What a message says of a live candle, where it does.
pub open spec fn ws_candle(val: JsonTree) -> Option<LiveCandleModel> {
    match field(val, "data"@) {
        Some(data) => match (field(data, "data"@), text_field(data, "s"@)) {
            (Some(inner), Some(symbol)) => match candle_text(inner) {
                Some(row) => Some(LiveCandleModel { coin: symbol_coin(symbol), row }),
                None => None,
            },
            _ => None,
        },
        None => None,
    }
}

/// Reads a live candle out of a message.
pub fn parse_ws_candle(val: &Json) -> (r: Option<LiveCandleText>)
    ensures
        match r {
            Some(c) => ws_candle(val.tree()) == Some(c@),
            None => ws_candle(val.tree()) is None,
        },
{
    match val.get("data") {
        Some(data) => match (data.get("data"), data.get_text("s")) {
            (Some(inner), Some(symbol)) => match read_candle(inner) {
                Some(row) => {
                    let coin = trim_suffixes(
                        trim_suffixes(symbol.as_str(), "/USD").as_str(),
                        "-PERP",
                    );
                    Some(LiveCandleText { coin, row })
                },
                None => None,
            },
            _ => None,
        },
        None => None,
    }
}

/// The mid prices in a message, where it holds any.
pub open spec fn ws_mids(val: JsonTree) -> Option<Map<Seq<char>, JsonTree>> {
    match field(val, "data"@) {
        Some(data) => match field(data, "mids"@) {
            Some(JsonTree::Object(m)) => Some(m),
            _ => None,
        },
        None => None,
    }
}

/// Whether `v` lists, each coin once, the prices of `m` that are texts.
pub open spec fn lists_mids(v: Seq<(String, String)>, m: Map<Seq<char>, JsonTree>) -> bool {
    &&& forall|i: int, j: int| 0 <= i < j < v.len() ==> v[i].0@ != v[j].0@
    &&& forall|i: int|
        0 <= i < v.len() ==> m.contains_key((#[trigger] v[i]).0@) && m[v[i].0@] == JsonTree::Text(
            v[i].1@,
        )
    &&& forall|k: Seq<char>| #[trigger]
        m.contains_key(k) && m[k] is Text ==> exists|i: int|
            0 <= i < v.len() && (#[trigger] v[i]).0@ == k
}

/// Reads the mid prices out of a message, as text.
pub fn parse_ws_mids(val: &Json) -> (r: Option<Vec<(String, String)>>)
    ensures
        match r {
            Some(v) => ws_mids(val.tree()) matches Some(m) && lists_mids(v@, m),
            None => ws_mids(val.tree()) is None,
        },
{
    let mids = match val.get("data") {
        Some(data) => data.get("mids"),
        None => None,
    };
    match mids {
        Some(Json::Object(entries)) => Some(text_entries(entries)),
        _ => None,
    }
}

fn text_entries(entries: &Vec<(String, Json)>) -> (r: Vec<(String, String)>)
    ensures
        lists_mids(r@, Json::Object(*entries).tree()->Object_0),
{
    let ghost m = Json::Object(*entries).tree()->Object_0;
    let mut r: Vec<(String, String)> = Vec::new();
    let mut i: usize = 0;
    while i < entries.len()
        invariant
            i <= entries@.len(),
            m == Json::Object(*entries).tree()->Object_0,
            forall|a: int, b: int| 0 <= a < b < r@.len() ==> r@[a].0@ != r@[b].0@,
            forall|a: int|
                0 <= a < r@.len() ==> m.contains_key((#[trigger] r@[a]).0@) && m[r@[a].0@]
                    == JsonTree::Text(r@[a].1@),
            forall|k: Seq<char>| #[trigger]
                m.contains_key(k) && m[k] is Text && key_place(entries@, k) < i ==> exists|a: int|
                    0 <= a < r@.len() && (#[trigger] r@[a]).0@ == k,
            forall|a: int| 0 <= a < r@.len() ==> key_place(entries@, (#[trigger] r@[a]).0@) < i,
        decreases entries@.len() - i,
    {
        let mut first = true;
        let mut j: usize = 0;
        while j < i
            invariant
                j <= i,
                i < entries@.len(),
                first == forall|b: int| 0 <= b < j ==> (#[trigger] entries@[b]).0@ != entries@[i as int].0@,
            decreases i - j,
        {
            if same_text(entries[j].0.as_str(), entries[i].0.as_str()) {
                first = false;
            }
            j = j + 1;
        }
        let ghost key = entries@[i as int].0@;
        proof {
            key_place_is_first(entries@, key);
        }
        let ghost before = r@;
        if first {
            assert(key_place(entries@, key) == i);
            assert(m.contains_key(key));
            assert(m[key] == entries@[i as int].1.tree());
            if let Json::Text(s) = &entries[i].1 {
                r.push((entries[i].0.clone(), s.clone()));
                assert(forall|a: int| 0 <= a < before.len() ==> r@[a] == before[a]);
                assert(r@[before.len() as int].0@ == key);
            }
        } else {
            assert(key_place(entries@, key) < i);
        }
        proof {
            assert forall|k: Seq<char>| #[trigger]
                m.contains_key(k) && m[k] is Text && key_place(entries@, k) < i + 1 implies exists|
                a: int,
            |
                0 <= a < r@.len() && (#[trigger] r@[a]).0@ == k by {
                key_place_is_first(entries@, k);
                if key_place(entries@, k) < i {
                    let a = choose|a: int| 0 <= a < before.len() && (#[trigger] before[a]).0@ == k;
                    assert(r@[a].0@ == k);
                } else {
                    assert(k == key);
                    assert(first);
                }
            }
        }
        i = i + 1;
    }
    proof {
        assert forall|k: Seq<char>| #[trigger] m.contains_key(k) && m[k] is Text implies exists|a: int|
            0 <= a < r@.len() && (#[trigger] r@[a]).0@ == k by {
            key_place_is_first(entries@, k);
        }
    }
    r
}

/// What a live message was read as; prices are still text.
#[derive(Debug)]
pub enum LiveText {
    Candle(LiveCandleText),
    Mids(Vec<(String, String)>),
    Nothing,
}

/// Whether `r` is what a message says: a candle, or else mid prices, or nothing.
pub open spec fn reads_as(val: JsonTree, r: LiveText) -> bool {
    match ws_candle(val) {
        Some(c) => r matches LiveText::Candle(x) && x@ == c,
        None => match ws_mids(val) {
            Some(m) => r matches LiveText::Mids(v) && lists_mids(v@, m),
            None => r is Nothing,
        },
    }
}

/// Reads a live message.
pub fn read_live_message(val: &Json) -> (r: LiveText)
    ensures
        reads_as(val.tree(), r),
{
    match parse_ws_candle(val) {
        Some(c) => LiveText::Candle(c),
        None => match parse_ws_mids(val) {
            Some(v) => LiveText::Mids(v),
            None => LiveText::Nothing,
        },
    }
}

/// Reads the text of a live message; a text that is no JSON document says nothing.
pub fn read_live_text(text: &str) -> (r: LiveText)
    ensures
        match json_meaning(text@) {
            Ok(t) => reads_as(t, r),
            Err(_) => r is Nothing,
        },
{
    match parse_json(text) {
        Ok(j) => read_live_message(&j),
        Err(_) => LiveText::Nothing,
    }
}

/// The name under which a coin is shown, from the name that the exchange's
/// interface has for it. Where several coins have that name the last one counts;
/// where none has, the name stands for itself.
pub open spec fn display_name(coins: Seq<CoinInfo>, api: Seq<char>) -> Seq<char>
    decreases coins.len(),
{
    if coins.len() == 0 {
        api
    } else if without_suffix(coins.last().name@, spot_ending()) == api {
        coins.last().name@
    } else {
        display_name(coins.drop_last(), api)
    }
}

fn shown_name(coins: &[CoinInfo], api: &str) -> (r: String)
    ensures
        r@ == display_name(coins@, api@),
{
    let mut k: usize = coins.len();
    assert(coins@.take(k as int) =~= coins@);
    while k > 0
        invariant
            k <= coins@.len(),
            display_name(coins@, api@) == display_name(coins@.take(k as int), api@),
        decreases k,
    {
        assert(coins@.take(k as int).last() == coins@[k - 1]);
        assert(coins@.take(k as int).drop_last() =~= coins@.take(k - 1));
        if same_text(coins[k - 1].api_name().as_str(), api) {
            return coins[k - 1].name.clone();
        }
        k = k - 1;
    }
    api.to_owned()
}

/// The live candle of a message with its numbers, under the name that its coin is
/// shown by; none where a text is no number. Live candles are of five minutes.
pub fn live_candle(coins: &[CoinInfo], t: &LiveCandleText, n: &CandleNumbers) -> (r: Option<Candle>)
    ensures
        match r {
            Some(c) => numbered_candle(
                display_name(coins@, t.coin@),
                Interval::M5,
                t.row.timestamp,
                *n,
            ) == Some(c@),
            None => numbered_candle(
                display_name(coins@, t.coin@),
                Interval::M5,
                t.row.timestamp,
                *n,
            ) is None,
        },
{
    let name = shown_name(coins, t.coin.as_str());
    finish_candle(name.as_str(), Interval::M5, &t.row, n)
}

/// Whether a coin of a name is listed.
pub open spec fn is_listed(coins: Seq<CoinInfo>, name: Seq<char>) -> bool {
    exists|i: int| 0 <= i < coins.len() && (#[trigger] coins[i]).name@ == name
}

/// The name under which a mid price is shown: that of the coin it is listed under or,
/// where no coin has that name and a spot market does, that of the spot market.
pub open spec fn price_name(coins: Seq<CoinInfo>, api: Seq<char>) -> Seq<char> {
    if !is_listed(coins, api) && is_listed(coins, api + spot_ending()) {
        api + spot_ending()
    } else {
        api
    }
}

fn has_coin(coins: &[CoinInfo], name: &str) -> (r: bool)
    ensures
        r == is_listed(coins@, name@),
{
    let mut k: usize = 0;
    while k < coins.len()
        invariant
            k <= coins@.len(),
            forall|i: int| 0 <= i < k ==> (#[trigger] coins@[i]).name@ != name@,
        decreases coins@.len() - k,
    {
        if same_text(coins[k].name.as_str(), name) {
            return true;
        }
        k = k + 1;
    }
    false
}

fn shown_price_name(coins: &[CoinInfo], api: &str) -> (r: String)
    ensures
        r@ == price_name(coins@, api@),
{
    if !has_coin(coins, api) {
        let spot = api.to_owned().concat("/SPOT");
        if has_coin(coins, spot.as_str()) {
            return spot;
        }
    }
    api.to_owned()
}

/// The price of a coin that is listed goes to that coin; the price of a spot market,
/// by the name that the exchange lists it under, goes to the spot market unless a coin
/// has that very name.
pub proof fn prices_find_their_coins(coins: Seq<CoinInfo>, k: int)
    requires
        0 <= k < coins.len(),
    ensures
        price_name(coins, coins[k].name@) == coins[k].name@,
        forall|api: Seq<char>|
            coins[k].name@ == #[trigger] (api + spot_ending()) && !is_listed(coins, api)
                ==> price_name(coins, api) == coins[k].name@,
{
    assert(is_listed(coins, coins[k].name@));
}

/// The prices among the first `k` whose text is a number, under the names that they are
/// shown by.
pub open spec fn numbered_prices(
    coins: Seq<CoinInfo>,
    mids: Seq<(String, String)>,
    numbers: Seq<Option<Double>>,
    k: int,
) -> Seq<(Seq<char>, Double)>
    decreases k,
{
    if k <= 0 {
        Seq::empty()
    } else {
        let before = numbered_prices(coins, mids, numbers, k - 1);
        match numbers[k - 1] {
            Some(x) => before.push((price_name(coins, mids[k - 1].0@), x)),
            None => before,
        }
    }
}

/// What a list of prices says.
pub open spec fn price_models(v: Seq<(String, Double)>) -> Seq<(Seq<char>, Double)> {
    v.map_values(|p: (String, Double)| (p.0@, p.1))
}

/// The mid prices of a message with their numbers, without those whose text is no
/// number, under the names that they are shown by.
pub fn finish_prices(
    coins: &[CoinInfo],
    mids: &Vec<(String, String)>,
    numbers: &Vec<Option<Double>>,
) -> (r: Vec<(String, Double)>)
    requires
        mids@.len() == numbers@.len(),
    ensures
        price_models(r@) == numbered_prices(coins@, mids@, numbers@, mids@.len() as int),
{
    let mut r: Vec<(String, Double)> = Vec::new();
    let mut k: usize = 0;
    assert(price_models(r@) =~= Seq::empty());
    while k < mids.len()
        invariant
            k <= mids@.len(),
            mids@.len() == numbers@.len(),
            price_models(r@) == numbered_prices(coins@, mids@, numbers@, k as int),
        decreases mids@.len() - k,
    {
        if let Some(x) = numbers[k] {
            let ghost before = price_models(r@);
            let name = shown_price_name(coins, mids[k].0.as_str());
            r.push((name, x));
            assert(price_models(r@) =~= before.push((price_name(coins@, mids@[k as int].0@), x)));
        }
        k = k + 1;
    }
    r
}

/// What a candle message brings: its candle, and nothing where a text in it is no
/// number.
pub fn candle_update(coins: &[CoinInfo], t: &LiveCandleText, n: &CandleNumbers) -> (r: LiveUpdate)
    ensures
        match numbered_candle(display_name(coins@, t.coin@), Interval::M5, t.row.timestamp, *n) {
            Some(m) => r matches LiveUpdate::Candle(c) && c@ == m,
            None => r is Nothing,
        },
{
    match live_candle(coins, t, n) {
        Some(c) => LiveUpdate::Candle(c),
        None => LiveUpdate::Nothing,
    }
}

/// What a message of mid prices brings: those whose text is a number, under the names
/// that they are shown by.
pub fn price_update(
    coins: &[CoinInfo],
    mids: &Vec<(String, String)>,
    numbers: &Vec<Option<Double>>,
) -> (r: LiveUpdate)
    requires
        mids@.len() == numbers@.len(),
    ensures
        r matches LiveUpdate::Prices(p) && price_models(p@) == numbered_prices(
            coins@,
            mids@,
            numbers@,
            mids@.len() as int,
        ),
{
    LiveUpdate::Prices(finish_prices(coins, mids, numbers))
}

/// The messages that are sent once the connection stands: one for the mid prices,
/// then one for the candles of each coin.
pub fn subscriptions(coins: &[CoinInfo]) -> (r: Vec<String>)
    ensures
        r@.len() == coins@.len() + 1,
        r@[0]@ == json_rendering(mids_subscription_tree()),
        forall|i: int|
            0 <= i < coins@.len() ==> (#[trigger] r@[i + 1])@ == json_rendering(
                candle_subscription_tree(without_suffix(coins@[i].name@, spot_ending())),
            ),
{
    let mut r: Vec<String> = Vec::new();
    r.push(mids_subscription());
    let mut k: usize = 0;
    while k < coins.len()
        invariant
            k <= coins@.len(),
            r@.len() == k + 1,
            r@[0]@ == json_rendering(mids_subscription_tree()),
            forall|i: int|
                1 <= i < r@.len() ==> (#[trigger] r@[i])@ == json_rendering(
                    candle_subscription_tree(without_suffix(coins@[i - 1].name@, spot_ending())),
                ),
        decreases coins@.len() - k,
    {
        r.push(candle_subscription(&coins[k]));
        k = k + 1;
    }
    r
}

/// Whether the live connection stands.
#[derive(Clone, Copy, Debug, PartialEq, Eq, Structural)]
pub enum LinkState {
    Closed,
    Open,
}

/// What a live message brought.
#[derive(Debug)]
pub enum LiveUpdate {
    Candle(Candle),
    Prices(Vec<(String, Double)>),
    Nothing,
}

/// What happened to the live connection.
#[derive(Debug)]
pub enum LinkEvent {
    /// It was opened.
    Opened,
    /// It could not be opened.
    OpenFailed,
    /// A text arrived.
    Received(LiveUpdate),
    /// The other side asked whether this one is still there.
    Ping,
    /// Anything else arrived.
    Other,
    /// It failed.
    Broken,
    /// It came to its end.
    Ended,
}

/// What is to be done about the live connection.
#[derive(Debug)]
pub enum LinkAction {
    /// Send a message to the screen.
    Tell(FeedMessage),
    /// Send every subscription.
    Subscribe,
    /// Answer that this side is still there.
    Pong,
    /// Wait for some milliseconds.
    Wait(u64),
    /// Open the connection.
    Connect,
}

/// What is done to get a lost connection back.
pub open spec fn recovery() -> Seq<LinkAction> {
    seq![
        LinkAction::Tell(FeedMessage::Connected(false)),
        LinkAction::Wait(5000),
        LinkAction::Connect,
    ]
}

/// The state after an event, and what is done about it.
pub open spec fn link_step(state: LinkState, event: LinkEvent) -> (LinkState, Seq<LinkAction>) {
    match (state, event) {
        (LinkState::Closed, LinkEvent::Opened) => (
            LinkState::Open,
            seq![LinkAction::Tell(FeedMessage::Connected(true)), LinkAction::Subscribe],
        ),
        (LinkState::Closed, LinkEvent::OpenFailed) => (LinkState::Closed, recovery()),
        (LinkState::Open, LinkEvent::Received(u)) => (
            LinkState::Open,
            match u {
                LiveUpdate::Candle(c) => seq![LinkAction::Tell(FeedMessage::LiveCandle(c))],
                LiveUpdate::Prices(p) => seq![LinkAction::Tell(FeedMessage::PriceUpdate(p))],
                LiveUpdate::Nothing => Seq::empty(),
            },
        ),
        (LinkState::Open, LinkEvent::Ping) => (LinkState::Open, seq![LinkAction::Pong]),
        (LinkState::Open, LinkEvent::Broken) => (
            LinkState::Closed,
            seq![LinkAction::Tell(FeedMessage::Connected(false))] + recovery(),
        ),
        (LinkState::Open, LinkEvent::Ended) => (LinkState::Closed, recovery()),
        (s, _) => (s, Seq::empty()),
    }
}

/// Follows an event on the live connection.
pub fn on_link_event(state: LinkState, event: LinkEvent) -> (r: (LinkState, Vec<LinkAction>))
    ensures
        (r.0, r.1@) == link_step(state, event),
{
    let ghost step = link_step(state, event);
    let r = match (state, event) {
        (LinkState::Closed, LinkEvent::Opened) => (
            LinkState::Open,
            vec![LinkAction::Tell(FeedMessage::Connected(true)), LinkAction::Subscribe],
        ),
        (LinkState::Closed, LinkEvent::OpenFailed) => (
            LinkState::Closed,
            vec![
                LinkAction::Tell(FeedMessage::Connected(false)),
                LinkAction::Wait(5000),
                LinkAction::Connect,
            ],
        ),
        (LinkState::Open, LinkEvent::Received(u)) => (
            LinkState::Open,
            match u {
                LiveUpdate::Candle(c) => vec![LinkAction::Tell(FeedMessage::LiveCandle(c))],
                LiveUpdate::Prices(p) => vec![LinkAction::Tell(FeedMessage::PriceUpdate(p))],
                LiveUpdate::Nothing => Vec::new(),
            },
        ),
        (LinkState::Open, LinkEvent::Ping) => (LinkState::Open, vec![LinkAction::Pong]),
        (LinkState::Open, LinkEvent::Broken) => (
            LinkState::Closed,
            vec![
                LinkAction::Tell(FeedMessage::Connected(false)),
                LinkAction::Tell(FeedMessage::Connected(false)),
                LinkAction::Wait(5000),
                LinkAction::Connect,
            ],
        ),
        (LinkState::Open, LinkEvent::Ended) => (
            LinkState::Closed,
            vec![
                LinkAction::Tell(FeedMessage::Connected(false)),
                LinkAction::Wait(5000),
                LinkAction::Connect,
            ],
        ),
        (s, _) => (s, Vec::new()),
    };
    assert(r.1@ =~= step.1);
    r
}

/// What the screen was told last of whether the connection stands.
pub open spec fn told_status(actions: Seq<LinkAction>) -> Option<bool>
    decreases actions.len(),
{
    if actions.len() == 0 {
        None
    } else {
        match actions.last() {
            LinkAction::Tell(FeedMessage::Connected(b)) => Some(b),
            _ => told_status(actions.drop_last()),
        }
    }
}

/// The screen is told of every change, and what it is told last is how things
/// stand.
pub proof fn screen_knows_whether_the_link_stands(state: LinkState, event: LinkEvent)
    ensures
        ({
            let (after, actions) = link_step(state, event);
            &&& after != state ==> told_status(actions) is Some
            &&& told_status(actions) matches Some(b) ==> b == (after == LinkState::Open)
        }),
{
    let (after, actions) = link_step(state, event);
    reveal_with_fuel(told_status, 5);
    if actions.len() >= 3 {
        let a = actions.drop_last();
        let b = a.drop_last();
        assert(actions.last() == LinkAction::Connect);
        assert(a.last() == LinkAction::Wait(5000));
        assert(b.last() == LinkAction::Tell(FeedMessage::Connected(false)));
    } else if actions.len() == 2 {
        assert(actions.drop_last().last() == LinkAction::Tell(FeedMessage::Connected(true)));
    } else if actions.len() == 1 {
        assert(actions.drop_last().len() == 0);
    }
}

/// A connection that was lost or could not be opened is opened again, after the
/// screen was told and five seconds have passed.
pub proof fn lost_link_is_opened_again(state: LinkState, event: LinkEvent)
    requires
        (state == LinkState::Open && (event is Broken || event is Ended)) || (state
            == LinkState::Closed && event is OpenFailed),
    ensures
        ({
            let (after, actions) = link_step(state, event);
            &&& after == LinkState::Closed
            &&& actions.len() >= 3
            &&& actions.skip(actions.len() - 3) == recovery()
        }),
{
    let (after, actions) = link_step(state, event);
    assert(actions.skip(actions.len() - 3) =~= recovery());
}

/// A live candle bears the name of a listed coin that the exchange's interface knows by
/// the candle's name, the last one listed where there are several; where no listed coin
/// is known by it, the candle's own name.
pub proof fn live_candles_bear_the_name_of_their_coin(coins: Seq<CoinInfo>, api: Seq<char>, k: int)
    ensures
        0 <= k < coins.len() && without_suffix(coins[k].name@, "/SPOT"@) == api && (forall|j: int|
            k < j < coins.len() ==> without_suffix(
                (#[trigger] coins[j]).name@,
                "/SPOT"@,
            ) != api) ==> display_name(coins, api) == coins[k].name@,
        (forall|j: int|
            0 <= j < coins.len() ==> without_suffix((#[trigger] coins[j]).name@, "/SPOT"@) != api)
            ==> display_name(coins, api) == api,
    decreases coins.len(),
{
    if coins.len() > 0 {
        let rest = coins.drop_last();
        live_candles_bear_the_name_of_their_coin(rest, api, k);
        assert forall|j: int| 0 <= j < rest.len() implies #[trigger] rest[j] == coins[j] by {}
        assert(coins.last() == coins[coins.len() - 1]);
    }
}

/// Where exactly one listed coin is known by the candle's name, the candle bears that
/// coin's name; a name that a live candle is given is a listed one or its own.
pub proof fn live_candles_go_to_listed_coins(coins: Seq<CoinInfo>, api: Seq<char>)
    ensures
        forall|k: int|
            0 <= k < coins.len() && without_suffix((#[trigger] coins[k]).name@, "/SPOT"@) == api && (
            forall|j: int|
                0 <= j < coins.len() && j != k ==> without_suffix(
                    (#[trigger] coins[j]).name@,
                    "/SPOT"@,
                ) != api) ==> display_name(coins, api) == coins[k].name@,
        (exists|k: int|
            0 <= k < coins.len() && (#[trigger] coins[k]).name@ == display_name(coins, api)
                && without_suffix(coins[k].name@, "/SPOT"@) == api) || (display_name(coins, api)
            == api && forall|j: int|
            0 <= j < coins.len() ==> without_suffix((#[trigger] coins[j]).name@, "/SPOT"@) != api),
    decreases coins.len(),
{
    assert forall|k: int|
        0 <= k < coins.len() && without_suffix((#[trigger] coins[k]).name@, "/SPOT"@) == api && (
        forall|j: int|
            0 <= j < coins.len() && j != k ==> without_suffix(
                (#[trigger] coins[j]).name@,
                "/SPOT"@,
            ) != api) implies display_name(coins, api) == coins[k].name@ by {
        live_candles_bear_the_name_of_their_coin(coins, api, k);
    }
    if coins.len() > 0 {
        let rest = coins.drop_last();
        live_candles_go_to_listed_coins(rest, api);
        assert forall|j: int| 0 <= j < rest.len() implies #[trigger] rest[j] == coins[j] by {}
        assert(forall|j: int| 0 <= j < rest.len() ==> rest[j] == #[trigger] coins[j]);
        assert(coins.last() == coins[coins.len() - 1]);
    }
}

/// A mid price keeps its name where a coin has it, takes that of the spot market where
/// only a spot market does, and keeps it where neither does.
pub proof fn mid_prices_bear_the_name_of_their_coin(coins: Seq<CoinInfo>, api: Seq<char>)
    ensures
        (exists|i: int| 0 <= i < coins.len() && (#[trigger] coins[i]).name@ == api) ==> price_name(
            coins,
            api,
        ) == api,
        (forall|i: int| 0 <= i < coins.len() ==> (#[trigger] coins[i]).name@ != api) && (exists|
            i: int,
        |
            0 <= i < coins.len() && (#[trigger] coins[i]).name@ == api + "/SPOT"@) ==> price_name(
            coins,
            api,
        ) == api + "/SPOT"@,
        (forall|i: int|
            0 <= i < coins.len() ==> (#[trigger] coins[i]).name@ != api && coins[i].name@ != api
                + "/SPOT"@) ==> price_name(coins, api) == api,
{
}

proof fn lemma_prices_of_prefix(
    coins: Seq<CoinInfo>,
    mids: Seq<(String, String)>,
    numbers: Seq<Option<Double>>,
    mids2: Seq<(String, String)>,
    numbers2: Seq<Option<Double>>,
    k: int,
)
    requires
        forall|i: int| 0 <= i < k ==> mids[i] == mids2[i] && numbers[i] == numbers2[i],
    ensures
        numbered_prices(coins, mids, numbers, k) == numbered_prices(coins, mids2, numbers2, k),
    decreases k,
{
    if k > 0 {
        lemma_prices_of_prefix(coins, mids, numbers, mids2, numbers2, k - 1);
    }
}

/// A further mid price adds its number at the end, under the name it is shown by; one
/// whose text is no number adds nothing.
pub proof fn finished_prices_are_the_numbered_ones(
    coins: Seq<CoinInfo>,
    mids: Seq<(String, String)>,
    numbers: Seq<Option<Double>>,
    mid: (String, String),
    n: Option<Double>,
)
    requires
        mids.len() == numbers.len(),
    ensures
        ({
            let before = numbered_prices(coins, mids, numbers, mids.len() as int);
            let after = numbered_prices(
                coins,
                mids.push(mid),
                numbers.push(n),
                (mids.len() + 1) as int,
            );
            &&& n matches Some(x) ==> after == before.push((price_name(coins, mid.0@), x))
            &&& n is None ==> after == before
            &&& mids.len() == 0 ==> before == Seq::<(Seq<char>, Double)>::empty()
        }),
{
    lemma_prices_of_prefix(
        coins,
        mids.push(mid),
        numbers.push(n),
        mids,
        numbers,
        mids.len() as int,
    );
}

/// A message brings a live candle where it holds a symbol and a candle under the
/// exchange's keys, and only there; its coin is the symbol without the endings of a
/// dollar market and of a contract.
pub proof fn live_messages_are_read_by_key(
    val: JsonTree,
    data: JsonTree,
    inner: JsonTree,
    symbol: Seq<char>,
    row: CandleTextModel,
)
    ensures
        field(val, "data"@) == Some(data) && field(data, "data"@) == Some(inner) && text_field(
            data,
            "s"@,
        ) == Some(symbol) && candle_text(inner) == Some(row) ==> (ws_candle(val) matches Some(c)
            && c.row == row && c.coin == without_suffixes(
            without_suffixes(symbol, "/USD"@),
            "-PERP"@,
        )),
        field(val, "data"@) is None ==> ws_candle(val) is None && ws_mids(val) is None,
        field(val, "data"@) == Some(data) && (field(data, "data"@) is None || text_field(data, "s"@)
            is None) ==> ws_candle(val) is None,
        field(val, "data"@) == Some(data) && field(data, "data"@) == Some(inner) && candle_text(
            inner,
        ) is None ==> ws_candle(val) is None,
        field(val, "data"@) == Some(data) && field(data, "mids"@) == Some(inner) ==> ws_mids(val)
            == match inner {
            JsonTree::Object(m) => Some(m),
            _ => None,
        },
        field(val, "data"@) == Some(data) && field(data, "mids"@) is None ==> ws_mids(val) is None,
{
}

/// A live candle says what its fields hold.
pub proof fn live_candle_says_what_it_holds(c: LiveCandleText)
    ensures
        c@.coin == c.coin@,
        c@.row == c.row@,
{
}

/// The mid prices read are exactly those that are texts, each once, under its coin.
pub proof fn mids_are_read_in_full(v: Seq<(String, String)>, m: Map<Seq<char>, JsonTree>)
    requires
        lists_mids(v, m),
    ensures
        forall|k: Seq<char>, s: Seq<char>|
            (exists|i: int| 0 <= i < v.len() && (#[trigger] v[i]).0@ == k && v[i].1@ == s) <==> (
            #[trigger] m.contains_pair(k, JsonTree::Text(s))),
        forall|i: int, j: int|
            0 <= i < v.len() && 0 <= j < v.len() && (#[trigger] v[i]).0@ == (#[trigger] v[j]).0@
                ==> i == j,
{
    assert forall|k: Seq<char>, s: Seq<char>|
        (exists|i: int| 0 <= i < v.len() && (#[trigger] v[i]).0@ == k && v[i].1@ == s) <==> (
        #[trigger] m.contains_pair(k, JsonTree::Text(s))) by {
        if m.contains_pair(k, JsonTree::Text(s)) {
            let i = choose|i: int| 0 <= i < v.len() && (#[trigger] v[i]).0@ == k;
            assert(m[v[i].0@] == JsonTree::Text(v[i].1@));
            assert(v[i].0@ == k && v[i].1@ == s);
        }
    }
}

/// What arrives on a standing connection is handed on as it is; a question is answered;
/// a connection that is opened is subscribed on; and what cannot happen changes nothing.
pub proof fn link_hands_on_what_arrives(state: LinkState, event: LinkEvent)
    ensures
        ({
            let (after, actions) = link_step(state, event);
            &&& state == LinkState::Open ==> (event matches LinkEvent::Received(u) ==> after
                == LinkState::Open && match u {
                LiveUpdate::Candle(c) => actions.len() == 1 && actions[0] == LinkAction::Tell(
                    FeedMessage::LiveCandle(c),
                ),
                LiveUpdate::Prices(p) => actions.len() == 1 && actions[0] == LinkAction::Tell(
                    FeedMessage::PriceUpdate(p),
                ),
                LiveUpdate::Nothing => actions.len() == 0,
            })
            &&& state == LinkState::Open && event is Ping ==> after == LinkState::Open
                && actions.len() == 1 && actions[0] is Pong
            &&& state == LinkState::Closed && event is Opened ==> after == LinkState::Open
                && actions.len() == 2 && actions[0] == LinkAction::Tell(
                FeedMessage::Connected(true),
            ) && actions[1] is Subscribe
            &&& state == LinkState::Closed && !(event is Opened) && !(event is OpenFailed) ==> after
                == LinkState::Closed && actions.len() == 0
            &&& state == LinkState::Open && (event is Opened || event is OpenFailed
                || event is Other) ==> after == LinkState::Open && actions.len() == 0
        }),
        recovery().len() == 3,
        recovery()[0] == LinkAction::Tell(FeedMessage::Connected(false)),
        recovery()[1] == LinkAction::Wait(5000),
        recovery()[2] is Connect,
        ({
            let (after, actions) = link_step(state, event);
            (state == LinkState::Open && event is Ended) || (state == LinkState::Closed
                && event is OpenFailed) ==> actions.len() == 3
        }),
        ({
            let (after, actions) = link_step(state, event);
            state == LinkState::Open && event is Broken ==> actions.len() == 4 && actions[0]
                == LinkAction::Tell(FeedMessage::Connected(false))
        }),
{
}

/// What a message reads as: its candle before its mid prices, and nothing where it has
/// neither.
pub proof fn messages_read_as_candles_first(val: JsonTree, r: LiveText)
    requires
        reads_as(val, r),
    ensures
        ws_candle(val) matches Some(c) ==> (r matches LiveText::Candle(x) && x@ == c),
        ws_candle(val) is None ==> (ws_mids(val) matches Some(m) ==> (r matches LiveText::Mids(v)
            && lists_mids(v@, m))),
        ws_candle(val) is None && ws_mids(val) is None ==> r is Nothing,
{
}

/// Prices are told one by one and in order.
pub proof fn prices_are_told_one_by_one(v: Seq<(String, Double)>, k: int)
    ensures
        price_models(v).len() == v.len(),
        0 <= k < v.len() ==> price_models(v)[k] == (v[k].0@, v[k].1),
{
}

} // verus!
