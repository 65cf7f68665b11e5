//! The exchange's interface: requests, replies and the live connection.
//!
//! Numbers arrive as decimal text. The readers here hand the text out; what it
//! reads as is handed back in, since only the caller can turn it into a double.

use crate::clock::{date_from_millis, is_date_millis};
use crate::double::Double;
use crate::feeds::types::{Candle, CandleModel, CoinInfo, Interval, candle_models, spot_ending};
use crate::json::{
    Json, JsonTree, field, integer_field, item, items, json_meaning, parse_json, text_field, trees,
};
use crate::text::without_suffix;
use vstd::prelude::*;
use vstd::string::*;

verus! {

/// Characters that may be missing.
pub open spec fn maybe_text(s: Option<String>) -> Option<Seq<char>> {
    match s {
        Some(x) => Some(x@),
        None => None,
    }
}

/// One perpetual contract as the exchange lists it, its numbers as text.
#[derive(Debug)]
pub struct PerpRow {
    pub name: String,
    pub mark_px: Option<String>,
    pub day_ntl_vlm: Option<String>,
    pub open_interest: Option<String>,
    pub funding: Option<String>,
    pub prev_day_px: Option<String>,
}

/// What the exchange says of one perpetual contract.
pub struct PerpRowModel {
    pub name: Seq<char>,
    pub mark_px: Option<Seq<char>>,
    pub day_ntl_vlm: Option<Seq<char>>,
    pub open_interest: Option<Seq<char>>,
    pub funding: Option<Seq<char>>,
    pub prev_day_px: Option<Seq<char>>,
}

impl View for PerpRow {
    type V = PerpRowModel;

    open spec fn view(&self) -> PerpRowModel {
        PerpRowModel {
            name: self.name@,
            mark_px: maybe_text(self.mark_px),
            day_ntl_vlm: maybe_text(self.day_ntl_vlm),
            open_interest: maybe_text(self.open_interest),
            funding: maybe_text(self.funding),
            prev_day_px: maybe_text(self.prev_day_px),
        }
    }
}

/// What an asset and its context say of a contract. A name that is missing or no
/// text is empty.
pub open spec fn perp_row(asset: JsonTree, context: JsonTree) -> PerpRowModel {
    PerpRowModel {
        name: match text_field(asset, "name"@) {
            Some(s) => s,
            None => Seq::empty(),
        },
        mark_px: text_field(context, "markPx"@),
        day_ntl_vlm: text_field(context, "dayNtlVlm"@),
        open_interest: text_field(context, "openInterest"@),
        funding: text_field(context, "funding"@),
        prev_day_px: text_field(context, "prevDayPx"@),
    }
}

/// The contracts with a name among the first `n` pairs of an asset and its
/// context.
pub open spec fn named_rows(
    assets: Seq<JsonTree>,
    contexts: Seq<JsonTree>,
    n: int,
) -> Seq<PerpRowModel>
    decreases n,
{
    if n <= 0 {
        Seq::empty()
    } else {
        let before = named_rows(assets, contexts, n - 1);
        let row = perp_row(assets[n - 1], contexts[n - 1]);
        if row.name.len() > 0 {
            before.push(row)
        } else {
            before
        }
    }
}

/// The assets of a coin-list reply.
pub open spec fn reply_assets(meta: JsonTree) -> Option<Seq<JsonTree>> {
    match item(meta, 0) {
        Some(m) => match field(m, "universe"@) {
            Some(u) => items(u),
            None => None,
        },
        None => None,
    }
}

/// The contexts of a coin-list reply.
pub open spec fn reply_contexts(meta: JsonTree) -> Option<Seq<JsonTree>> {
    match item(meta, 1) {
        Some(c) => items(c),
        None => None,
    }
}

/// The contracts of a coin-list reply: assets and contexts are paired in order,
/// and what is left over of the longer list is dropped. A reply of another form
/// has none.
pub open spec fn listed_perps(meta: JsonTree) -> Seq<PerpRowModel> {
    match (reply_assets(meta), reply_contexts(meta)) {
        (Some(a), Some(c)) => named_rows(
            a,
            c,
            if a.len() < c.len() {
                a.len() as int
            } else {
                c.len() as int
            },
        ),
        _ => Seq::empty(),
    }
}

fn read_perp(asset: &Json, context: &Json) -> (r: PerpRow)
    ensures
        r@ == perp_row(asset.tree(), context.tree()),
{
    let name = match asset.get_text("name") {
        Some(s) => s,
        None => String::new(),
    };
    PerpRow {
        name,
        mark_px: context.get_text("markPx"),
        day_ntl_vlm: context.get_text("dayNtlVlm"),
        open_interest: context.get_text("openInterest"),
        funding: context.get_text("funding"),
        prev_day_px: context.get_text("prevDayPx"),
    }
}

/// What each of several rows says.
pub open spec fn perp_models(v: Seq<PerpRow>) -> Seq<PerpRowModel> {
    v.map_values(|p: PerpRow| p@)
}

/// Reads the contracts out of a coin-list reply.
pub fn perp_rows(meta: &Json) -> (r: Vec<PerpRow>)
    ensures
        perp_models(r@) == listed_perps(meta.tree()),
{
    let mut r: Vec<PerpRow> = Vec::new();
    let assets = match meta.at(0) {
        Some(m) => match m.get("universe") {
            Some(u) => u.as_items(),
            None => None,
        },
        None => None,
    };
    let contexts = match meta.at(1) {
        Some(c) => c.as_items(),
        None => None,
    };
    if let (Some(a), Some(c)) = (assets, contexts) {
        let n: usize = if a.len() < c.len() {
            a.len()
        } else {
            c.len()
        };
        let mut i: usize = 0;
        assert(perp_models(r@) =~= Seq::empty());
        while i < n
            invariant
                i <= n,
                n <= a@.len(),
                n <= c@.len(),
                perp_models(r@) == named_rows(trees(a@), trees(c@), i as int),
            decreases n - i,
        {
            let row = read_perp(&a[i], &c[i]);
            assert(row@ == perp_row(trees(a@)[i as int], trees(c@)[i as int]));
            if row.name.as_str().is_empty() {
            } else {
                let ghost before = perp_models(r@);
                r.push(row);
                assert(perp_models(r@) =~= before.push(row@));
            }
            i = i + 1;
        }
    } else {
        assert(perp_models(r@) =~= Seq::empty());
    }
    r
}

/// The contracts of a coin-list reply, and how many assets and contexts it holds
/// where these numbers differ.
#[derive(Debug)]
pub struct PerpListing {
    pub rows: Vec<PerpRow>,
    pub uneven: Option<(usize, usize)>,
}

/// How many assets and contexts a coin-list reply holds, where these numbers differ.
pub open spec fn uneven_lengths(meta: JsonTree) -> Option<(nat, nat)> {
    match (reply_assets(meta), reply_contexts(meta)) {
        (Some(a), Some(c)) => if a.len() != c.len() {
            Some((a.len(), c.len()))
        } else {
            None
        },
        _ => None,
    }
}

fn uneven_lists(meta: &Json) -> (r: Option<(usize, usize)>)
    ensures
        match r {
            Some(n) => uneven_lengths(meta.tree()) == Some((n.0 as nat, n.1 as nat)),
            None => uneven_lengths(meta.tree()) is None,
        },
{
    let assets = match meta.at(0) {
        Some(m) => match m.get("universe") {
            Some(u) => u.as_items(),
            None => None,
        },
        None => None,
    };
    let contexts = match meta.at(1) {
        Some(c) => c.as_items(),
        None => None,
    };
    match (assets, contexts) {
        (Some(a), Some(c)) => if a.len() != c.len() {
            Some((a.len(), c.len()))
        } else {
            None
        },
        _ => None,
    }
}

/// Reads the contracts out of the text of a coin-list reply; where it is no JSON
/// document, the result says why.
pub fn parse_coin_list(reply: &str) -> (r: Result<PerpListing, String>)
    ensures
        match r {
            Ok(x) => json_meaning(reply@) matches Ok(t) && perp_models(x.rows@)
                == listed_perps(t) && match x.uneven {
                Some(n) => uneven_lengths(t) == Some((n.0 as nat, n.1 as nat)),
                None => uneven_lengths(t) is None,
            },
            Err(e) => json_meaning(reply@) == Err::<JsonTree, Seq<char>>(e@),
        },
{
    match parse_json(reply) {
        Ok(j) => Ok(PerpListing { rows: perp_rows(&j), uneven: uneven_lists(&j) }),
        Err(e) => Err(e),
    }
}

/// One spot market as the exchange lists it, its numbers as text.
#[derive(Debug)]
pub struct SpotRow {
    pub name: String,
    pub mark_px: Option<String>,
    pub day_ntl_vlm: Option<String>,
    pub prev_day_px: Option<String>,
}

/// What the exchange says of one spot market.
pub struct SpotRowModel {
    pub name: Seq<char>,
    pub mark_px: Option<Seq<char>>,
    pub day_ntl_vlm: Option<Seq<char>>,
    pub prev_day_px: Option<Seq<char>>,
}

impl View for SpotRow {
    type V = SpotRowModel;

    open spec fn view(&self) -> SpotRowModel {
        SpotRowModel {
            name: self.name@,
            mark_px: maybe_text(self.mark_px),
            day_ntl_vlm: maybe_text(self.day_ntl_vlm),
            prev_day_px: maybe_text(self.prev_day_px),
        }
    }
}

/// What a context says of a spot market, which it names itself. A name that is missing
/// or no text is empty.
pub open spec fn spot_row(context: JsonTree) -> SpotRowModel {
    SpotRowModel {
        name: match text_field(context, "coin"@) {
            Some(s) => s,
            None => Seq::empty(),
        },
        mark_px: text_field(context, "markPx"@),
        day_ntl_vlm: text_field(context, "dayNtlVlm"@),
        prev_day_px: text_field(context, "prevDayPx"@),
    }
}

/// The spot markets with a name among the first `n` contexts.
pub open spec fn named_spots(contexts: Seq<JsonTree>, n: int) -> Seq<SpotRowModel>
    decreases n,
{
    if n <= 0 {
        Seq::empty()
    } else {
        let before = named_spots(contexts, n - 1);
        let row = spot_row(contexts[n - 1]);
        if row.name.len() > 0 {
            before.push(row)
        } else {
            before
        }
    }
}

/// The spot markets of a spot-list reply. A reply of another form has none.
pub open spec fn listed_spots(meta: JsonTree) -> Seq<SpotRowModel> {
    match reply_contexts(meta) {
        Some(c) => named_spots(c, c.len() as int),
        None => Seq::empty(),
    }
}

/// What each of several rows says.
pub open spec fn spot_models(v: Seq<SpotRow>) -> Seq<SpotRowModel> {
    v.map_values(|p: SpotRow| p@)
}

/// Reads the spot markets out of a spot-list reply.
pub fn spot_rows(meta: &Json) -> (r: Vec<SpotRow>)
    ensures
        spot_models(r@) == listed_spots(meta.tree()),
{
    let mut r: Vec<SpotRow> = Vec::new();
    assert(spot_models(r@) =~= Seq::empty());
    let contexts = match meta.at(1) {
        Some(c) => c.as_items(),
        None => None,
    };
    if let Some(c) = contexts {
        let mut i: usize = 0;
        while i < c.len()
            invariant
                i <= c@.len(),
                spot_models(r@) == named_spots(trees(c@), i as int),
            decreases c@.len() - i,
        {
            let x = &c[i];
            assert(trees(c@)[i as int] == x.tree());
            let row = SpotRow {
                name: match x.get_text("coin") {
                    Some(s) => s,
                    None => String::new(),
                },
                mark_px: x.get_text("markPx"),
                day_ntl_vlm: x.get_text("dayNtlVlm"),
                prev_day_px: x.get_text("prevDayPx"),
            };
            assert(row@ == spot_row(trees(c@)[i as int]));
            if !row.name.as_str().is_empty() {
                let ghost before = spot_models(r@);
                r.push(row);
                assert(spot_models(r@) =~= before.push(row@));
            }
            i = i + 1;
        }
    }
    r
}

/// Reads the spot markets out of the text of a spot-list reply; where it is no JSON
/// document, the result says why.
pub fn parse_spot_list(reply: &str) -> (r: Result<Vec<SpotRow>, String>)
    ensures
        match r {
            Ok(rows) => json_meaning(reply@) matches Ok(t) && spot_models(rows@)
                == listed_spots(t),
            Err(e) => json_meaning(reply@) == Err::<JsonTree, Seq<char>>(e@),
        },
{
    match parse_json(reply) {
        Ok(j) => Ok(spot_rows(&j)),
        Err(e) => Err(e),
    }
}

/// What the numbers of a contract read as; `None` where the text is missing or no
/// number.
#[derive(Clone, Copy, Debug)]
pub struct PerpNumbers {
    pub mark_px: Option<Double>,
    pub day_ntl_vlm: Option<Double>,
    pub open_interest: Option<Double>,
    pub funding: Option<Double>,
    pub prev_day_px: Option<Double>,
}

/// The figures that a contract's market data are computed from.
#[derive(Clone, Copy, Debug)]
pub struct MarketFigures {
    pub price: Double,
    pub volume_24h: Double,
    /// Open interest in coins.
    pub open_interest: Double,
    pub funding_rate: Double,
    /// The price that the change over 24 hours is counted from, where there is a
    /// positive one.
    pub change_from: Option<Double>,
}

/// A number, or zero in its place.
pub open spec fn or_zero(x: Option<Double>) -> Double {
    match x {
        Some(d) => d,
        None => Double::zero(),
    }
}

fn number_or_zero(x: Option<Double>) -> (r: Double)
    ensures
        r == or_zero(x),
{
    match x {
        Some(d) => d,
        None => Double::zero(),
    }
}

/// The figures that a contract's market data are computed from: a missing number
/// is zero.
pub fn market_figures(n: &PerpNumbers) -> (r: MarketFigures)
    ensures
        r.price == or_zero(n.mark_px),
        r.volume_24h == or_zero(n.day_ntl_vlm),
        r.open_interest == or_zero(n.open_interest),
        r.funding_rate == or_zero(n.funding),
        r.change_from == if Double::zero().lt(or_zero(n.prev_day_px)) {
            n.prev_day_px
        } else {
            None
        },
{
    let before = number_or_zero(n.prev_day_px);
    MarketFigures {
        price: number_or_zero(n.mark_px),
        volume_24h: number_or_zero(n.day_ntl_vlm),
        open_interest: number_or_zero(n.open_interest),
        funding_rate: number_or_zero(n.funding),
        change_from: if before.is_positive() {
            Some(before)
        } else {
            None
        },
    }
}

/// The coin of a contract, given its open interest in dollars and its change in
/// per cent. Where there is no price to count a change from, the change is zero.
pub fn coin_info(
    row: &PerpRow,
    figures: &MarketFigures,
    open_interest_usd: Double,
    change_pct: Double,
) -> (r: CoinInfo)
    ensures
        r.name@ == row.name@,
        r.is_perp,
        r.price == figures.price,
        r.volume_24h == figures.volume_24h,
        r.open_interest == open_interest_usd,
        r.funding_rate == figures.funding_rate,
        r.change_24h_pct == if figures.change_from is Some {
            change_pct
        } else {
            Double::zero()
        },
{
    CoinInfo {
        name: row.name.clone(),
        is_perp: true,
        price: figures.price,
        volume_24h: figures.volume_24h,
        open_interest: open_interest_usd,
        funding_rate: figures.funding_rate,
        change_24h_pct: match figures.change_from {
            Some(_) => change_pct,
            None => Double::zero(),
        },
    }
}

/// The coin of a spot market, given its change in per cent: its name has the ending of
/// a spot market, and it has neither open interest nor funding.
pub fn spot_info(row: &SpotRow, figures: &MarketFigures, change_pct: Double) -> (r: CoinInfo)
    ensures
        r.name@ == row.name@ + spot_ending(),
        !r.is_perp,
        r.price == figures.price,
        r.volume_24h == figures.volume_24h,
        r.open_interest == Double::zero(),
        r.funding_rate == Double::zero(),
        r.change_24h_pct == if figures.change_from is Some {
            change_pct
        } else {
            Double::zero()
        },
{
    CoinInfo {
        name: row.name.clone().concat("/SPOT"),
        is_perp: false,
        price: figures.price,
        volume_24h: figures.volume_24h,
        open_interest: Double::zero(),
        funding_rate: Double::zero(),
        change_24h_pct: match figures.change_from {
            Some(_) => change_pct,
            None => Double::zero(),
        },
    }
}

/// The exchange's interface knows a spot market by the name it lists it under.
pub proof fn spot_coins_are_asked_for_by_their_listed_name(listed: Seq<char>)
    ensures
        without_suffix(listed + spot_ending(), spot_ending()) == listed,
{
    let s = listed + spot_ending();
    assert(s.skip(s.len() - spot_ending().len()) =~= spot_ending());
    assert(s.take(s.len() - spot_ending().len()) =~= listed);
}

/// All coins: the perpetual contracts and then the spot markets. Without the contracts
/// there is no list; without the spot markets the contracts stand alone.
pub fn all_coins(perps: Result<Vec<CoinInfo>, String>, spots: Result<Vec<CoinInfo>, String>) -> (r:
    Result<Vec<CoinInfo>, String>)
    ensures
        match perps {
            Ok(p) => r matches Ok(v) && v@ == match spots {
                Ok(s) => p@ + s@,
                Err(_) => p@,
            },
            Err(e) => r == Err::<Vec<CoinInfo>, String>(e),
        },
{
    match perps {
        Ok(p) => {
            let mut v = p;
            if let Ok(s) = spots {
                let ghost first = v@;
                let mut k: usize = 0;
                assert(first + s@.take(0) =~= first);
                while k < s.len()
                    invariant
                        k <= s@.len(),
                        v@ == first + s@.take(k as int),
                    decreases s@.len() - k,
                {
                    v.push(s[k].clone());
                    k = k + 1;
                    assert(v@ =~= first + s@.take(k as int));
                }
                assert(s@.take(k as int) =~= s@);
            }
            Ok(v)
        },
        Err(e) => Err(e),
    }
}

/// One candle as the exchange sends it, its prices as text.
#[derive(Debug)]
pub struct CandleText {
    pub open: String,
    pub high: String,
    pub low: String,
    pub close: String,
    pub volume: String,
    pub timestamp: i64,
}

/// What the exchange says of one candle.
pub struct CandleTextModel {
    pub open: Seq<char>,
    pub high: Seq<char>,
    pub low: Seq<char>,
    pub close: Seq<char>,
    pub volume: Seq<char>,
    pub timestamp: i64,
}

impl View for CandleText {
    type V = CandleTextModel;

    open spec fn view(&self) -> CandleTextModel {
        CandleTextModel {
            open: self.open@,
            high: self.high@,
            low: self.low@,
            close: self.close@,
            volume: self.volume@,
            timestamp: self.timestamp,
        }
    }
}

/// What a candle of the exchange says: it has five texts and a time in the range
/// of dates, or it is none.
pub open spec fn candle_text(c: JsonTree) -> Option<CandleTextModel> {
    match (
        text_field(c, "o"@),
        text_field(c, "h"@),
        text_field(c, "l"@),
        text_field(c, "c"@),
        text_field(c, "v"@),
        integer_field(c, "t"@),
    ) {
        (Some(open), Some(high), Some(low), Some(close), Some(volume), Some(timestamp)) => {
            if is_date_millis(timestamp as int) {
                Some(CandleTextModel { open, high, low, close, volume, timestamp })
            } else {
                None
            }
        },
        _ => None,
    }
}

pub(crate) fn read_candle(c: &Json) -> (r: Option<CandleText>)
    ensures
        match r {
            Some(x) => candle_text(c.tree()) == Some(x@),
            None => candle_text(c.tree()) is None,
        },
{
    match (
        c.get_text("o"),
        c.get_text("h"),
        c.get_text("l"),
        c.get_text("c"),
        c.get_text("v"),
        c.get_integer("t"),
    ) {
        (Some(open), Some(high), Some(low), Some(close), Some(volume), Some(t)) => {
            match date_from_millis(t) {
                Some(timestamp) => Some(
                    CandleText { open, high, low, close, volume, timestamp },
                ),
                None => None,
            }
        },
        _ => None,
    }
}

/// The candles among the first `n` items of a list.
pub open spec fn candle_texts(list: Seq<JsonTree>, n: int) -> Seq<CandleTextModel>
    decreases n,
{
    if n <= 0 {
        Seq::empty()
    } else {
        let before = candle_texts(list, n - 1);
        match candle_text(list[n - 1]) {
            Some(c) => before.push(c),
            None => before,
        }
    }
}

/// The candles of a candle reply; a reply that is no list has none.
pub open spec fn listed_candles(reply: JsonTree) -> Seq<CandleTextModel> {
    match items(reply) {
        Some(list) => candle_texts(list, list.len() as int),
        None => Seq::empty(),
    }
}

/// What each of several candles says.
pub open spec fn candle_text_models(v: Seq<CandleText>) -> Seq<CandleTextModel> {
    v.map_values(|c: CandleText| c@)
}

/// Reads the candles out of a candle reply.
pub fn candle_rows(reply: &Json) -> (r: Vec<CandleText>)
    ensures
        candle_text_models(r@) == listed_candles(reply.tree()),
{
    let mut r: Vec<CandleText> = Vec::new();
    assert(candle_text_models(r@) =~= Seq::empty());
    if let Some(list) = reply.as_items() {
        let mut i: usize = 0;
        while i < list.len()
            invariant
                i <= list@.len(),
                candle_text_models(r@) == candle_texts(trees(list@), i as int),
            decreases list@.len() - i,
        {
            assert(trees(list@)[i as int] == list@[i as int].tree());
            if let Some(c) = read_candle(&list[i]) {
                let ghost before = candle_text_models(r@);
                r.push(c);
                assert(candle_text_models(r@) =~= before.push(c@));
            }
            i = i + 1;
        }
    }
    r
}

/// Reads the candles out of the text of a candle reply; where it is no JSON document,
/// the result says why.
pub fn parse_candle_reply(reply: &str) -> (r: Result<Vec<CandleText>, String>)
    ensures
        match r {
            Ok(rows) => json_meaning(reply@) matches Ok(t) && candle_text_models(rows@)
                == listed_candles(t),
            Err(e) => json_meaning(reply@) == Err::<JsonTree, Seq<char>>(e@),
        },
{
    match parse_json(reply) {
        Ok(j) => Ok(candle_rows(&j)),
        Err(e) => Err(e),
    }
}

/// What the numbers of a candle read as; `None` where the text is no number.
#[derive(Clone, Copy, Debug)]
pub struct CandleNumbers {
    pub open: Option<Double>,
    pub high: Option<Double>,
    pub low: Option<Double>,
    pub close: Option<Double>,
    pub volume: Option<Double>,
}

/// A candle with its numbers; none where a text is no number.
pub open spec fn numbered_candle(
    coin: Seq<char>,
    interval: Interval,
    timestamp: i64,
    n: CandleNumbers,
) -> Option<CandleModel> {
    match (n.open, n.high, n.low, n.close, n.volume) {
        (Some(open), Some(high), Some(low), Some(close), Some(volume)) => Some(
            CandleModel { coin, open, high, low, close, volume, timestamp, interval },
        ),
        _ => None,
    }
}

/// The candle of a row with its numbers; none where a text is no number.
pub fn finish_candle(coin: &str, interval: Interval, row: &CandleText, n: &CandleNumbers) -> (r:
    Option<Candle>)
    ensures
        match r {
            Some(c) => numbered_candle(coin@, interval, row.timestamp, *n) == Some(c@),
            None => numbered_candle(coin@, interval, row.timestamp, *n) is None,
        },
{
    match (n.open, n.high, n.low, n.close, n.volume) {
        (Some(open), Some(high), Some(low), Some(close), Some(volume)) => Some(
            Candle {
                coin: coin.to_owned(),
                open,
                high,
                low,
                close,
                volume,
                timestamp: row.timestamp,
                interval,
            },
        ),
        _ => None,
    }
}

/// The candles among the first `k` rows.
pub open spec fn numbered_candles(
    coin: Seq<char>,
    interval: Interval,
    rows: Seq<CandleTextModel>,
    numbers: Seq<CandleNumbers>,
    k: int,
) -> Seq<CandleModel>
    decreases k,
{
    if k <= 0 {
        Seq::empty()
    } else {
        let before = numbered_candles(coin, interval, rows, numbers, k - 1);
        match numbered_candle(coin, interval, rows[k - 1].timestamp, numbers[k - 1]) {
            Some(c) => before.push(c),
            None => before,
        }
    }
}

/// The candles of rows with their numbers, without the rows that hold a text that
/// is no number.
pub fn finish_candles(
    coin: &str,
    interval: Interval,
    rows: &Vec<CandleText>,
    numbers: &Vec<CandleNumbers>,
) -> (r: Vec<Candle>)
    requires
        rows@.len() == numbers@.len(),
    ensures
        candle_models(r@) == numbered_candles(
            coin@,
            interval,
            candle_text_models(rows@),
            numbers@,
            rows@.len() as int,
        ),
{
    let mut r: Vec<Candle> = Vec::new();
    let mut k: usize = 0;
    let ghost texts = candle_text_models(rows@);
    assert(candle_models(r@) =~= Seq::empty());
    while k < rows.len()
        invariant
            k <= rows@.len(),
            rows@.len() == numbers@.len(),
            texts == candle_text_models(rows@),
            candle_models(r@) == numbered_candles(coin@, interval, texts, numbers@, k as int),
        decreases rows@.len() - k,
    {
        assert(texts[k as int] == rows@[k as int]@);
        if let Some(c) = finish_candle(coin, interval, &rows[k], &numbers[k]) {
            let ghost before = candle_models(r@);
            r.push(c);
            assert(candle_models(r@) =~= before.push(c@));
        }
        k = k + 1;
    }
    r
}

/// Every candle of a reply is of the coin and timeframe that were asked for, and
/// its time is in the range of dates.
pub proof fn reply_candles_are_those_asked_for(
    coin: Seq<char>,
    interval: Interval,
    reply: JsonTree,
    numbers: Seq<CandleNumbers>,
)
    requires
        numbers.len() == listed_candles(reply).len(),
    ensures
        ({
            let rows = listed_candles(reply);
            let out = numbered_candles(coin, interval, rows, numbers, rows.len() as int);
            &&& out.len() <= rows.len()
            &&& forall|i: int|
                0 <= i < out.len() ==> {
                    &&& (#[trigger] out[i]).coin == coin
                    &&& out[i].interval == interval
                    &&& is_date_millis(out[i].timestamp as int)
                }
        }),
{
    let rows = listed_candles(reply);
    if let Some(list) = items(reply) {
        lemma_texts_are_dated(list, list.len() as int);
    }
    lemma_numbered(coin, interval, rows, numbers, rows.len() as int);
}

proof fn lemma_texts_are_dated(list: Seq<JsonTree>, n: int)
    requires
        n <= list.len(),
    ensures
        forall|i: int|
            0 <= i < candle_texts(list, n).len() ==> is_date_millis(
                (#[trigger] candle_texts(list, n)[i]).timestamp as int,
            ),
    decreases n,
{
    if n > 0 {
        lemma_texts_are_dated(list, n - 1);
        let before = candle_texts(list, n - 1);
        let all = candle_texts(list, n);
        assert forall|i: int| 0 <= i < all.len() implies is_date_millis(
            (#[trigger] all[i]).timestamp as int,
        ) by {
            if i < before.len() {
                assert(all[i] == before[i]);
            }
        }
    }
}

proof fn lemma_numbered(
    coin: Seq<char>,
    interval: Interval,
    rows: Seq<CandleTextModel>,
    numbers: Seq<CandleNumbers>,
    k: int,
)
    requires
        0 <= k <= rows.len(),
        forall|i: int|
            0 <= i < rows.len() ==> is_date_millis((#[trigger] rows[i]).timestamp as int),
    ensures
        ({
            let out = numbered_candles(coin, interval, rows, numbers, k);
            &&& out.len() <= k
            &&& forall|i: int|
                0 <= i < out.len() ==> {
                    &&& (#[trigger] out[i]).coin == coin
                    &&& out[i].interval == interval
                    &&& is_date_millis(out[i].timestamp as int)
                }
        }),
    decreases k,
{
    if k > 0 {
        lemma_numbered(coin, interval, rows, numbers, k - 1);
    }
}

/// What an asset and its context say of a contract is what stands under the exchange's
/// keys; a name that is missing is empty.
pub proof fn contracts_are_read_by_key(asset: JsonTree, context: JsonTree)
    ensures
        ({
            let r = perp_row(asset, context);
            &&& text_field(asset, "name"@) matches Some(s) ==> r.name == s
            &&& text_field(asset, "name"@) is None ==> r.name == Seq::<char>::empty()
            &&& r.mark_px == text_field(context, "markPx"@)
            &&& r.day_ntl_vlm == text_field(context, "dayNtlVlm"@)
            &&& r.open_interest == text_field(context, "openInterest"@)
            &&& r.funding == text_field(context, "funding"@)
            &&& r.prev_day_px == text_field(context, "prevDayPx"@)
        }),
        ({
            let r = spot_row(context);
            &&& text_field(context, "coin"@) matches Some(s) ==> r.name == s
            &&& text_field(context, "coin"@) is None ==> r.name == Seq::<char>::empty()
            &&& r.mark_px == text_field(context, "markPx"@)
            &&& r.day_ntl_vlm == text_field(context, "dayNtlVlm"@)
            &&& r.prev_day_px == text_field(context, "prevDayPx"@)
        }),
{
}

/// Rows say what their fields hold, each under its own name.
pub proof fn rows_say_what_they_hold(p: PerpRow, s: SpotRow, c: CandleText)
    ensures
        p@.name == p.name@,
        p@.mark_px == maybe_text(p.mark_px),
        p@.day_ntl_vlm == maybe_text(p.day_ntl_vlm),
        p@.open_interest == maybe_text(p.open_interest),
        p@.funding == maybe_text(p.funding),
        p@.prev_day_px == maybe_text(p.prev_day_px),
        s@.name == s.name@,
        s@.mark_px == maybe_text(s.mark_px),
        s@.day_ntl_vlm == maybe_text(s.day_ntl_vlm),
        s@.prev_day_px == maybe_text(s.prev_day_px),
        c@.open == c.open@,
        c@.high == c.high@,
        c@.low == c.low@,
        c@.close == c.close@,
        c@.volume == c.volume@,
        c@.timestamp == c.timestamp,
        maybe_text(None) is None,
        maybe_text(Some(p.name)) == Some(p.name@),
{
}

proof fn lemma_named_rows_of_prefix(
    a: Seq<JsonTree>,
    c: Seq<JsonTree>,
    b: Seq<JsonTree>,
    d: Seq<JsonTree>,
    n: int,
)
    requires
        forall|i: int| 0 <= i < n ==> a[i] == b[i] && c[i] == d[i],
    ensures
        named_rows(a, c, n) == named_rows(b, d, n),
        named_spots(c, n) == named_spots(d, n),
    decreases n,
{
    if n > 0 {
        lemma_named_rows_of_prefix(a, c, b, d, n - 1);
    }
}

/// A further asset with its context adds its contract at the end of the list, unless it
/// has no name; an asset without a context, or a context without an asset, adds nothing.
pub proof fn listed_contracts_are_the_named_ones(
    assets: Seq<JsonTree>,
    contexts: Seq<JsonTree>,
    asset: JsonTree,
    context: JsonTree,
)
    requires
        assets.len() == contexts.len(),
    ensures
        ({
            let before = listed_perps(listing(assets, contexts));
            let after = listed_perps(listing(assets.push(asset), contexts.push(context)));
            let row = perp_row(asset, context);
            &&& row.name.len() > 0 ==> after == before.push(row)
            &&& row.name.len() == 0 ==> after == before
            &&& listed_perps(listing(assets.push(asset), contexts)) == before
            &&& listed_perps(listing(assets, contexts.push(context))) == before
            &&& listed_perps(listing(Seq::empty(), Seq::empty())) == Seq::<PerpRowModel>::empty()
        }),
        ({
            let before = listed_spots(listing(assets, contexts));
            let after = listed_spots(listing(assets, contexts.push(context)));
            let row = spot_row(context);
            &&& row.name.len() > 0 ==> after == before.push(row)
            &&& row.name.len() == 0 ==> after == before
            &&& listed_spots(listing(assets, Seq::empty())) == Seq::<SpotRowModel>::empty()
        }),
        uneven_lengths(listing(assets, contexts)) is None,
        uneven_lengths(listing(assets.push(asset), contexts)) == Some(
            ((assets.len() + 1) as nat, contexts.len()),
        ),
        uneven_lengths(listing(assets, contexts.push(context))) == Some(
            (assets.len(), (contexts.len() + 1) as nat),
        ),
{
    let n = assets.len() as int;
    let (a, c) = (assets.push(asset), contexts.push(context));
    lemma_named_rows_of_prefix(a, c, assets, contexts, n);
    lemma_named_rows_of_prefix(a, contexts, assets, contexts, n);
    lemma_named_rows_of_prefix(assets, c, assets, contexts, n);
    assert(named_rows(a, c, n + 1) == {
        let row = perp_row(asset, context);
        if row.name.len() > 0 {
            named_rows(a, c, n).push(row)
        } else {
            named_rows(a, c, n)
        }
    });
}

/// A reply that lists assets and their contexts.
pub open spec fn listing(assets: Seq<JsonTree>, contexts: Seq<JsonTree>) -> JsonTree {
    JsonTree::Array(
        seq![
            JsonTree::Object(map!["universe"@ => JsonTree::Array(assets)]),
            JsonTree::Array(contexts),
        ],
    )
}

/// A reply without a list of assets or without a list of contexts lists no contract, and
/// one without a list of contexts no spot market.
pub proof fn other_replies_list_nothing(meta: JsonTree)
    ensures
        (item(meta, 1) matches Some(c) ==> !(c is Array)) ==> listed_perps(meta) == Seq::<
            PerpRowModel,
        >::empty() && listed_spots(meta) == Seq::<SpotRowModel>::empty(),
        (item(meta, 0) matches Some(m) ==> (field(m, "universe"@) matches Some(u) ==> !(u is Array)))
            ==> listed_perps(meta) == Seq::<PerpRowModel>::empty(),
{
}

/// What is missing counts as zero, and only that.
pub proof fn missing_numbers_are_zero(x: Double)
    ensures
        or_zero(Some(x)) == x,
        or_zero(None).bits == 0,
{
}

/// A candle is read where its five texts and its time stand under the exchange's keys
/// and the time is that of a date, and only there.
pub proof fn candles_are_read_by_key(c: JsonTree, m: CandleTextModel)
    ensures
        candle_text(c) == Some(m) <==> {
            &&& text_field(c, "o"@) == Some(m.open)
            &&& text_field(c, "h"@) == Some(m.high)
            &&& text_field(c, "l"@) == Some(m.low)
            &&& text_field(c, "c"@) == Some(m.close)
            &&& text_field(c, "v"@) == Some(m.volume)
            &&& integer_field(c, "t"@) == Some(m.timestamp)
            &&& is_date_millis(m.timestamp as int)
        },
{
}

proof fn lemma_texts_of_prefix(a: Seq<JsonTree>, b: Seq<JsonTree>, n: int)
    requires
        forall|i: int| 0 <= i < n ==> a[i] == b[i],
    ensures
        candle_texts(a, n) == candle_texts(b, n),
    decreases n,
{
    if n > 0 {
        lemma_texts_of_prefix(a, b, n - 1);
    }
}

/// A further item of a reply adds its candle at the end, where it is one, and otherwise
/// nothing.
pub proof fn listed_candles_are_the_readable_ones(list: Seq<JsonTree>, x: JsonTree)
    ensures
        ({
            let before = listed_candles(JsonTree::Array(list));
            let after = listed_candles(JsonTree::Array(list.push(x)));
            &&& candle_text(x) matches Some(c) ==> after == before.push(c)
            &&& candle_text(x) is None ==> after == before
            &&& listed_candles(JsonTree::Array(Seq::empty())) == Seq::<CandleTextModel>::empty()
            &&& !(x is Array) ==> listed_candles(x) == Seq::<CandleTextModel>::empty()
        }),
{
    lemma_texts_of_prefix(list.push(x), list, list.len() as int);
}

/// A candle has the numbers that its texts read as, each in its own place, under the
/// coin, time and timeframe it is for; where one of the five reads as none there is no
/// candle.
pub proof fn candles_have_the_numbers_read(
    coin: Seq<char>,
    interval: Interval,
    timestamp: i64,
    n: CandleNumbers,
    m: CandleModel,
)
    ensures
        numbered_candle(coin, interval, timestamp, n) == Some(m) <==> {
            &&& n.open == Some(m.open)
            &&& n.high == Some(m.high)
            &&& n.low == Some(m.low)
            &&& n.close == Some(m.close)
            &&& n.volume == Some(m.volume)
            &&& m.coin == coin
            &&& m.interval == interval
            &&& m.timestamp == timestamp
        },
        numbered_candle(coin, interval, timestamp, n) is None <==> n.open is None || n.high is None
            || n.low is None || n.close is None || n.volume is None,
{
}

proof fn lemma_numbered_of_prefix(
    coin: Seq<char>,
    interval: Interval,
    rows: Seq<CandleTextModel>,
    numbers: Seq<CandleNumbers>,
    rows2: Seq<CandleTextModel>,
    numbers2: Seq<CandleNumbers>,
    k: int,
)
    requires
        forall|i: int| 0 <= i < k ==> rows[i] == rows2[i] && numbers[i] == numbers2[i],
    ensures
        numbered_candles(coin, interval, rows, numbers, k) == numbered_candles(
            coin,
            interval,
            rows2,
            numbers2,
            k,
        ),
    decreases k,
{
    if k > 0 {
        lemma_numbered_of_prefix(coin, interval, rows, numbers, rows2, numbers2, k - 1);
    }
}

/// A further row adds its candle at the end, where all its texts are numbers, and
/// otherwise nothing.
pub proof fn finished_candles_are_the_numbered_ones(
    coin: Seq<char>,
    interval: Interval,
    rows: Seq<CandleTextModel>,
    numbers: Seq<CandleNumbers>,
    row: CandleTextModel,
    n: CandleNumbers,
)
    requires
        rows.len() == numbers.len(),
    ensures
        ({
            let before = numbered_candles(coin, interval, rows, numbers, rows.len() as int);
            let after = numbered_candles(
                coin,
                interval,
                rows.push(row),
                numbers.push(n),
                (rows.len() + 1) as int,
            );
            &&& numbered_candle(coin, interval, row.timestamp, n) matches Some(c) ==> after
                == before.push(c)
            &&& numbered_candle(coin, interval, row.timestamp, n) is None ==> after == before
            &&& rows.len() == 0 ==> before == Seq::<CandleModel>::empty()
        }),
{
    lemma_numbered_of_prefix(
        coin,
        interval,
        rows.push(row),
        numbers.push(n),
        rows,
        numbers,
        rows.len() as int,
    );
}

/// Rows are told one by one and in order.
pub proof fn rows_are_told_one_by_one(
    p: Seq<PerpRow>,
    s: Seq<SpotRow>,
    c: Seq<CandleText>,
    k: int,
)
    ensures
        perp_models(p).len() == p.len(),
        0 <= k < p.len() ==> perp_models(p)[k] == p[k]@,
        spot_models(s).len() == s.len(),
        0 <= k < s.len() ==> spot_models(s)[k] == s[k]@,
        candle_text_models(c).len() == c.len(),
        0 <= k < c.len() ==> candle_text_models(c)[k] == c[k]@,
{
}

} // verus!
