//! Candles, coins and timeframes.

use crate::double::Double;
use crate::text::{trim_suffix, without_suffix};
use vstd::prelude::*;

verus! {

/// A timeframe.
#[derive(Clone, Copy, Debug, PartialEq, Eq, Hash, Structural)]
pub enum Interval {
    M5,
    M15,
    H1,
    H4,
    D1,
    D7,
    D30,
}

/// Every timeframe, from the shortest to the longest.
pub open spec fn all_intervals() -> Seq<Interval> {
    seq![
        Interval::M5,
        Interval::M15,
        Interval::H1,
        Interval::H4,
        Interval::D1,
        Interval::D7,
        Interval::D30,
    ]
}

impl Interval {
    /// The name under which candles are stored and shown.
    pub open spec fn label(self) -> Seq<char> {
        match self {
            Interval::M5 => "5m"@,
            Interval::M15 => "15m"@,
            Interval::H1 => "1h"@,
            Interval::H4 => "4h"@,
            Interval::D1 => "1d"@,
            Interval::D7 => "7d"@,
            Interval::D30 => "30d"@,
        }
    }

    /// The exchange's name.
    pub open spec fn exchange_label(self) -> Seq<char> {
        match self {
            Interval::M5 => "5m"@,
            Interval::M15 => "15m"@,
            Interval::H1 => "1h"@,
            Interval::H4 => "4h"@,
            Interval::D1 => "1d"@,
            Interval::D7 => "1w"@,
            Interval::D30 => "1M"@,
        }
    }

    /// How long one candle lasts, in seconds.
    pub open spec fn seconds(self) -> nat {
        match self {
            Interval::M5 => 5 * 60,
            Interval::M15 => 15 * 60,
            Interval::H1 => 60 * 60,
            Interval::H4 => 4 * 60 * 60,
            Interval::D1 => 24 * 60 * 60,
            Interval::D7 => 7 * 24 * 60 * 60,
            Interval::D30 => 30 * 24 * 60 * 60,
        }
    }

    /// How many candles of one coin are read and asked for.
    pub open spec fn candle_limit(self) -> nat {
        match self {
            Interval::M5 => 864,
            Interval::M15 => 672,
            Interval::H1 => 720,
            Interval::H4 => 540,
            Interval::D1 => 365,
            Interval::D7 => 104,
            Interval::D30 => 60,
        }
    }

    /// How long candles are kept, in seconds; `None` where they are kept for good.
    ///
    /// A timeframe's candles are kept as long as its candle limit reaches back:
    /// three days for those of five minutes. Monthly candles are kept for good.
    pub open spec fn kept_for(self) -> Option<nat> {
        match self {
            Interval::M5 => Some(3 * 24 * 60 * 60),
            Interval::M15 => Some(7 * 24 * 60 * 60),
            Interval::H1 => Some(30 * 24 * 60 * 60),
            Interval::H4 => Some(90 * 24 * 60 * 60),
            Interval::D1 => Some(365 * 24 * 60 * 60),
            Interval::D7 => Some(728 * 24 * 60 * 60),
            Interval::D30 => None,
        }
    }

    /// The name under which candles are stored and shown.
    pub fn as_str(&self) -> (r: &'static str)
        ensures
            r@ == self.label(),
    {
        match self {
            Interval::M5 => "5m",
            Interval::M15 => "15m",
            Interval::H1 => "1h",
            Interval::H4 => "4h",
            Interval::D1 => "1d",
            Interval::D7 => "7d",
            Interval::D30 => "30d",
        }
    }

    /// The exchange's name.
    pub fn as_hl_str(&self) -> (r: &'static str)
        ensures
            r@ == self.exchange_label(),
    {
        match self {
            Interval::M5 => "5m",
            Interval::M15 => "15m",
            Interval::H1 => "1h",
            Interval::H4 => "4h",
            Interval::D1 => "1d",
            Interval::D7 => "1w",
            Interval::D30 => "1M",
        }
    }

    /// Every timeframe, from the shortest to the longest.
    pub fn all() -> (r: &'static [Interval])
        ensures
            r@ == all_intervals(),
    {
        let r: &'static [Interval] = &[
            Interval::M5,
            Interval::M15,
            Interval::H1,
            Interval::H4,
            Interval::D1,
            Interval::D7,
            Interval::D30,
        ];
        assert(r@ =~= all_intervals());
        r
    }

    /// How long one candle lasts, in seconds.
    pub fn duration_secs(&self) -> (r: i64)
        ensures
            r == self.seconds(),
    {
        match self {
            Interval::M5 => 300,
            Interval::M15 => 900,
            Interval::H1 => 3600,
            Interval::H4 => 14400,
            Interval::D1 => 86400,
            Interval::D7 => 604800,
            Interval::D30 => 2592000,
        }
    }

    /// How many candles of one coin are read and asked for.
    pub fn max_candles(&self) -> (r: usize)
        ensures
            r == self.candle_limit(),
    {
        match self {
            Interval::M5 => 864,
            Interval::M15 => 672,
            Interval::H1 => 720,
            Interval::H4 => 540,
            Interval::D1 => 365,
            Interval::D7 => 104,
            Interval::D30 => 60,
        }
    }

    /// How long candles are kept, in seconds; `None` where they are kept for good.
    pub fn retention_secs(&self) -> (r: Option<i64>)
        ensures
            match r {
                Some(s) => s >= 0 && self.kept_for() == Some(s as nat),
                None => self.kept_for() is None,
            },
    {
        match self {
            Interval::M5 => Some(259200),
            Interval::M15 => Some(604800),
            Interval::H1 => Some(2592000),
            Interval::H4 => Some(7776000),
            Interval::D1 => Some(31536000),
            Interval::D7 => Some(62899200),
            Interval::D30 => None,
        }
    }
}

/// What is kept of a timeframe is exactly what its candle limit reaches back to,
/// unless it is kept for good.
pub proof fn kept_candles_are_those_read(i: Interval)
    ensures
        i.kept_for() is None <==> i == Interval::D30,
        i.kept_for() matches Some(s) ==> s == i.candle_limit() * i.seconds(),
{
    let (n, s) = (i.candle_limit(), i.seconds());
    match i {
        Interval::M5 => assert(n * s == 259200) by (nonlinear_arith)
            requires
                n == 864,
                s == 300,
        ,
        Interval::M15 => assert(n * s == 604800) by (nonlinear_arith)
            requires
                n == 672,
                s == 900,
        ,
        Interval::H1 => assert(n * s == 2592000) by (nonlinear_arith)
            requires
                n == 720,
                s == 3600,
        ,
        Interval::H4 => assert(n * s == 7776000) by (nonlinear_arith)
            requires
                n == 540,
                s == 14400,
        ,
        Interval::D1 => assert(n * s == 31536000) by (nonlinear_arith)
            requires
                n == 365,
                s == 86400,
        ,
        Interval::D7 => assert(n * s == 62899200) by (nonlinear_arith)
            requires
                n == 104,
                s == 604800,
        ,
        Interval::D30 => {},
    }
}

/// Every timeframe is listed once, in the order of length.
pub proof fn intervals_are_listed_once(i: Interval)
    ensures
        exists|k: int| 0 <= k < all_intervals().len() && #[trigger] all_intervals()[k] == i,
        forall|j: int, k: int|
            0 <= j < k < all_intervals().len() ==> (#[trigger] all_intervals()[j]).seconds()
                < (#[trigger] all_intervals()[k]).seconds(),
{
    let k: int = match i {
        Interval::M5 => 0,
        Interval::M15 => 1,
        Interval::H1 => 2,
        Interval::H4 => 3,
        Interval::D1 => 4,
        Interval::D7 => 5,
        Interval::D30 => 6,
    };
    assert(all_intervals()[k] == i);
}

/// At most one number for each timeframe.
#[derive(Clone, Copy, Debug)]
pub struct PerInterval {
    pub m5: Option<Double>,
    pub m15: Option<Double>,
    pub h1: Option<Double>,
    pub h4: Option<Double>,
    pub d1: Option<Double>,
    pub d7: Option<Double>,
    pub d30: Option<Double>,
}

impl PerInterval {
    /// The number of a timeframe.
    pub open spec fn of(self, i: Interval) -> Option<Double> {
        match i {
            Interval::M5 => self.m5,
            Interval::M15 => self.m15,
            Interval::H1 => self.h1,
            Interval::H4 => self.h4,
            Interval::D1 => self.d1,
            Interval::D7 => self.d7,
            Interval::D30 => self.d30,
        }
    }

    /// The same numbers, but for one timeframe.
    pub open spec fn with(self, i: Interval, x: Double) -> PerInterval {
        match i {
            Interval::M5 => PerInterval { m5: Some(x), ..self },
            Interval::M15 => PerInterval { m15: Some(x), ..self },
            Interval::H1 => PerInterval { h1: Some(x), ..self },
            Interval::H4 => PerInterval { h4: Some(x), ..self },
            Interval::D1 => PerInterval { d1: Some(x), ..self },
            Interval::D7 => PerInterval { d7: Some(x), ..self },
            Interval::D30 => PerInterval { d30: Some(x), ..self },
        }
    }

    /// No number for any timeframe.
    pub open spec fn spec_none() -> PerInterval {
        PerInterval { m5: None, m15: None, h1: None, h4: None, d1: None, d7: None, d30: None }
    }

    /// No number for any timeframe.
    #[verifier::when_used_as_spec(spec_none)]
    pub fn none() -> (r: PerInterval)
        ensures
            r == PerInterval::spec_none(),
    {
        PerInterval { m5: None, m15: None, h1: None, h4: None, d1: None, d7: None, d30: None }
    }

    /// The number of a timeframe.
    pub fn get(&self, i: Interval) -> (r: Option<Double>)
        ensures
            r == self.of(i),
    {
        match i {
            Interval::M5 => self.m5,
            Interval::M15 => self.m15,
            Interval::H1 => self.h1,
            Interval::H4 => self.h4,
            Interval::D1 => self.d1,
            Interval::D7 => self.d7,
            Interval::D30 => self.d30,
        }
    }

    /// Sets the number of a timeframe.
    pub fn insert(&mut self, i: Interval, x: Double)
        ensures
            *final(self) == old(self).with(i, x),
    {
        match i {
            Interval::M5 => {
                self.m5 = Some(x);
            },
            Interval::M15 => {
                self.m15 = Some(x);
            },
            Interval::H1 => {
                self.h1 = Some(x);
            },
            Interval::H4 => {
                self.h4 = Some(x);
            },
            Interval::D1 => {
                self.d1 = Some(x);
            },
            Interval::D7 => {
                self.d7 = Some(x);
            },
            Interval::D30 => {
                self.d30 = Some(x);
            },
        }
    }

    /// The numbers there are, from the shortest timeframe to the longest.
    pub fn values(&self) -> (r: Vec<Double>)
        ensures
            r@ == self.numbers(all_intervals()),
    {
        let all = Interval::all();
        let mut r: Vec<Double> = Vec::new();
        let mut k: usize = 0;
        assert(all@.take(0) =~= Seq::<Interval>::empty());
        while k < all.len()
            invariant
                k <= all@.len(),
                r@ == self.numbers(all@.take(k as int)),
            decreases all@.len() - k,
        {
            let ghost up_to = all@.take(k + 1);
            assert(up_to.drop_last() =~= all@.take(k as int));
            assert(up_to.last() == all@[k as int]);
            if let Some(x) = self.get(all[k]) {
                r.push(x);
            }
            k = k + 1;
        }
        assert(all@.take(k as int) =~= all@);
        r
    }

    /// The numbers there are among those of the timeframes listed.
    pub open spec fn numbers(self, among: Seq<Interval>) -> Seq<Double>
        decreases among.len(),
    {
        if among.len() == 0 {
            Seq::empty()
        } else {
            let before = self.numbers(among.drop_last());
            match self.of(among.last()) {
                Some(x) => before.push(x),
                None => before,
            }
        }
    }
}

/// A number that was set is read back; setting it leaves the others alone.
pub proof fn setting_one_interval_keeps_the_others(p: PerInterval, i: Interval, x: Double, j: Interval)
    ensures
        p.with(i, x).of(j) == if i == j {
            Some(x)
        } else {
            p.of(j)
        },
        PerInterval::none().of(j) is None,
{
}

/// One candle of a coin.
///
/// The time is that of its beginning, in milliseconds since the epoch.
#[derive(Debug)]
pub struct Candle {
    pub coin: String,
    pub open: Double,
    pub high: Double,
    pub low: Double,
    pub close: Double,
    pub volume: Double,
    pub timestamp: i64,
    pub interval: Interval,
}

/// What a candle says.
pub struct CandleModel {
    pub coin: Seq<char>,
    pub open: Double,
    pub high: Double,
    pub low: Double,
    pub close: Double,
    pub volume: Double,
    pub timestamp: i64,
    pub interval: Interval,
}

impl View for Candle {
    type V = CandleModel;

    open spec fn view(&self) -> CandleModel {
        CandleModel {
            coin: self.coin@,
            open: self.open,
            high: self.high,
            low: self.low,
            close: self.close,
            volume: self.volume,
            timestamp: self.timestamp,
            interval: self.interval,
        }
    }
}

/// What each of several candles says.
pub open spec fn candle_models(v: Seq<Candle>) -> Seq<CandleModel> {
    v.map_values(|c: Candle| c@)
}

impl Clone for Candle {
    fn clone(&self) -> (r: Self)
        ensures
            r == *self,
    {
        Candle {
            coin: self.coin.clone(),
            open: self.open,
            high: self.high,
            low: self.low,
            close: self.close,
            volume: self.volume,
            timestamp: self.timestamp,
            interval: self.interval,
        }
    }
}

/// A coin of the exchange with its market data.
#[derive(Debug)]
pub struct CoinInfo {
    pub name: String,
    pub is_perp: bool,
    pub price: Double,
    pub volume_24h: Double,
    pub open_interest: Double,
    pub funding_rate: Double,
    pub change_24h_pct: Double,
}

/// The end of the name of a spot market.
pub open spec fn spot_ending() -> Seq<char> {
    "/SPOT"@
}

impl CoinInfo {
    /// The name that the exchange's interface takes: without the ending of a
    /// spot market, `HYPE` for `HYPE/SPOT`.
    pub fn api_name(&self) -> (r: String)
        ensures
            r@ == without_suffix(self.name@, spot_ending()),
    {
        trim_suffix(self.name.as_str(), "/SPOT")
    }
}

impl Clone for CoinInfo {
    fn clone(&self) -> (r: Self)
        ensures
            r == *self,
    {
        CoinInfo {
            name: self.name.clone(),
            is_perp: self.is_perp,
            price: self.price,
            volume_24h: self.volume_24h,
            open_interest: self.open_interest,
            funding_rate: self.funding_rate,
            change_24h_pct: self.change_24h_pct,
        }
    }
}

/// How far the backfill has come.
#[derive(Clone, Debug)]
pub struct BackfillProgress {
    pub coin: String,
    pub current: usize,
    pub total: usize,
    pub fetched: usize,
    pub skipped: usize,
    pub phase: &'static str,
}

/// A candle says what its fields hold, each under its own name.
pub proof fn candle_says_what_it_holds(c: Candle)
    ensures
        c@.coin == c.coin@,
        c@.open == c.open,
        c@.high == c.high,
        c@.low == c.low,
        c@.close == c.close,
        c@.volume == c.volume,
        c@.timestamp == c.timestamp,
        c@.interval == c.interval,
{
}

/// Timeframes are made of each other: three of five minutes, twelve to the hour, and
/// so on.
pub proof fn timeframes_are_made_of_each_other()
    ensures
        Interval::M5.seconds() == 5 * 60,
        Interval::M15.seconds() == 3 * Interval::M5.seconds(),
        Interval::H1.seconds() == 12 * Interval::M5.seconds(),
        Interval::H4.seconds() == 4 * Interval::H1.seconds(),
        Interval::D1.seconds() == 24 * Interval::H1.seconds(),
        Interval::D7.seconds() == 7 * Interval::D1.seconds(),
        Interval::D30.seconds() == 30 * Interval::D1.seconds(),
{
}

/// The numbers of timeframes are listed in the order of the timeframes; one that has
/// none adds nothing, and one that has a number adds it at the end.
pub proof fn numbers_are_listed_in_order(p: PerInterval, among: Seq<Interval>, i: Interval)
    ensures
        p.numbers(Seq::empty()) == Seq::<Double>::empty(),
        p.of(i) is None ==> p.numbers(among.push(i)) == p.numbers(among),
        p.of(i) matches Some(x) ==> p.numbers(among.push(i)) == p.numbers(among).push(x),
{
    assert(among.push(i).drop_last() =~= among);
}

/// Candles are told one by one and in order.
pub proof fn candles_are_told_one_by_one(v: Seq<Candle>, k: int)
    ensures
        candle_models(v).len() == v.len(),
        0 <= k < v.len() ==> candle_models(v)[k] == v[k]@,
{
}

} // verus!
