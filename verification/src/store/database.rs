//! Rows of the candle database.
//!
//! A candle is stored under its coin, the name of its timeframe and the second
//! in which it begins; storing another one there replaces it.

use crate::clock::{date_from_secs, is_date_millis, is_date_second, second_of};
use crate::double::Double;
use crate::feeds::types::{Candle, CandleModel, CoinInfo, Interval, all_intervals};
use crate::text::same_text;
use vstd::prelude::*;
use vstd::string::*;

verus! {

/// The folder of the database, in the platform's folder for data.
pub fn data_folder() -> (r: &'static str)
    ensures
        r@ == "vsbtc"@,
{
    "vsbtc"
}

/// The name of the database file.
pub fn data_file() -> (r: &'static str)
    ensures
        r@ == "data.db"@,
{
    "data.db"
}

/// The timeframe that a stored name stands for; that of five minutes where the
/// name is not known.
pub open spec fn interval_of(s: Seq<char>) -> Interval {
    if s == "5m"@ {
        Interval::M5
    } else if s == "15m"@ {
        Interval::M15
    } else if s == "1h"@ {
        Interval::H1
    } else if s == "4h"@ {
        Interval::H4
    } else if s == "1d"@ {
        Interval::D1
    } else if s == "7d"@ {
        Interval::D7
    } else if s == "30d"@ {
        Interval::D30
    } else {
        Interval::M5
    }
}

/// The timeframe that a stored name stands for; that of five minutes where the
/// name is not known.
pub fn parse_interval(s: &str) -> (r: Interval)
    ensures
        r == interval_of(s@),
{
    if same_text(s, "5m") {
        Interval::M5
    } else if same_text(s, "15m") {
        Interval::M15
    } else if same_text(s, "1h") {
        Interval::H1
    } else if same_text(s, "4h") {
        Interval::H4
    } else if same_text(s, "1d") {
        Interval::D1
    } else if same_text(s, "7d") {
        Interval::D7
    } else if same_text(s, "30d") {
        Interval::D30
    } else {
        Interval::M5
    }
}

/// The name of a timeframe stands for it and for no other.
pub proof fn stored_name_is_read_back(i: Interval, j: Interval)
    ensures
        interval_of(i.label()) == i,
        i.label() == j.label() ==> i == j,
        i.exchange_label() == j.exchange_label() ==> i == j,
{
    lemma_label_lengths();
    reveal_strlit("5m");
    reveal_strlit("1h");
    reveal_strlit("4h");
    reveal_strlit("1d");
    reveal_strlit("7d");
    reveal_strlit("1w");
    reveal_strlit("1M");
    assert("5m"@[0] == '5');
    assert("4h"@[0] == '4');
    assert("7d"@[0] == '7');
    assert("1h"@[0] == '1' && "1h"@[1] == 'h');
    assert("1d"@[0] == '1' && "1d"@[1] == 'd');
    assert("1w"@[0] == '1' && "1w"@[1] == 'w');
    assert("1M"@[0] == '1' && "1M"@[1] == 'M');
    reveal_strlit("15m");
    reveal_strlit("30d");
    assert("15m"@[0] == '1');
    assert("30d"@[0] == '3');
}

proof fn lemma_label_lengths()
    ensures
        "5m"@.len() == 2,
        "15m"@.len() == 3,
        "1h"@.len() == 2,
        "4h"@.len() == 2,
        "1d"@.len() == 2,
        "7d"@.len() == 2,
        "30d"@.len() == 3,
        "1w"@.len() == 2,
        "1M"@.len() == 2,
{
    reveal_strlit("5m");
    reveal_strlit("15m");
    reveal_strlit("1h");
    reveal_strlit("4h");
    reveal_strlit("1d");
    reveal_strlit("7d");
    reveal_strlit("30d");
    reveal_strlit("1w");
    reveal_strlit("1M");
}

/// A row of the candle table. The time is in seconds since the epoch.
#[derive(Debug)]
pub struct CandleRow {
    pub coin: String,
    pub interval: String,
    pub timestamp: i64,
    pub open: Double,
    pub high: Double,
    pub low: Double,
    pub close: Double,
    pub volume: Double,
}

/// What a row of the candle table says.
pub struct CandleRowModel {
    pub coin: Seq<char>,
    pub interval: Seq<char>,
    pub timestamp: i64,
    pub open: Double,
    pub high: Double,
    pub low: Double,
    pub close: Double,
    pub volume: Double,
}

impl View for CandleRow {
    type V = CandleRowModel;

    open spec fn view(&self) -> CandleRowModel {
        CandleRowModel {
            coin: self.coin@,
            interval: self.interval@,
            timestamp: self.timestamp,
            open: self.open,
            high: self.high,
            low: self.low,
            close: self.close,
            volume: self.volume,
        }
    }
}

/// The row that a candle is stored in.
pub open spec fn stored(c: CandleModel) -> CandleRowModel {
    CandleRowModel {
        coin: c.coin,
        interval: c.interval.label(),
        timestamp: (c.timestamp as int / 1000) as i64,
        open: c.open,
        high: c.high,
        low: c.low,
        close: c.close,
        volume: c.volume,
    }
}

/// The time of a stored second; that of the epoch where no date has it.
pub open spec fn stored_time(s: i64) -> i64 {
    if is_date_second(s as int) {
        (s * 1000) as i64
    } else {
        0
    }
}

/// The candle that a row holds.
pub open spec fn read_back(r: CandleRowModel) -> CandleModel {
    CandleModel {
        coin: r.coin,
        open: r.open,
        high: r.high,
        low: r.low,
        close: r.close,
        volume: r.volume,
        timestamp: stored_time(r.timestamp),
        interval: interval_of(r.interval),
    }
}

/// The row that a candle is stored in.
pub fn candle_row(c: &Candle) -> (r: CandleRow)
    ensures
        r@ == stored(c@),
{
    CandleRow {
        coin: c.coin.clone(),
        interval: c.interval.as_str().to_owned(),
        timestamp: second_of(c.timestamp),
        open: c.open,
        high: c.high,
        low: c.low,
        close: c.close,
        volume: c.volume,
    }
}

/// The candle that a row holds.
pub fn row_candle(r: &CandleRow) -> (c: Candle)
    ensures
        c@ == read_back(r@),
{
    let timestamp: i64 = match date_from_secs(r.timestamp) {
        Some(ms) => ms,
        None => 0,
    };
    Candle {
        coin: r.coin.clone(),
        open: r.open,
        high: r.high,
        low: r.low,
        close: r.close,
        volume: r.volume,
        timestamp,
        interval: parse_interval(r.interval.as_str()),
    }
}

/// The candles of rows that were read from the newest to the oldest, in the order
/// of time.
pub fn oldest_first(rows: &[CandleRow]) -> (r: Vec<Candle>)
    ensures
        r@.len() == rows@.len(),
        forall|k: int|
            0 <= k < r@.len() ==> (#[trigger] r@[k])@ == read_back(
                rows@[rows@.len() - 1 - k]@,
            ),
{
    let n: usize = rows.len();
    let mut r: Vec<Candle> = Vec::new();
    let mut k: usize = 0;
    while k < n
        invariant
            k <= n,
            n == rows@.len(),
            r@.len() == k,
            forall|j: int|
                0 <= j < k ==> (#[trigger] r@[j])@ == read_back(rows@[n - 1 - j]@),
        decreases n - k,
    {
        r.push(row_candle(&rows[n - 1 - k]));
        k = k + 1;
    }
    r
}

/// The time of a coin's newest candle in a timeframe, from the largest stored
/// second; none where nothing is stored or no date has that second.
pub fn latest_time(newest: Option<i64>) -> (r: Option<i64>)
    ensures
        r == match newest {
            Some(s) => if is_date_second(s as int) {
                Some((s * 1000) as i64)
            } else {
                None
            },
            None => None,
        },
{
    match newest {
        Some(s) => date_from_secs(s),
        None => None,
    }
}

/// A candle that is stored and read back is the same, but for the part of its time
/// below a second.
pub proof fn stored_candle_is_read_back(c: CandleModel)
    requires
        is_date_millis(c.timestamp as int),
    ensures
        read_back(stored(c)) == (CandleModel {
            timestamp: (c.timestamp as int / 1000 * 1000) as i64,
            ..c
        }),
        c.timestamp as int % 1000 == 0 ==> read_back(stored(c)) == c,
{
    stored_name_is_read_back(c.interval, c.interval);
}

/// Whether two rows stand in the same place of the table, so that the later one
/// replaces the earlier one.
pub open spec fn same_place(a: CandleRowModel, b: CandleRowModel) -> bool {
    a.coin == b.coin && a.interval == b.interval && a.timestamp == b.timestamp
}

/// A candle replaces exactly those of the same coin and timeframe that begin in
/// the same second.
pub proof fn candles_of_one_second_share_a_place(a: CandleModel, b: CandleModel)
    ensures
        same_place(stored(a), stored(b)) <==> a.coin == b.coin && a.interval == b.interval
            && a.timestamp as int / 1000 == b.timestamp as int / 1000,
{
    stored_name_is_read_back(a.interval, b.interval);
}

/// Rows whose times fall, all of them of dates, are read as candles whose times
/// rise.
pub proof fn candles_are_read_in_order_of_time(rows: Seq<CandleRow>, candles: Seq<Candle>)
    requires
        candles.len() == rows.len(),
        forall|k: int|
            0 <= k < candles.len() ==> (#[trigger] candles[k])@ == read_back(
                rows[rows.len() - 1 - k]@,
            ),
        forall|i: int, j: int|
            0 <= i < j < rows.len() ==> (#[trigger] rows[i]).timestamp > (
            #[trigger] rows[j]).timestamp,
        forall|i: int|
            0 <= i < rows.len() ==> is_date_second((#[trigger] rows[i]).timestamp as int),
    ensures
        forall|i: int, j: int|
            0 <= i < j < candles.len() ==> (#[trigger] candles[i]).timestamp < (
            #[trigger] candles[j]).timestamp,
{
    assert forall|i: int, j: int| 0 <= i < j < candles.len() implies (
    #[trigger] candles[i]).timestamp < (#[trigger] candles[j]).timestamp by {
        let (a, b) = (rows[rows.len() - 1 - i], rows[rows.len() - 1 - j]);
        assert(candles[i]@ == read_back(a@));
        assert(candles[j]@ == read_back(b@));
        assert(b.timestamp > a.timestamp);
        assert(candles[i]@.timestamp == candles[i].timestamp);
        assert(candles[j]@.timestamp == candles[j].timestamp);
    }
}

/// A row of the coin table.
#[derive(Debug)]
pub struct CoinRow {
    pub name: String,
    pub is_perp: i32,
    pub last_price: Double,
    pub volume_24h: Double,
    pub updated_at: i64,
}

/// The row that a coin is stored in, at a time in seconds.
pub fn coin_row(c: &CoinInfo, now: i64) -> (r: CoinRow)
    ensures
        r.name@ == c.name@,
        r.is_perp == if c.is_perp {
            1i32
        } else {
            0i32
        },
        r.last_price == c.price,
        r.volume_24h == c.volume_24h,
        r.updated_at == now,
{
    CoinRow {
        name: c.name.clone(),
        is_perp: if c.is_perp {
            1
        } else {
            0
        },
        last_price: c.price,
        volume_24h: c.volume_24h,
        updated_at: now,
    }
}

/// The second before which the candles of a timeframe are dropped: as long ago as
/// they are kept for. None where they are kept for good.
pub open spec fn cutoff(now: int, i: Interval) -> Option<int> {
    match i.kept_for() {
        Some(s) => Some(now - s),
        None => None,
    }
}

/// The second before which the candles of a timeframe are dropped.
pub fn prune_cutoff(now: i64, i: Interval) -> (r: Option<i64>)
    requires
        is_date_second(now as int),
    ensures
        match r {
            Some(s) => cutoff(now as int, i) == Some(s as int),
            None => cutoff(now as int, i) is None,
        },
{
    match i.retention_secs() {
        Some(s) => Some(now - s),
        None => None,
    }
}

/// The timeframes of which old candles are dropped, each with the second before
/// which they are; every timeframe but those kept for good, in order.
pub fn prune_cutoffs(now: i64) -> (r: Vec<(Interval, i64)>)
    requires
        is_date_second(now as int),
    ensures
        r@.len() == 6,
        forall|k: int|
            0 <= k < 6 ==> {
                &&& (#[trigger] r@[k]).0 == all_intervals()[k]
                &&& cutoff(now as int, all_intervals()[k]) == Some(r@[k].1 as int)
            },
        cutoff(now as int, all_intervals()[6]) is None,
{
    let all = Interval::all();
    let mut r: Vec<(Interval, i64)> = Vec::new();
    let mut k: usize = 0;
    while k < all.len()
        invariant
            is_date_second(now as int),
            k <= 7,
            all@ == all_intervals(),
            r@.len() == if k < 6 {
                k as int
            } else {
                6
            },
            forall|j: int|
                0 <= j < k && j < 6 ==> {
                    &&& (#[trigger] r@[j]).0 == all_intervals()[j]
                    &&& cutoff(now as int, all_intervals()[j]) == Some(r@[j].1 as int)
                },
        decreases 7 - k,
    {
        if let Some(s) = prune_cutoff(now, all[k]) {
            r.push((all[k], s));
        }
        k = k + 1;
    }
    r
}

/// Whether a candle that begins at a second is dropped.
pub open spec fn is_dropped(i: Interval, second: int, now: int) -> bool {
    cutoff(now, i) matches Some(s) && second < s
}

/// Dropping old candles spares those that are read again: the last ones of a
/// timeframe, as many as its limit. What was dropped once stays old.
pub proof fn read_candles_are_not_dropped(i: Interval, second: int, now: int, later: int)
    ensures
        second >= now - i.candle_limit() * i.seconds() ==> !is_dropped(i, second, now),
        now <= later && is_dropped(i, second, now) ==> is_dropped(i, second, later),
        i == Interval::D30 ==> !is_dropped(i, second, now),
        is_dropped(Interval::M5, second, now) <==> second < now - 3 * 24 * 60 * 60,
{
    crate::feeds::types::kept_candles_are_those_read(i);
}

/// A candle is stored with each of its figures in the column of its name, under its coin
/// and the name of its timeframe, at the second in which it begins; and a row is read the
/// same way.
pub proof fn columns_hold_what_they_are_named_after(c: CandleModel, r: CandleRowModel)
    ensures
        stored(c).coin == c.coin,
        stored(c).interval == c.interval.label(),
        stored(c).open == c.open,
        stored(c).high == c.high,
        stored(c).low == c.low,
        stored(c).close == c.close,
        stored(c).volume == c.volume,
        1000 * stored(c).timestamp <= c.timestamp < 1000 * stored(c).timestamp + 1000,
        read_back(r).coin == r.coin,
        read_back(r).interval == interval_of(r.interval),
        read_back(r).open == r.open,
        read_back(r).high == r.high,
        read_back(r).low == r.low,
        read_back(r).close == r.close,
        read_back(r).volume == r.volume,
        is_date_second(r.timestamp as int) ==> read_back(r).timestamp == 1000 * r.timestamp,
        !is_date_second(r.timestamp as int) ==> read_back(r).timestamp == 0,
{
}

/// A row says what its fields hold, each under its own name.
pub proof fn row_says_what_it_holds(r: CandleRow)
    ensures
        r@.coin == r.coin@,
        r@.interval == r.interval@,
        r@.timestamp == r.timestamp,
        r@.open == r.open,
        r@.high == r.high,
        r@.low == r.low,
        r@.close == r.close,
        r@.volume == r.volume,
{
}

/// A name that no timeframe has is read as that of five minutes.
pub proof fn unknown_names_are_of_five_minutes(s: Seq<char>)
    ensures
        (forall|i: Interval| s != #[trigger] i.label()) ==> interval_of(s) == Interval::M5,
{
    if forall|i: Interval| s != #[trigger] i.label() {
        assert(s != Interval::M5.label());
        assert(s != Interval::M15.label());
        assert(s != Interval::H1.label());
        assert(s != Interval::H4.label());
        assert(s != Interval::D1.label());
        assert(s != Interval::D7.label());
        assert(s != Interval::D30.label());
    }
}

/// A candle is dropped exactly where it lies further back than as many candles of its
/// timeframe as are read, and never where the timeframe is kept for good.
pub proof fn candles_are_dropped_once_they_are_not_read(i: Interval, second: int, now: int)
    ensures
        i != Interval::D30 ==> (is_dropped(i, second, now) <==> second < now - i.candle_limit()
            * i.seconds()),
        i == Interval::D30 ==> !is_dropped(i, second, now),
        cutoff(now, i) matches Some(s) ==> (is_dropped(i, second, now) <==> second < s),
{
    crate::feeds::types::kept_candles_are_those_read(i);
}

} // verus!
