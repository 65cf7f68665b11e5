//! The course of loading: which candles are fetched, when, and what is told.

use crate::analysis::engine::{AnalysisEngine, BtcState, CoinMetrics, IntervalStats, are_rows_of};
use crate::feeds::messages::FeedMessage;
use crate::feeds::types::{BackfillProgress, Candle, CandleModel, CoinInfo, Interval, all_intervals,
    candle_models};
use crate::feeds::requests::window_start;
use crate::order::{RowOrder, is_ranking, leads, lists_rows, stable_order};
use crate::text::same_text;
use vstd::prelude::*;
use vstd::string::*;

verus! {

/// How many coins are loaded first: BTC and the twenty with the most volume.
pub const PRIORITY_COUNT: usize = 21;

/// How long background loading pauses after a request, in milliseconds.
pub const THROTTLE_MILLIS: u64 = 1400;

/// What the exchange lets one client ask for in a minute, in weight.
pub const WEIGHT_PER_MINUTE: u64 = 1200;

/// The weight of a request for candles.
pub const CANDLE_REQUEST_WEIGHT: u64 = 23;

/// How often metrics are computed anew, in seconds.
pub const METRICS_PERIOD_SECS: u64 = 10;

/// How often market data are fetched anew, in seconds.
pub const REFRESH_PERIOD_SECS: u64 = 60;

/// A step that follows from the reply to the request for the coin list.
#[derive(Debug)]
pub enum ListStep {
    /// Store these coins.
    Store(Vec<CoinInfo>),
    /// Send a message to the screen.
    Tell(FeedMessage),
    /// Go on with these coins.
    Use(Vec<CoinInfo>),
}

/// Whether steps are those that follow from a coin list: the coins are stored, then
/// told to the screen, and loading goes on with them; without coins only an error is
/// told.
pub open spec fn are_list_steps(steps: Seq<ListStep>, reply: Result<Vec<CoinInfo>, String>) -> bool {
    match reply {
        Ok(coins) => if coins@.len() == 0 {
            &&& steps.len() == 1
            &&& steps[0] matches ListStep::Tell(FeedMessage::Error(s)) && s@
                == "No coins found on Hyperliquid"@
        } else {
            &&& steps.len() == 3
            &&& steps[0] matches ListStep::Store(c) && c@ == coins@
            &&& steps[1] matches ListStep::Tell(FeedMessage::CoinList(c)) && c@ == coins@
            &&& steps[2] matches ListStep::Use(c) && c@ == coins@
        },
        Err(e) => {
            &&& steps.len() == 1
            &&& steps[0] matches ListStep::Tell(FeedMessage::Error(s)) && s@
                == "Failed to fetch coins: "@ + e@
        },
    }
}

fn copy_coins(coins: &Vec<CoinInfo>) -> (r: Vec<CoinInfo>)
    ensures
        r@ == coins@,
{
    let mut r: Vec<CoinInfo> = Vec::new();
    let mut k: usize = 0;
    while k < coins.len()
        invariant
            k <= coins@.len(),
            r@ == coins@.take(k as int),
        decreases coins@.len() - k,
    {
        r.push(coins[k].clone());
        k = k + 1;
        assert(r@ =~= coins@.take(k as int));
    }
    assert(coins@.take(k as int) =~= coins@);
    r
}

/// The steps that follow from the reply to the request for the coin list, at launch
/// and each time that market data are fetched anew.
pub fn on_coin_list(reply: Result<Vec<CoinInfo>, String>) -> (r: Vec<ListStep>)
    ensures
        are_list_steps(r@, reply),
{
    match reply {
        Ok(coins) => if coins.is_empty() {
            vec![ListStep::Tell(FeedMessage::Error("No coins found on Hyperliquid".to_owned()))]
        } else {
            let stored = copy_coins(&coins);
            let told = copy_coins(&coins);
            vec![
                ListStep::Store(stored),
                ListStep::Tell(FeedMessage::CoinList(told)),
                ListStep::Use(coins),
            ]
        },
        Err(e) => vec![
            ListStep::Tell(
                FeedMessage::Error("Failed to fetch coins: ".to_owned().concat(e.as_str())),
            ),
        ],
    }
}

/// Whether a coin is BTC.
pub open spec fn is_btc(c: CoinInfo) -> bool {
    c.name@ == "BTC"@
}

/// Whether a coin is loaded before another: BTC before any other, and of two
/// others the one with more volume.
pub open spec fn loads_before(a: CoinInfo, b: CoinInfo) -> bool {
    if is_btc(a) || is_btc(b) {
        is_btc(a) && !is_btc(b)
    } else {
        b.volume_24h.lt(a.volume_24h)
    }
}

/// Whether every volume that counts is a number.
pub open spec fn volumes_are_numbers(coins: Seq<CoinInfo>) -> bool {
    forall|i: int|
        0 <= i < coins.len() && !is_btc(#[trigger] coins[i]) ==> !coins[i].volume_24h.nan()
}

struct ByPriority<'a> {
    coins: &'a [CoinInfo],
}

impl<'a> RowOrder for ByPriority<'a> {
    closed spec fn rows(&self) -> nat {
        self.coins@.len()
    }

    closed spec fn before(&self, i: int, j: int) -> bool {
        loads_before(self.coins@[i], self.coins@[j])
    }

    fn count(&self) -> usize {
        self.coins.len()
    }

    fn is_before(&self, i: usize, j: usize) -> bool {
        let a = &self.coins[i];
        let b = &self.coins[j];
        let a_btc = same_text(a.name.as_str(), "BTC");
        let b_btc = same_text(b.name.as_str(), "BTC");
        if a_btc || b_btc {
            a_btc && !b_btc
        } else {
            b.volume_24h.is_less(a.volume_24h)
        }
    }
}

/// Whether `s` is the order in which coins are loaded: of any two places, the
/// coin at the later one does not load before that at the earlier one, and coins
/// of which neither does keep their order in the list.
pub open spec fn loading_order(coins: Seq<CoinInfo>, s: Seq<usize>) -> bool {
    forall|p: int, q: int|
        0 <= p < q < s.len() ==> {
            &&& !loads_before(coins[(#[trigger] s[q]) as int], coins[(#[trigger] s[p]) as int])
            &&& !loads_before(coins[s[p] as int], coins[s[q] as int]) ==> s[p] < s[q]
        }
}

/// The order in which coins are loaded, as places in the list: every coin once,
/// BTC first whatever the volumes, and in loading order wherever the volumes are
/// numbers.
pub fn priority_order(coins: &[CoinInfo]) -> (s: Vec<usize>)
    ensures
        lists_rows(s@, coins@.len()),
        volumes_are_numbers(coins@) ==> loading_order(coins@, s@),
        forall|b: int|
            0 <= b < coins@.len() && is_btc(#[trigger] coins@[b]) && (forall|j: int|
                0 <= j < coins@.len() && j != b ==> !is_btc(#[trigger] coins@[j])) ==> s@[0] == b,
{
    let t = ByPriority { coins };
    let s = stable_order(&t);
    proof {
        assert forall|b: int|
            0 <= b < coins@.len() && is_btc(#[trigger] coins@[b]) && (forall|j: int|
                0 <= j < coins@.len() && j != b ==> !is_btc(#[trigger] coins@[j])) implies s@[0]
            == b by {
            assert forall|j: int| 0 <= j < t.rows() && j != b implies #[trigger] t.before(b, j)
                && !t.before(j, b) by {
                assert(!is_btc(coins@[j]));
            }
            assert(leads(t, b));
        }
        if volumes_are_numbers(coins@) {
            assert(is_ranking(t));
            assert forall|p: int, q: int| 0 <= p < q < s@.len() implies {
                &&& !loads_before(
                    coins@[(#[trigger] s@[q]) as int],
                    coins@[(#[trigger] s@[p]) as int],
                )
                &&& !loads_before(coins@[s@[p] as int], coins@[s@[q] as int]) ==> s@[p] < s@[q]
            } by {
                assert(!t.before(s@[q] as int, s@[p] as int));
            }
        }
    }
    s
}

/// BTC is loaded first, where it is listed.
pub proof fn btc_is_loaded_first(coins: Seq<CoinInfo>, s: Seq<usize>, b: usize)
    requires
        lists_rows(s, coins.len()),
        loading_order(coins, s),
        b < coins.len(),
        is_btc(coins[b as int]),
    ensures
        is_btc(coins[s[0] as int]),
{
    if !is_btc(coins[s[0] as int]) {
        let p = crate::order::place_of_row(s, coins.len(), b);
        assert(!loads_before(coins[s[p] as int], coins[s[0] as int]));
    }
}

/// After BTC, coins are loaded from the most volume to the least.
pub proof fn others_are_loaded_by_volume(coins: Seq<CoinInfo>, s: Seq<usize>, p: int, q: int)
    requires
        lists_rows(s, coins.len()),
        loading_order(coins, s),
        volumes_are_numbers(coins),
        0 <= p < q < s.len(),
        !is_btc(coins[s[p] as int]),
    ensures
        !is_btc(coins[s[q] as int]),
        coins[s[q] as int].volume_24h.le(coins[s[p] as int].volume_24h),
{
    assert(!loads_before(coins[s[q] as int], coins[s[p] as int]));
}

/// The timeframes that are loaded first.
pub open spec fn priority_intervals() -> Seq<Interval> {
    seq![Interval::H1, Interval::H4, Interval::D1]
}

/// The other timeframes.
pub open spec fn other_intervals() -> Seq<Interval> {
    seq![Interval::M5, Interval::M15, Interval::D7, Interval::D30]
}

/// The timeframes that are loaded in the background: of the coins that were
/// loaded first those that are still missing, of the others all.
pub open spec fn background_intervals(coin: int) -> Seq<Interval> {
    if coin < PRIORITY_COUNT {
        other_intervals()
    } else {
        all_intervals()
    }
}

/// How many of the coins are loaded first.
pub open spec fn priority_coins(total: int) -> int {
    if total < PRIORITY_COUNT {
        total
    } else {
        PRIORITY_COUNT as int
    }
}

/// A stage of loading.
#[derive(Clone, Copy, Debug, PartialEq, Eq, Structural)]
pub enum Stage {
    /// The first coins, in the timeframes that come first.
    Priority,
    /// Metrics from what has been loaded.
    Metrics,
    /// The live connection is opened.
    Live,
    /// Everything else, slowly.
    Background,
    /// Old candles are dropped.
    Prune,
    /// Metrics from everything.
    FinalMetrics,
    Done,
}

/// Where loading stands: which coin, in loading order, and which of its
/// timeframes in this stage comes next, and how many were fetched and skipped.
#[derive(Clone, Copy, Debug)]
pub struct Backfill {
    pub total: usize,
    pub stage: Stage,
    pub coin: usize,
    pub slot: usize,
    pub fetched: usize,
    pub skipped: usize,
}

/// What loading does next.
#[derive(Clone, Copy, Debug)]
pub enum BackfillAction {
    /// Load the candles of a coin in a timeframe, unless they are fresh.
    Fetch { coin: usize, interval: Interval },
    /// Tell that a coin is through.
    Report { coin: usize },
    /// Compute metrics.
    ComputeMetrics,
    /// Open the live connection, and begin to compute metrics and to fetch market
    /// data over and over.
    StartLive,
    /// Drop old candles.
    Prune,
    /// Nothing is left.
    Done,
}

impl Backfill {
    /// How many loads come before the one this state stands at.
    pub open spec fn loads_done(self) -> int {
        let p = priority_coins(self.total as int);
        match self.stage {
            Stage::Priority => 3 * self.coin + self.slot,
            Stage::Metrics | Stage::Live => 3 * p,
            Stage::Background => if self.coin < p {
                3 * p + 4 * self.coin + self.slot
            } else {
                7 * p + 7 * (self.coin - p) + self.slot
            },
            Stage::Prune | Stage::FinalMetrics | Stage::Done => 7 * self.total,
        }
    }

    /// Whether the state is one that loading can be in.
    pub open spec fn wf(self) -> bool {
        &&& 7 * self.total <= usize::MAX
        &&& self.total > 0
        &&& match self.stage {
            Stage::Priority => self.coin < priority_coins(self.total as int) && self.slot <= 3,
            Stage::Background => self.coin < self.total && self.slot <= background_intervals(
                self.coin as int,
            ).len(),
            _ => self.coin == 0 && self.slot == 0,
        }
        &&& self.fetched + self.skipped == self.loads_done()
    }

    /// What loading does next.
    pub open spec fn next_action(self) -> BackfillAction {
        match self.stage {
            Stage::Priority => if self.slot < 3 {
                BackfillAction::Fetch {
                    coin: self.coin,
                    interval: priority_intervals()[self.slot as int],
                }
            } else {
                BackfillAction::Report { coin: self.coin }
            },
            Stage::Background => {
                let left = background_intervals(self.coin as int);
                if self.slot < left.len() {
                    BackfillAction::Fetch { coin: self.coin, interval: left[self.slot as int] }
                } else {
                    BackfillAction::Report { coin: self.coin }
                }
            },
            Stage::Metrics | Stage::FinalMetrics => BackfillAction::ComputeMetrics,
            Stage::Live => BackfillAction::StartLive,
            Stage::Prune => BackfillAction::Prune,
            Stage::Done => BackfillAction::Done,
        }
    }

    /// The state after the next action; `did_fetch` tells whether a load made a
    /// request.
    pub open spec fn after(self, did_fetch: bool) -> Backfill {
        let next = Backfill { coin: 0, slot: 0, ..self };
        match self.next_action() {
            BackfillAction::Fetch { .. } => Backfill {
                slot: (self.slot + 1) as usize,
                fetched: (self.fetched + if did_fetch {
                    1int
                } else {
                    0
                }) as usize,
                skipped: (self.skipped + if did_fetch {
                    0int
                } else {
                    1
                }) as usize,
                ..self
            },
            BackfillAction::Report { .. } => {
                let last = if self.stage == Stage::Priority {
                    priority_coins(self.total as int)
                } else {
                    self.total as int
                };
                if self.coin + 1 < last {
                    Backfill { coin: (self.coin + 1) as usize, slot: 0, ..self }
                } else if self.stage == Stage::Priority {
                    Backfill { stage: Stage::Metrics, ..next }
                } else {
                    Backfill { stage: Stage::Prune, ..next }
                }
            },
            _ => match self.stage {
                Stage::Metrics => Backfill { stage: Stage::Live, ..next },
                Stage::Live => Backfill { stage: Stage::Background, ..next },
                Stage::Prune => Backfill { stage: Stage::FinalMetrics, ..next },
                _ => Backfill { stage: Stage::Done, ..next },
            },
        }
    }

    /// How long loading pauses after the next action, in milliseconds: in the
    /// background after each request, to stay within the exchange's limits.
    pub open spec fn pause_after(self, did_fetch: bool) -> u64 {
        if self.stage == Stage::Background && self.next_action() is Fetch && did_fetch {
            THROTTLE_MILLIS
        } else {
            0
        }
    }

    /// The state in which loading begins.
    pub fn new(total: usize) -> (r: Backfill)
        requires
            0 < total,
            7 * total <= usize::MAX,
        ensures
            r == (Backfill {
                total,
                stage: Stage::Priority,
                coin: 0,
                slot: 0,
                fetched: 0,
                skipped: 0,
            }),
            r.wf(),
    {
        Backfill { total, stage: Stage::Priority, coin: 0, slot: 0, fetched: 0, skipped: 0 }
    }

    /// What loading does next.
    pub fn action(&self) -> (r: BackfillAction)
        requires
            self.wf(),
        ensures
            r == self.next_action(),
    {
        match self.stage {
            Stage::Priority => match self.slot {
                0 => BackfillAction::Fetch { coin: self.coin, interval: Interval::H1 },
                1 => BackfillAction::Fetch { coin: self.coin, interval: Interval::H4 },
                2 => BackfillAction::Fetch { coin: self.coin, interval: Interval::D1 },
                _ => BackfillAction::Report { coin: self.coin },
            },
            Stage::Background => if self.coin < PRIORITY_COUNT {
                match self.slot {
                    0 => BackfillAction::Fetch { coin: self.coin, interval: Interval::M5 },
                    1 => BackfillAction::Fetch { coin: self.coin, interval: Interval::M15 },
                    2 => BackfillAction::Fetch { coin: self.coin, interval: Interval::D7 },
                    3 => BackfillAction::Fetch { coin: self.coin, interval: Interval::D30 },
                    _ => BackfillAction::Report { coin: self.coin },
                }
            } else if self.slot < Interval::all().len() {
                BackfillAction::Fetch { coin: self.coin, interval: Interval::all()[self.slot] }
            } else {
                BackfillAction::Report { coin: self.coin }
            },
            Stage::Metrics | Stage::FinalMetrics => BackfillAction::ComputeMetrics,
            Stage::Live => BackfillAction::StartLive,
            Stage::Prune => BackfillAction::Prune,
            Stage::Done => BackfillAction::Done,
        }
    }

    /// Goes on after the next action was done; `did_fetch` tells whether a load
    /// made a request. The result is how long to pause, in milliseconds.
    pub fn advance(&mut self, did_fetch: bool) -> (pause: u64)
        requires
            old(self).wf(),
        ensures
            *final(self) == old(self).after(did_fetch),
            final(self).wf(),
            pause == old(self).pause_after(did_fetch),
    {
        let stage = self.stage;
        match self.action() {
            BackfillAction::Fetch { .. } => {
                self.slot = self.slot + 1;
                if did_fetch {
                    self.fetched = self.fetched + 1;
                    if stage == Stage::Background {
                        return THROTTLE_MILLIS;
                    }
                } else {
                    self.skipped = self.skipped + 1;
                }
            },
            BackfillAction::Report { .. } => {
                let last: usize = if stage == Stage::Priority && self.total >= PRIORITY_COUNT {
                    PRIORITY_COUNT
                } else {
                    self.total
                };
                self.slot = 0;
                if self.coin + 1 < last {
                    self.coin = self.coin + 1;
                } else {
                    self.coin = 0;
                    self.stage = if stage == Stage::Priority {
                        Stage::Metrics
                    } else {
                        Stage::Prune
                    };
                }
            },
            _ => {
                self.stage = match stage {
                    Stage::Metrics => Stage::Live,
                    Stage::Live => Stage::Background,
                    Stage::Prune => Stage::FinalMetrics,
                    _ => Stage::Done,
                };
            },
        }
        0
    }

    /// What is told when a coin is through.
    pub fn progress(&self, coin_name: &str) -> (r: BackfillProgress)
        requires
            self.wf(),
        ensures
            r.coin@ == coin_name@,
            r.current == self.coin + 1,
            r.total == self.total,
            r.fetched == self.fetched,
            r.skipped == self.skipped,
            r.phase@ == phase_name(self.stage),
    {
        BackfillProgress {
            coin: coin_name.to_owned(),
            current: self.coin + 1,
            total: self.total,
            fetched: self.fetched,
            skipped: self.skipped,
            phase: match self.stage {
                Stage::Priority => "Priority",
                _ => "Background",
            },
        }
    }
}

/// The name of the part of loading that a stage belongs to.
pub open spec fn phase_name(stage: Stage) -> Seq<char> {
    match stage {
        Stage::Priority => "Priority"@,
        _ => "Background"@,
    }
}

/// The place of a timeframe among those loaded first; none for the others.
pub open spec fn priority_place(i: Interval) -> Option<int> {
    match i {
        Interval::H1 => Some(0),
        Interval::H4 => Some(1),
        Interval::D1 => Some(2),
        _ => None,
    }
}

/// The place of a timeframe among the others.
pub open spec fn other_place(i: Interval) -> int {
    match i {
        Interval::M5 => 0,
        Interval::M15 => 1,
        Interval::D7 => 2,
        _ => 3,
    }
}

/// The place of a timeframe among all.
pub open spec fn interval_place(i: Interval) -> int {
    match i {
        Interval::M5 => 0,
        Interval::M15 => 1,
        Interval::H1 => 2,
        Interval::H4 => 3,
        Interval::D1 => 4,
        Interval::D7 => 5,
        Interval::D30 => 6,
    }
}

/// The `k`-th load of a run over `total` coins: a coin in loading order and a
/// timeframe.
pub open spec fn planned_load(total: int, k: int) -> (int, Interval) {
    let p = priority_coins(total);
    if k < 3 * p {
        (k / 3, priority_intervals()[k % 3])
    } else if k < 7 * p {
        ((k - 3 * p) / 4, other_intervals()[(k - 3 * p) % 4])
    } else {
        (p + (k - 7 * p) / 7, all_intervals()[(k - 7 * p) % 7])
    }
}

/// When, in a run over `total` coins, a coin is loaded in a timeframe.
pub open spec fn load_place(total: int, coin: int, i: Interval) -> int {
    let p = priority_coins(total);
    if coin < p {
        match priority_place(i) {
            Some(j) => 3 * coin + j,
            None => 3 * p + 4 * coin + other_place(i),
        }
    } else {
        7 * p + 7 * (coin - p) + interval_place(i)
    }
}

/// Each coin is loaded in each timeframe at one place of the plan and at no other.
pub proof fn plan_holds_every_load_once(total: int, coin: int, i: Interval, k: int)
    requires
        0 <= coin < total,
        0 <= k < 7 * total,
    ensures
        0 <= load_place(total, coin, i) < 7 * total,
        planned_load(total, load_place(total, coin, i)) == (coin, i),
        planned_load(total, k) == (coin, i) ==> k == load_place(total, coin, i),
{
}

/// The plan begins with the coins that come first, in the timeframes that come
/// first, and holds these nowhere else.
pub proof fn plan_begins_with_the_first_coins(total: int, k: int)
    requires
        0 <= k < 7 * total,
    ensures
        k < 3 * priority_coins(total) <==> {
            &&& planned_load(total, k).0 < PRIORITY_COUNT
            &&& priority_intervals().contains(planned_load(total, k).1)
        },
{
    let p = priority_coins(total);
    if k < 3 * p {
        assert(priority_intervals()[k % 3] == planned_load(total, k).1);
    } else if k < 7 * p {
        let i = other_intervals()[(k - 3 * p) % 4];
        assert forall|j: int| 0 <= j < 3 implies priority_intervals()[j] != i by {}
    }
}

/// Loads are made in the order of the plan.
pub proof fn loads_follow_the_plan(b: Backfill)
    requires
        b.wf(),
    ensures
        b.next_action() matches BackfillAction::Fetch { coin, interval } ==> b.loads_done() < 7
            * b.total && planned_load(b.total as int, b.loads_done()) == (coin as int, interval),
        !(b.next_action() is Fetch) ==> b.after(true).loads_done() == b.loads_done()
            && b.after(false).loads_done() == b.loads_done(),
{
}

impl Backfill {
    /// How many actions come before the one this state stands at.
    pub open spec fn actions_done(self) -> int {
        let p = priority_coins(self.total as int);
        self.loads_done() + match self.stage {
            Stage::Priority => self.coin as int,
            Stage::Metrics => p,
            Stage::Live => p + 1,
            Stage::Background => p + 2 + self.coin,
            Stage::Prune => p + 2 + self.total,
            Stage::FinalMetrics => p + 3 + self.total,
            Stage::Done => p + 4 + self.total,
        }
    }
}

/// How many actions a run over `total` coins has: a load for each coin and
/// timeframe, a report for each coin in each of its two parts, and computing
/// metrics, going live, pruning and computing metrics again.
pub open spec fn run_length(total: int) -> int {
    7 * total + priority_coins(total) + total + 4
}

/// Each step does one action, and nothing is left exactly when all are done.
pub proof fn each_step_does_one_action(b: Backfill, did_fetch: bool)
    requires
        b.wf(),
    ensures
        0 <= b.actions_done() <= run_length(b.total as int),
        b.stage == Stage::Done <==> b.actions_done() == run_length(b.total as int),
        b.stage != Stage::Done ==> b.after(did_fetch).actions_done() == b.actions_done() + 1,
        b.stage == Stage::Done ==> b.after(did_fetch) == b,
        b.after(did_fetch).wf(),
        b.after(did_fetch).total == b.total,
{
}

/// The state after a run of steps, given of each whether it made a request.
pub open spec fn run(b: Backfill, requests: Seq<bool>) -> Backfill
    decreases requests.len(),
{
    if requests.len() == 0 {
        b
    } else {
        run(b, requests.drop_last()).after(requests.last())
    }
}

/// The loads made in a run of steps, in order.
pub open spec fn loads_made(b: Backfill, requests: Seq<bool>) -> Seq<(int, Interval)>
    decreases requests.len(),
{
    if requests.len() == 0 {
        Seq::empty()
    } else {
        let before = loads_made(b, requests.drop_last());
        match run(b, requests.drop_last()).next_action() {
            BackfillAction::Fetch { coin, interval } => before.push((coin as int, interval)),
            _ => before,
        }
    }
}

/// Whatever the exchange answers, a run comes to its end after the same number of
/// steps, having made exactly the planned loads in their order, each of which was
/// counted as fetched or as skipped.
pub proof fn loading_covers_everything_and_ends(b: Backfill, requests: Seq<bool>)
    requires
        b.wf(),
        b.stage == Stage::Priority,
        b.coin == 0,
        b.slot == 0,
    ensures
        ({
            let e = run(b, requests);
            &&& e.wf()
            &&& e.total == b.total
            &&& e.stage == Stage::Done <==> requests.len() >= run_length(b.total as int)
            &&& e.fetched + e.skipped == loads_made(b, requests).len()
            &&& loads_made(b, requests) == Seq::new(
                loads_made(b, requests).len(),
                |k: int| planned_load(b.total as int, k),
            )
            &&& e.stage == Stage::Done ==> loads_made(b, requests).len() == 7 * b.total
        }),
{
    lemma_run(b, requests);
}

proof fn lemma_run(b: Backfill, requests: Seq<bool>)
    requires
        b.wf(),
        b.stage == Stage::Priority,
        b.coin == 0,
        b.slot == 0,
    ensures
        run(b, requests).wf(),
        run(b, requests).total == b.total,
        run(b, requests).actions_done() == if requests.len() < run_length(b.total as int) {
            requests.len() as int
        } else {
            run_length(b.total as int)
        },
        run(b, requests).loads_done() == loads_made(b, requests).len(),
        loads_made(b, requests) == Seq::new(
            loads_made(b, requests).len(),
            |k: int| planned_load(b.total as int, k),
        ),
        run(b, requests).stage == Stage::Done <==> requests.len() >= run_length(b.total as int),
    decreases requests.len(),
{
    if requests.len() == 0 {
        each_step_does_one_action(b, true);
        assert(loads_made(b, requests) =~= Seq::new(
            0,
            |k: int| planned_load(b.total as int, k),
        ));
    } else {
        let before = requests.drop_last();
        lemma_run(b, before);
        let m = run(b, before);
        each_step_does_one_action(m, requests.last());
        each_step_does_one_action(m.after(requests.last()), true);
        loads_follow_the_plan(m);
        assert(loads_made(b, requests) =~= Seq::new(
            loads_made(b, requests).len(),
            |k: int| planned_load(b.total as int, k),
        ));
    }
}

/// The report that loading is through, of the last coin in the background, is the
/// only one whose count is full in that part; it comes when every load was made.
pub proof fn only_the_last_report_is_full(b: Backfill)
    requires
        b.wf(),
        b.next_action() is Report,
    ensures
        (b.stage == Stage::Background && b.coin + 1 == b.total) <==> b.loads_done() == 7 * b.total,
        b.loads_done() == 7 * b.total <==> b.after(false).stage == Stage::Prune,
{
}

/// Loading pauses only in the background, and only after a request: at most one
/// request in each pause's time.
pub proof fn background_requests_are_throttled(b: Backfill, did_fetch: bool)
    requires
        b.wf(),
    ensures
        b.pause_after(did_fetch) == THROTTLE_MILLIS <==> b.stage == Stage::Background
            && b.next_action() is Fetch && did_fetch,
        b.pause_after(did_fetch) == 0 || b.pause_after(did_fetch) == THROTTLE_MILLIS,
{
}

/// As many background requests as can each be followed by their pause within a
/// minute stay within what the exchange allows.
pub proof fn throttled_requests_stay_within_the_limit(requests: int)
    requires
        0 <= requests,
        requests * THROTTLE_MILLIS <= 60_000,
    ensures
        requests * CANDLE_REQUEST_WEIGHT <= WEIGHT_PER_MINUTE,
{
}

/// What is to be done about the candles of a coin in a timeframe.
#[derive(Clone, Copy, Debug, PartialEq, Eq)]
pub enum GapPlan {
    /// They are fresh.
    Fresh,
    /// They are asked for from the newest stored one on, where there is one.
    Fetch { since: Option<i64> },
}

/// Whether the newest candle still is the current one: it began less than its
/// timeframe ago.
pub open spec fn is_fresh(latest: int, now: int, interval: Interval) -> bool {
    now - latest < interval.seconds() * 1000
}

/// What is to be done about the candles of a timeframe, from the time of the newest
/// stored one and the time now, in milliseconds.
pub open spec fn plan_for(latest: Option<i64>, now: i64, interval: Interval) -> GapPlan {
    match latest {
        Some(t) => if is_fresh(t as int, now as int, interval) {
            GapPlan::Fresh
        } else {
            GapPlan::Fetch { since: Some(t) }
        },
        None => GapPlan::Fetch { since: None },
    }
}

/// Only the gap since the newest stored candle is asked for, and nothing where that
/// candle is still the current one; where nothing is stored, as much as is kept of
/// the timeframe, unless it is kept for good.
pub proof fn only_the_gap_is_asked_for(latest: Option<i64>, now: i64, interval: Interval)
    ensures
        plan_for(latest, now, interval) is Fresh <==> (latest matches Some(t) && is_fresh(
            t as int,
            now as int,
            interval,
        )),
        plan_for(latest, now, interval) matches GapPlan::Fetch { since } ==> {
            let start = window_start(now, since, interval, interval.candle_limit());
            &&& latest matches Some(t) ==> start == t && now - start >= interval.seconds() * 1000
            &&& latest is None ==> (interval.kept_for() matches Some(s) ==> now - start == s * 1000)
        },
{
    crate::feeds::types::kept_candles_are_those_read(interval);
    let (s, n) = (interval.seconds(), interval.candle_limit());
    assert(s * n * 1000 == n * s * 1000) by (nonlinear_arith);
}

/// Decides from the time of the newest stored candle and the time now, in
/// milliseconds, what is to be done about the candles of a timeframe.
pub fn gap_plan(latest: Option<i64>, now: i64, interval: Interval) -> (r: GapPlan)
    ensures
        r == plan_for(latest, now, interval),
        r is Fresh <==> (latest matches Some(t) && now - t < interval.seconds() * 1000),
        latest matches Some(t) ==> (now - t >= interval.seconds() * 1000 ==> r == (GapPlan::Fetch {
            since: Some(t),
        })),
        latest is None ==> r == (GapPlan::Fetch { since: None }),
{
    match latest {
        Some(t) => {
            let gap: i128 = now as i128 - t as i128;
            if gap < interval.duration_secs() as i128 * 1000 {
                GapPlan::Fresh
            } else {
                GapPlan::Fetch { since: Some(t) }
            }
        },
        None => GapPlan::Fetch { since: None },
    }
}

/// A candle under another name.
pub open spec fn renamed(c: CandleModel, name: Seq<char>) -> CandleModel {
    CandleModel { coin: name, ..c }
}

/// The candles of a reply under the name that their coin is stored and shown by;
/// none where there are no candles or the request failed. What there is goes both
/// to the database and to the screen.
pub fn loaded_candles(reply: Result<Vec<Candle>, String>, name: &str) -> (r: Option<Vec<Candle>>)
    ensures
        match reply {
            Ok(candles) => if candles@.len() == 0 {
                r is None
            } else {
                r matches Some(out) && candle_models(out@) == candle_models(candles@).map_values(
                    |c: CandleModel| renamed(c, name@),
                )
            },
            Err(_) => r is None,
        },
{
    match reply {
        Ok(candles) => {
            if candles.is_empty() {
                return None;
            }
            let mut out: Vec<Candle> = Vec::new();
            let mut k: usize = 0;
            while k < candles.len()
                invariant
                    k <= candles@.len(),
                    out@.len() == k,
                    forall|j: int|
                        0 <= j < k ==> (#[trigger] out@[j])@ == renamed(candles@[j]@, name@),
                decreases candles@.len() - k,
            {
                let mut c = candles[k].clone();
                c.coin = name.to_owned();
                out.push(c);
                k = k + 1;
            }
            assert(candle_models(out@) =~= candle_models(candles@).map_values(
                |c: CandleModel| renamed(c, name@),
            ));
            Some(out)
        },
        Err(_) => None,
    }
}

/// The candle that a message to the screen has to be stored for, if any: live
/// candles are stored as they pass.
pub fn candle_to_store(msg: &FeedMessage) -> (r: Option<Candle>)
    ensures
        match msg {
            FeedMessage::LiveCandle(c) => r == Some(*c),
            _ => r is None,
        },
{
    match msg {
        FeedMessage::LiveCandle(c) => Some(c.clone()),
        _ => None,
    }
}

/// What is told, in a backfill of everything at once, before the coin at a place
/// of the list is loaded.
pub fn full_backfill_progress(coins: &[CoinInfo], place: usize) -> (r: BackfillProgress)
    requires
        place < coins@.len(),
    ensures
        r.coin@ == coins@[place as int].name@,
        r.current == place + 1,
        r.total == coins@.len(),
        r.fetched == 0,
        r.skipped == 0,
        r.phase@ == "Backfill"@,
{
    BackfillProgress {
        coin: coins[place].name.clone(),
        current: place + 1,
        total: coins.len(),
        fetched: 0,
        skipped: 0,
        phase: "Backfill",
    }
}

/// How many hourly candles the state of BTC is computed from: a week of them.
pub const BTC_STATE_CANDLES: usize = 168;

/// A question to the database: the newest candles of a coin in a timeframe, no more
/// than a number of them.
#[derive(Debug)]
pub struct CandleQuery {
    pub coin: String,
    pub interval: Interval,
    pub limit: usize,
}

/// The candles that the state of BTC is computed from.
pub fn btc_state_query() -> (r: CandleQuery)
    ensures
        r.coin@ == "BTC"@,
        r.interval == Interval::H1,
        r.limit == BTC_STATE_CANDLES,
{
    CandleQuery { coin: "BTC".to_owned(), interval: Interval::H1, limit: BTC_STATE_CANDLES }
}

/// The candles that the metrics of a coin in a timeframe are computed from.
pub fn metrics_query(coin: &str, interval: Interval) -> (r: CandleQuery)
    ensures
        r.coin@ == coin@,
        r.interval == interval,
        r.limit == interval.candle_limit(),
{
    CandleQuery { coin: coin.to_owned(), interval, limit: interval.max_candles() }
}

/// The candle that the price of a coin is taken from.
pub fn price_query(coin: &str) -> (r: CandleQuery)
    ensures
        r.coin@ == coin@,
        r.interval == Interval::M5,
        r.limit == 1,
{
    CandleQuery { coin: coin.to_owned(), interval: Interval::M5, limit: 1 }
}

/// What is told once metrics are computed: the state of BTC, the rows, and the size of
/// the database file.
pub fn metrics_messages(state: BtcState, rows: Vec<CoinMetrics>, size: u64) -> (r: Vec<FeedMessage>)
    ensures
        r@ == seq![
            FeedMessage::BtcStateUpdate(state),
            FeedMessage::MetricsUpdate(rows),
            FeedMessage::DbSize(size),
        ],
{
    let r = vec![
        FeedMessage::BtcStateUpdate(state),
        FeedMessage::MetricsUpdate(rows),
        FeedMessage::DbSize(size),
    ];
    assert(r@ =~= seq![
        FeedMessage::BtcStateUpdate(state),
        FeedMessage::MetricsUpdate(rows),
        FeedMessage::DbSize(size),
    ]);
    r
}

/// What is told of coins whose metrics were computed: the state of BTC, then one row
/// for each coin in order, then the size of the database file.
pub fn metrics_report(
    state: BtcState,
    coins: &[CoinInfo],
    stats: &Vec<Vec<Option<IntervalStats>>>,
    latest_m5: &Vec<Vec<Candle>>,
    size: u64,
) -> (r: Vec<FeedMessage>)
    requires
        stats@.len() == coins@.len(),
        latest_m5@.len() == coins@.len(),
        forall|k: int|
            0 <= k < stats@.len() ==> (#[trigger] stats@[k])@.len() == all_intervals().len(),
    ensures
        r@.len() == 3,
        r@[0] == FeedMessage::BtcStateUpdate(state),
        r@[1] matches FeedMessage::MetricsUpdate(rows) && are_rows_of(
            rows@,
            coins@,
            stats@,
            latest_m5@,
        ),
        r@[2] == FeedMessage::DbSize(size),
{
    metrics_messages(state, AnalysisEngine::metric_rows(coins, stats, latest_m5), size)
}

/// Where loading everything at once stands: at which coin, and at its report or, from
/// one on, at which of its timeframes.
#[derive(Clone, Copy, Debug)]
pub struct FullBackfill {
    pub total: usize,
    pub coin: usize,
    pub slot: usize,
}

/// What loading everything at once does next.
#[derive(Clone, Copy, Debug)]
pub enum FullAction {
    /// Tell that a coin is being loaded.
    Report { coin: usize },
    /// Load the candles of a coin in a timeframe.
    Fetch { coin: usize, interval: Interval },
    /// Nothing is left.
    Done,
}

impl FullBackfill {
    /// Whether the state is one that loading can be in.
    pub open spec fn wf(self) -> bool {
        if self.coin < self.total {
            self.slot <= 7
        } else {
            self.coin == self.total && self.slot == 0
        }
    }

    /// How many actions come before the next.
    pub open spec fn place(self) -> int {
        8 * self.coin + self.slot
    }

    /// What loading does next.
    pub open spec fn next_action(self) -> FullAction {
        if self.coin >= self.total {
            FullAction::Done
        } else if self.slot == 0 {
            FullAction::Report { coin: self.coin }
        } else {
            FullAction::Fetch { coin: self.coin, interval: all_intervals()[self.slot - 1] }
        }
    }

    /// The state after the next action, whatever was answered.
    pub open spec fn after(self) -> FullBackfill {
        if self.coin >= self.total {
            self
        } else if self.slot < 7 {
            FullBackfill { slot: (self.slot + 1) as usize, ..self }
        } else {
            FullBackfill { coin: (self.coin + 1) as usize, slot: 0, ..self }
        }
    }

    /// The state in which loading begins.
    pub fn new(total: usize) -> (r: FullBackfill)
        ensures
            r == (FullBackfill { total, coin: 0, slot: 0 }),
            r.wf(),
    {
        FullBackfill { total, coin: 0, slot: 0 }
    }

    /// What loading does next.
    pub fn action(&self) -> (r: FullAction)
        requires
            self.wf(),
        ensures
            r == self.next_action(),
    {
        if self.coin >= self.total {
            FullAction::Done
        } else if self.slot == 0 {
            FullAction::Report { coin: self.coin }
        } else {
            FullAction::Fetch { coin: self.coin, interval: Interval::all()[self.slot - 1] }
        }
    }

    /// Goes on after the next action was done.
    pub fn advance(&mut self)
        requires
            old(self).wf(),
        ensures
            *final(self) == old(self).after(),
            final(self).wf(),
    {
        if self.coin < self.total {
            if self.slot < 7 {
                self.slot = self.slot + 1;
            } else {
                self.coin = self.coin + 1;
                self.slot = 0;
            }
        }
    }

    /// What is told at the next action: of a report how far loading is, and of a load
    /// the candles that were answered, where there are any.
    pub fn message(&self, coins: &[CoinInfo], reply: Result<Vec<Candle>, String>) -> (r: Option<
        FeedMessage,
    >)
        requires
            self.wf(),
            self.total == coins@.len(),
        ensures
            match told_at(self.next_action(), coins@, reply) {
                Some(t) => r matches Some(msg) && told_by(msg) == Some(t),
                None => r is None,
            },
    {
        match self.action() {
            FullAction::Report { coin } => Some(
                FeedMessage::Progress(full_backfill_progress(coins, coin)),
            ),
            FullAction::Fetch { .. } => match reply {
                Ok(candles) => if candles.is_empty() {
                    None
                } else {
                    Some(FeedMessage::CandleBatch(candles))
                },
                Err(_) => None,
            },
            FullAction::Done => None,
        }
    }
}

/// What loading everything at once tells.
#[verifier::ext_equal]
pub enum Told {
    Progress {
        coin: Seq<char>,
        current: int,
        total: int,
        fetched: int,
        skipped: int,
        phase: Seq<char>,
    },
    Batch(Vec<Candle>),
}

/// What a message tells of loading.
pub open spec fn told_by(msg: FeedMessage) -> Option<Told> {
    match msg {
        FeedMessage::Progress(p) => Some(
            Told::Progress {
                coin: p.coin@,
                current: p.current as int,
                total: p.total as int,
                fetched: p.fetched as int,
                skipped: p.skipped as int,
                phase: p.phase@,
            },
        ),
        FeedMessage::CandleBatch(candles) => Some(Told::Batch(candles)),
        _ => None,
    }
}

/// What is told at an action, given what a load was answered: the report of a coin, or
/// the candles of the answer, where there are any.
pub open spec fn told_at(
    action: FullAction,
    coins: Seq<CoinInfo>,
    reply: Result<Vec<Candle>, String>,
) -> Option<Told> {
    match action {
        FullAction::Report { coin } => Some(
            Told::Progress {
                coin: coins[coin as int].name@,
                current: coin + 1,
                total: coins.len() as int,
                fetched: 0,
                skipped: 0,
                phase: "Backfill"@,
            },
        ),
        FullAction::Fetch { .. } => match reply {
            Ok(candles) => if candles@.len() > 0 {
                Some(Told::Batch(candles))
            } else {
                None
            },
            Err(_) => None,
        },
        FullAction::Done => None,
    }
}

/// The `k`-th action of loading everything at once: coin by coin, first its report and
/// then its timeframes in order.
pub open spec fn full_plan(total: nat, k: int) -> FullAction {
    if k >= 8 * total {
        FullAction::Done
    } else if k % 8 == 0 {
        FullAction::Report { coin: (k / 8) as usize }
    } else {
        FullAction::Fetch { coin: (k / 8) as usize, interval: all_intervals()[k % 8 - 1] }
    }
}

/// When, in loading everything at once, a coin is loaded in a timeframe.
pub open spec fn full_place(coin: int, i: Interval) -> int {
    8 * coin + 1 + interval_place(i)
}

/// The state after a number of steps.
pub open spec fn full_run(b: FullBackfill, steps: nat) -> FullBackfill
    decreases steps,
{
    if steps == 0 {
        b
    } else {
        full_run(b, (steps - 1) as nat).after()
    }
}

/// What is told in a run, given what each step was answered.
pub open spec fn full_told(
    b: FullBackfill,
    coins: Seq<CoinInfo>,
    replies: Seq<Result<Vec<Candle>, String>>,
) -> Seq<Told>
    decreases replies.len(),
{
    if replies.len() == 0 {
        Seq::empty()
    } else {
        let n = (replies.len() - 1) as nat;
        let before = full_told(b, coins, replies.drop_last());
        match told_at(full_run(b, n).next_action(), coins, replies.last()) {
            Some(t) => before.push(t),
            None => before,
        }
    }
}

/// What the plan tells in its first steps, given what each was answered.
pub open spec fn planned_told(
    coins: Seq<CoinInfo>,
    replies: Seq<Result<Vec<Candle>, String>>,
    steps: int,
) -> Seq<Told>
    decreases steps,
{
    if steps <= 0 {
        Seq::empty()
    } else {
        let before = planned_told(coins, replies, steps - 1);
        match told_at(full_plan(coins.len(), steps - 1), coins, replies[steps - 1]) {
            Some(t) => before.push(t),
            None => before,
        }
    }
}

/// Loading everything at once follows its plan and ends after eight steps for each
/// coin, whatever is answered: no answer stops it. What it tells is what the plan
/// tells, in order.
pub proof fn full_backfill_follows_its_plan(
    b: FullBackfill,
    coins: Seq<CoinInfo>,
    replies: Seq<Result<Vec<Candle>, String>>,
)
    requires
        b.total == coins.len(),
        b.coin == 0,
        b.slot == 0,
    ensures
        full_run(b, replies.len()).wf(),
        full_run(b, replies.len()).next_action() == full_plan(coins.len(), replies.len() as int),
        full_run(b, replies.len()).next_action() is Done <==> replies.len() >= 8 * coins.len(),
        full_told(b, coins, replies) == planned_told(coins, replies, replies.len() as int),
    decreases replies.len(),
{
    let n = replies.len();
    lemma_full_run(b, n);
    if n > 0 {
        full_backfill_follows_its_plan(b, coins, replies.drop_last());
        lemma_planned_prefix(coins, replies, n - 1);
    }
}

proof fn lemma_full_run(b: FullBackfill, steps: nat)
    requires
        b.coin == 0,
        b.slot == 0,
    ensures
        full_run(b, steps).wf(),
        full_run(b, steps).total == b.total,
        full_run(b, steps).place() == if steps < 8 * b.total {
            steps as int
        } else {
            8 * b.total
        },
        full_run(b, steps).next_action() == full_plan(b.total as nat, steps as int),
    decreases steps,
{
    if steps > 0 {
        lemma_full_run(b, (steps - 1) as nat);
    }
}

proof fn lemma_planned_prefix(
    coins: Seq<CoinInfo>,
    replies: Seq<Result<Vec<Candle>, String>>,
    steps: int,
)
    requires
        steps < replies.len(),
    ensures
        planned_told(coins, replies.drop_last(), steps) == planned_told(coins, replies, steps),
    decreases steps,
{
    if steps > 0 {
        lemma_planned_prefix(coins, replies, steps - 1);
    }
}

/// The plan holds the report of each coin and each of its loads once: the report
/// before the loads, these in the order of the timeframes, and all of them before
/// those of the next coin.
pub proof fn full_plan_holds_every_load_once(total: usize, coin: usize, i: Interval, k: int)
    requires
        coin < total,
        0 <= k < 8 * total,
    ensures
        8 * coin < full_place(coin as int, i) < 8 * (coin + 1) <= 8 * total,
        full_plan(total as nat, 8 * coin) == (FullAction::Report { coin }),
        full_plan(total as nat, full_place(coin as int, i)) == (FullAction::Fetch {
            coin,
            interval: i,
        }),
        full_plan(total as nat, k) == (FullAction::Report { coin }) ==> k == 8 * coin,
        full_plan(total as nat, k) == (FullAction::Fetch { coin, interval: i }) ==> k
            == full_place(coin as int, i),
{
}

/// A stored candle that began less than its timeframe ago is fresh and nothing is asked
/// for; one that is as old as its timeframe or older always leads to a request from it
/// on; and where nothing is stored everything is asked for.
pub proof fn candles_are_fetched_once_they_are_a_timeframe_old(
    latest: Option<i64>,
    now: i64,
    interval: Interval,
)
    ensures
        latest is None ==> plan_for(latest, now, interval) == (GapPlan::Fetch { since: None }),
        latest matches Some(t) ==> {
            &&& now - t < interval.seconds() * 1000 <==> plan_for(latest, now, interval) is Fresh
            &&& now - t >= interval.seconds() * 1000 ==> plan_for(latest, now, interval) == (
            GapPlan::Fetch { since: Some(t) })
        },
{
}

/// The order of loading in terms of names and volumes: nothing but BTC stands before
/// BTC, of two other coins the one with more volume stands first, and coins that tie
/// keep their order in the list.
pub proof fn coins_load_by_name_and_volume(coins: Seq<CoinInfo>, s: Seq<usize>, p: int, q: int)
    requires
        lists_rows(s, coins.len()),
        loading_order(coins, s),
        0 <= p < q < s.len(),
    ensures
        ({
            let (a, b) = (coins[s[p] as int], coins[s[q] as int]);
            &&& b.name@ == "BTC"@ ==> a.name@ == "BTC"@
            &&& a.name@ == "BTC"@ && b.name@ == "BTC"@ ==> s[p] < s[q]
            &&& a.name@ != "BTC"@ && b.name@ != "BTC"@ && !a.volume_24h.nan()
                && !b.volume_24h.nan() ==> b.volume_24h.le(a.volume_24h) && (a.volume_24h.le(
                b.volume_24h,
            ) ==> s[p] < s[q])
        }),
{
    assert(!loads_before(coins[s[q] as int], coins[s[p] as int]));
}

/// Coins load in order wherever the volume of each coin but BTC is a number.
pub proof fn volumes_of_other_coins_decide(coins: Seq<CoinInfo>)
    ensures
        volumes_are_numbers(coins) <==> forall|i: int|
            0 <= i < coins.len() && (#[trigger] coins[i]).name@ != "BTC"@
                ==> !coins[i].volume_24h.nan(),
{
    if volumes_are_numbers(coins) {
        assert forall|i: int| 0 <= i < coins.len() && (#[trigger] coins[i]).name@ != "BTC"@ implies
            !coins[i].volume_24h.nan() by {
            assert(!is_btc(coins[i]));
        }
    }
}

/// The plan goes through the first twenty-one coins in the timeframes of one hour, four
/// hours and a day, and then through everything else; in each part coin by coin, and of
/// each coin from the shortest timeframe to the longest.
pub proof fn plan_goes_coin_by_coin(total: int, j: int, k: int)
    requires
        0 <= j < k < 7 * total,
    ensures
        ({
            let (a, b) = (planned_load(total, j), planned_load(total, k));
            let first = |x: (int, Interval)|
                x.0 < 21 && (x.1 == Interval::H1 || x.1 == Interval::H4 || x.1 == Interval::D1);
            &&& 0 <= a.0 < total
            &&& first(b) ==> first(a)
            &&& first(a) == first(b) ==> a.0 < b.0 || (a.0 == b.0 && a.1.seconds() < b.1.seconds())
        }),
{
}

/// A load that made a request counts as fetched and one that made none as skipped;
/// nothing else counts. Stages follow each other, and none comes twice.
pub proof fn steps_count_and_go_on(b: Backfill, did_fetch: bool)
    requires
        b.wf(),
    ensures
        ({
            let a = b.after(did_fetch);
            &&& b.next_action() is Fetch && did_fetch ==> a.fetched == b.fetched + 1 && a.skipped
                == b.skipped
            &&& b.next_action() is Fetch && !did_fetch ==> a.fetched == b.fetched && a.skipped
                == b.skipped + 1
            &&& !(b.next_action() is Fetch) ==> a.fetched == b.fetched && a.skipped == b.skipped
            &&& b.stage == Stage::Priority ==> a.stage == Stage::Priority || a.stage
                == Stage::Metrics
            &&& b.stage == Stage::Metrics ==> b.next_action() is ComputeMetrics && a.stage
                == Stage::Live
            &&& b.stage == Stage::Live ==> b.next_action() is StartLive && a.stage
                == Stage::Background
            &&& b.stage == Stage::Background ==> a.stage == Stage::Background || a.stage
                == Stage::Prune
            &&& b.stage == Stage::Prune ==> b.next_action() is Prune && a.stage
                == Stage::FinalMetrics
            &&& b.stage == Stage::FinalMetrics ==> b.next_action() is ComputeMetrics && a.stage
                == Stage::Done
            &&& b.stage == Stage::Done ==> b.next_action() is Done
        }),
        b.next_action() matches BackfillAction::Report { coin } ==> coin == b.coin,
        phase_name(Stage::Priority) == "Priority"@,
        phase_name(Stage::Background) == "Background"@,
        b.stage == Stage::Background && b.next_action() is Fetch && did_fetch ==> b.pause_after(
            did_fetch,
        ) == 1400,
        b.stage != Stage::Background || !(b.next_action() is Fetch) || !did_fetch
            ==> b.pause_after(did_fetch) == 0,
{
}

/// A coin is reported after its last load and before the next coin's first: at a report
/// in the first part three loads of each coin so far are done, and in the background all
/// of every coin so far.
pub proof fn reports_come_after_their_loads(b: Backfill)
    requires
        b.wf(),
        b.next_action() is Report,
    ensures
        b.stage == Stage::Priority ==> b.loads_done() == 3 * (b.coin + 1),
        b.stage == Stage::Background && b.coin >= 21 ==> b.loads_done() == 7 * (b.coin + 1),
        b.stage == Stage::Background && b.coin < 21 && b.total >= 21 ==> b.loads_done() == 3 * 21
            + 4 * (b.coin + 1),
        b.stage == Stage::Background && b.total < 21 ==> b.loads_done() == 3 * b.total + 4 * (b.coin
            + 1),
{
}

/// From a coin list its coins are stored, then told, then used; without coins, or where
/// it could not be fetched, only an error is told.
pub proof fn list_steps_are_store_tell_use(
    steps: Seq<ListStep>,
    reply: Result<Vec<CoinInfo>, String>,
)
    requires
        are_list_steps(steps, reply),
    ensures
        reply matches Ok(coins) ==> (coins@.len() > 0 ==> steps.len() == 3 && (
        steps[0] matches ListStep::Store(c) && c@ == coins@) && (
        steps[1] matches ListStep::Tell(FeedMessage::CoinList(c)) && c@ == coins@) && (
        steps[2] matches ListStep::Use(c) && c@ == coins@)),
        reply matches Ok(coins) ==> (coins@.len() == 0 ==> steps.len() == 1 && (
        steps[0] matches ListStep::Tell(FeedMessage::Error(s)) && s@
            == "No coins found on Hyperliquid"@)),
        reply matches Err(e) ==> steps.len() == 1 && (
        steps[0] matches ListStep::Tell(FeedMessage::Error(s)) && s@ == "Failed to fetch coins: "@
            + e@),
{
}

/// Renaming a candle changes its name and nothing else.
pub proof fn renaming_changes_the_name_alone(c: CandleModel, name: Seq<char>)
    ensures
        renamed(c, name).coin == name,
        renamed(c, name).open == c.open,
        renamed(c, name).high == c.high,
        renamed(c, name).low == c.low,
        renamed(c, name).close == c.close,
        renamed(c, name).volume == c.volume,
        renamed(c, name).timestamp == c.timestamp,
        renamed(c, name).interval == c.interval,
{
}

/// In loading everything at once, a report tells the coin's name and its place, and a
/// load the very candles that were answered, where there are any; timeframes come from
/// the shortest to the longest.
pub proof fn full_backfill_tells_coins_and_candles(
    coins: Seq<CoinInfo>,
    coin: usize,
    i: Interval,
    j: Interval,
    reply: Result<Vec<Candle>, String>,
    p: BackfillProgress,
)
    requires
        coin < coins.len(),
    ensures
        told_at(FullAction::Report { coin }, coins, reply) == told_by(FeedMessage::Progress(p))
            <==> p.coin@ == coins[coin as int].name@ && p.current == coin + 1 && p.total
            == coins.len() && p.fetched == 0 && p.skipped == 0 && p.phase@ == "Backfill"@,
        reply matches Ok(candles) ==> (candles@.len() > 0 ==> told_at(
            FullAction::Fetch { coin, interval: i },
            coins,
            reply,
        ) == told_by(FeedMessage::CandleBatch(candles)) && told_by(
            FeedMessage::CandleBatch(candles),
        ) == Some(Told::Batch(candles))),
        reply matches Ok(candles) ==> (candles@.len() == 0 ==> told_at(
            FullAction::Fetch { coin, interval: i },
            coins,
            reply,
        ) is None),
        reply is Err ==> told_at(FullAction::Fetch { coin, interval: i }, coins, reply) is None,
        i.seconds() < j.seconds() ==> full_place(coin as int, i) < full_place(coin as int, j),
{
}

} // verus!
