//! The table of coins: which rows are shown, in what order, and its columns.

use crate::analysis::engine::{CoinMetrics, MetricsModel};
use crate::double::Double;
use crate::feeds::requests::trade_url;
use crate::feeds::types::{Interval, PerInterval, all_intervals};
use crate::order::{RowOrder, is_ranking, lists_rows, place_of_row, stable_order};
use crate::text::{contains_text, is_text_before, occurs_in, text_before, text_order_is_a_ranking,
    texts};
use crate::ui::app::metric_models;
use crate::ui::format::{Rgb, change_color, color_of_change, color_of_volatility, volatility_color};
use vstd::prelude::*;
use vstd::string::*;

verus! {

/// A column that rows can be sorted by.
#[derive(Clone, Copy, Debug, PartialEq, Eq, Structural)]
pub enum SortColumn {
    Coin,
    Price,
    Change24h,
    Volume,
    OpenInterest,
    FundingRate,
    Volatility(Interval),
    VsBtc(Interval),
    Beta,
}

/// Which markets are shown.
#[derive(Clone, Copy, Debug, PartialEq, Eq, Structural)]
pub enum MarketFilter {
    All,
    Perps,
    Spot,
}

/// Averages of a coin over its timeframes: zero where it has none.
#[derive(Clone, Copy, Debug)]
pub struct RowAverages {
    pub volatility: Double,
    pub beta: Double,
}

/// The number of a timeframe; zero where there is none.
pub open spec fn number_or_zero(p: PerInterval, i: Interval) -> Double {
    match p.of(i) {
        Some(x) => x,
        None => Double::zero(),
    }
}

/// The number by which a column sorts a row; zero for the column of names.
pub open spec fn column_number(m: MetricsModel, avg: RowAverages, col: SortColumn) -> Double {
    match col {
        SortColumn::Coin => Double::zero(),
        SortColumn::Price => m.price,
        SortColumn::Change24h => m.change_24h_pct,
        SortColumn::Volume => m.volume_24h,
        SortColumn::OpenInterest => m.open_interest,
        SortColumn::FundingRate => m.funding_rate,
        SortColumn::Volatility(i) => number_or_zero(m.volatility, i),
        SortColumn::VsBtc(i) => number_or_zero(m.vs_btc, i),
        SortColumn::Beta => avg.beta,
    }
}

/// What a row is sorted by: its name and the number in the column.
pub struct KeyModel {
    pub name: Seq<char>,
    pub number: Double,
}

/// What a row is sorted by.
pub open spec fn key_of(m: MetricsModel, avg: RowAverages, col: SortColumn) -> KeyModel {
    KeyModel { name: m.coin, number: column_number(m, avg, col) }
}

/// Whether a row is smaller than another: by name in the column of names, and by
/// the number in every other.
pub open spec fn is_smaller(col: SortColumn, a: KeyModel, b: KeyModel) -> bool {
    if col == SortColumn::Coin {
        text_before(a.name, b.name)
    } else {
        a.number.lt(b.number)
    }
}

/// Whether a row has to stand before another: the smaller one where the order is
/// ascending, and the larger one where it is not.
pub open spec fn stands_before(col: SortColumn, ascending: bool, a: KeyModel, b: KeyModel) -> bool {
    if ascending {
        is_smaller(col, a, b)
    } else {
        is_smaller(col, b, a)
    }
}

/// A choice of rows.
pub struct Choice {
    pub search_query: Seq<char>,
    pub min_volume: Double,
    pub min_volatility: Double,
}

/// Whether a row is shown: its name holds what is searched for, both in lower
/// case, its volume is no less than the least asked for, and neither is its average
/// volatility where one is asked for.
pub open spec fn is_shown(
    m: MetricsModel,
    avg: RowAverages,
    lowered_name: Seq<char>,
    choice: Choice,
    lowered_query: Seq<char>,
) -> bool {
    &&& choice.search_query.len() == 0 || occurs_in(lowered_query, lowered_name)
    &&& choice.min_volume.le(m.volume_24h)
    &&& choice.min_volatility.le(Double::zero()) || choice.min_volatility.le(avg.volatility)
}

/// Which rows are shown.
pub open spec fn shown_rows(
    rows: Seq<MetricsModel>,
    averages: Seq<RowAverages>,
    lowered: Seq<Seq<char>>,
    choice: Choice,
    lowered_query: Seq<char>,
) -> Seq<bool> {
    Seq::new(
        rows.len(),
        |i: int| is_shown(rows[i], averages[i], lowered[i], choice, lowered_query),
    )
}

/// Whether `s` lists the rows that are shown, each once.
pub open spec fn lists_shown(s: Seq<usize>, shown: Seq<bool>) -> bool {
    &&& forall|p: int| 0 <= p < s.len() ==> (#[trigger] s[p]) < shown.len() && shown[s[p] as int]
    &&& forall|p: int, q: int| 0 <= p < q < s.len() ==> s[p] != s[q]
    &&& forall|i: int|
        0 <= i < shown.len() && #[trigger] shown[i] ==> exists|p: int|
            0 <= p < s.len() && #[trigger] s[p] == i
}

/// Whether every row that is shown has a number, and not a NaN, in the column.
pub open spec fn column_is_numeric(
    rows: Seq<MetricsModel>,
    averages: Seq<RowAverages>,
    shown: Seq<bool>,
    col: SortColumn,
) -> bool {
    forall|i: int|
        0 <= i < rows.len() && #[trigger] shown[i] ==> !column_number(rows[i], averages[i], col).nan()
}

/// Whether the rows listed stand in order: of any two, the later one does not have
/// to stand before the earlier one, and rows of which neither has to keep the order
/// in which they became known.
pub open spec fn is_sorted(
    rows: Seq<MetricsModel>,
    averages: Seq<RowAverages>,
    col: SortColumn,
    ascending: bool,
    s: Seq<usize>,
) -> bool {
    forall|p: int, q: int|
        0 <= p < q < s.len() ==> {
            let a = key_of(rows[(#[trigger] s[p]) as int], averages[s[p] as int], col);
            let b = key_of(rows[(#[trigger] s[q]) as int], averages[s[q] as int], col);
            &&& !stands_before(col, ascending, b, a)
            &&& !stands_before(col, ascending, a, b) ==> s[p] < s[q]
        }
}

struct Keys {
    keys: Vec<(String, Double)>,
    col: SortColumn,
    ascending: bool,
}

impl Keys {
    spec fn key(&self, i: int) -> KeyModel {
        KeyModel { name: self.keys@[i].0@, number: self.keys@[i].1 }
    }
}

impl RowOrder for Keys {
    closed spec fn rows(&self) -> nat {
        self.keys@.len()
    }

    closed spec fn before(&self, i: int, j: int) -> bool {
        stands_before(self.col, self.ascending, self.key(i), self.key(j))
    }

    fn count(&self) -> usize {
        self.keys.len()
    }

    fn is_before(&self, i: usize, j: usize) -> bool {
        let (a, b): (usize, usize) = if self.ascending {
            (i, j)
        } else {
            (j, i)
        };
        match self.col {
            SortColumn::Coin => is_text_before(self.keys[a].0.as_str(), self.keys[b].0.as_str()),
            _ => self.keys[a].1.is_less(self.keys[b].1),
        }
    }
}

fn or_zero(x: Option<Double>) -> (r: Double)
    ensures
        r == match x {
            Some(y) => y,
            None => Double::zero(),
        },
{
    match x {
        Some(y) => y,
        None => Double::zero(),
    }
}

/// The number by which a column sorts a row.
fn number_in(m: &CoinMetrics, avg: &RowAverages, col: SortColumn) -> (r: Double)
    ensures
        r == column_number(m@, *avg, col),
{
    match col {
        SortColumn::Coin => Double::zero(),
        SortColumn::Price => m.price,
        SortColumn::Change24h => m.change_24h_pct,
        SortColumn::Volume => m.volume_24h,
        SortColumn::OpenInterest => m.open_interest,
        SortColumn::FundingRate => m.funding_rate,
        SortColumn::Volatility(i) => or_zero(m.volatility.get(i)),
        SortColumn::VsBtc(i) => or_zero(m.vs_btc.get(i)),
        SortColumn::Beta => avg.beta,
    }
}

/// What the user asks of the rows that are shown.
#[derive(Debug)]
pub struct RowChoice {
    pub search_query: String,
    pub min_volume: Double,
    pub min_volatility: Double,
}

impl View for RowChoice {
    type V = Choice;

    open spec fn view(&self) -> Choice {
        Choice {
            search_query: self.search_query@,
            min_volume: self.min_volume,
            min_volatility: self.min_volatility,
        }
    }
}

/// Whether a row is shown, given its name and the search text in lower case.
pub fn passes(
    m: &CoinMetrics,
    avg: &RowAverages,
    lowered_name: &str,
    choice: &RowChoice,
    lowered_query: &str,
) -> (r: bool)
    ensures
        r == is_shown(m@, *avg, lowered_name@, choice@, lowered_query@),
{
    (choice.search_query.as_str().is_empty() || contains_text(lowered_name, lowered_query))
        && m.volume_24h.is_at_least(choice.min_volume) && (Double::zero().is_at_least(
        choice.min_volatility,
    ) || avg.volatility.is_at_least(choice.min_volatility))
}

/// The rows that are shown, in order, as places in the list of rows; given the names
/// and the search text in lower case.
pub fn sorted_rows(
    rows: &Vec<CoinMetrics>,
    averages: &[RowAverages],
    lowered: &Vec<String>,
    choice: &RowChoice,
    lowered_query: &str,
    col: SortColumn,
    ascending: bool,
) -> (r: Vec<usize>)
    requires
        averages@.len() == rows@.len(),
        lowered@.len() == rows@.len(),
    ensures
        ({
            let models = metric_models(rows@);
            let shown = shown_rows(models, averages@, texts(lowered@), choice@, lowered_query@);
            &&& lists_shown(r@, shown)
            &&& column_is_numeric(models, averages@, shown, col) ==> is_sorted(
                models,
                averages@,
                col,
                ascending,
                r@,
            )
        }),
{
    let ghost models = metric_models(rows@);
    let ghost shown = shown_rows(models, averages@, texts(lowered@), choice@, lowered_query@);
    let n: usize = rows.len();
    let mut kept: Vec<usize> = Vec::new();
    let mut keys: Vec<(String, Double)> = Vec::new();
    let mut i: usize = 0;
    while i < n
        invariant
            i <= n,
            n == rows@.len(),
            averages@.len() == n,
            lowered@.len() == n,
            models == metric_models(rows@),
            shown == shown_rows(models, averages@, texts(lowered@), choice@, lowered_query@),
            keys@.len() == kept@.len(),
            forall|k: int|
                0 <= k < kept@.len() ==> {
                    let m = #[trigger] kept@[k];
                    &&& m < i
                    &&& shown[m as int]
                    &&& keys@[k].0@ == models[m as int].coin
                    &&& keys@[k].1 == column_number(models[m as int], averages@[m as int], col)
                },
            forall|k: int, l: int| 0 <= k < l < kept@.len() ==> kept@[k] < kept@[l],
            forall|j: int|
                0 <= j < i && #[trigger] shown[j] ==> exists|k: int|
                    0 <= k < kept@.len() && #[trigger] kept@[k] == j,
        decreases n - i,
    {
        let m = &rows[i];
        let ghost before = kept@;
        if passes(m, &averages[i], lowered[i].as_str(), choice, lowered_query) {
            kept.push(i);
            keys.push((m.coin.clone(), number_in(m, &averages[i], col)));
            assert(kept@[before.len() as int] == i);
        }
        assert(models[i as int] == m@);
        assert forall|j: int| 0 <= j < i + 1 && #[trigger] shown[j] implies exists|k: int|
            0 <= k < kept@.len() && #[trigger] kept@[k] == j by {
            if j < i {
                let k = choose|k: int| 0 <= k < before.len() && #[trigger] before[k] == j;
                assert(kept@[k] == j);
            }
        }
        i = i + 1;
    }
    let t = Keys { keys, col, ascending };
    let order = stable_order(&t);
    let mut r: Vec<usize> = Vec::new();
    let mut p: usize = 0;
    while p < order.len()
        invariant
            p <= order@.len(),
            lists_rows(order@, kept@.len()),
            r@.len() == p,
            forall|q: int| 0 <= q < p ==> #[trigger] r@[q] == kept@[order@[q] as int],
        decreases order@.len() - p,
    {
        r.push(kept[order[p]]);
        p = p + 1;
    }
    proof {
        assert forall|q: int| 0 <= q < r@.len() implies (#[trigger] r@[q]) < shown.len()
            && shown[r@[q] as int] by {
            assert(order@[q] < kept@.len());
            assert(kept@[order@[q] as int] < n);
        }
        assert forall|a: int, b: int| 0 <= a < b < r@.len() implies r@[a] != r@[b] by {
            let (x, y) = (order@[a] as int, order@[b] as int);
            assert(x != y);
            assert(r@[a] == kept@[x] && r@[b] == kept@[y]);
            assert(x < y ==> kept@[x] < kept@[y]);
            assert(y < x ==> kept@[y] < kept@[x]);
        }
        assert forall|j: int| 0 <= j < shown.len() && #[trigger] shown[j] implies exists|q: int|
            0 <= q < r@.len() && #[trigger] r@[q] == j by {
            let k = choose|k: int| 0 <= k < kept@.len() && #[trigger] kept@[k] == j;
            let q = place_of_row(order@, kept@.len(), k as usize);
            assert(r@[q] == j);
        }
        if column_is_numeric(models, averages@, shown, col) {
            assert forall|k: int| 0 <= k < t.rows() implies !(#[trigger] t.key(k)).number.nan() by {
                assert(shown[kept@[k] as int]);
            }
            lemma_keys_rank(t);
            assert forall|a: int, b: int| 0 <= a < b < r@.len() implies {
                let x = key_of(models[(#[trigger] r@[a]) as int], averages@[r@[a] as int], col);
                let y = key_of(models[(#[trigger] r@[b]) as int], averages@[r@[b] as int], col);
                &&& !stands_before(col, ascending, y, x)
                &&& !stands_before(col, ascending, x, y) ==> r@[a] < r@[b]
            } by {
                let (k, l) = (order@[a] as int, order@[b] as int);
                assert(r@[a] == kept@[k] && r@[b] == kept@[l]);
                assert(t.key(k) == key_of(models[r@[a] as int], averages@[r@[a] as int], col));
                assert(t.key(l) == key_of(models[r@[b] as int], averages@[r@[b] as int], col));
                assert(!t.before(order@[b] as int, order@[a] as int));
            }
        }
    }
    r
}

/// Comparing keys ranks the rows wherever the keys are names or numbers.
proof fn lemma_keys_rank(t: Keys)
    requires
        t.col == SortColumn::Coin || forall|i: int|
            0 <= i < t.rows() ==> !(#[trigger] t.key(i)).number.nan(),
    ensures
        is_ranking(t),
{
    assert forall|i: int, j: int|
        0 <= i < t.rows() && 0 <= j < t.rows() && #[trigger] t.before(i, j) implies !t.before(
        j,
        i,
    ) by {
        if t.col == SortColumn::Coin {
            text_order_is_a_ranking(t.key(i).name, t.key(j).name, t.key(i).name);
        }
    }
    assert forall|i: int, j: int, k: int|
        0 <= i < t.rows() && 0 <= j < t.rows() && 0 <= k < t.rows() && !#[trigger] t.before(j, i)
            && !#[trigger] t.before(k, j) implies !t.before(k, i) by {
        if t.col == SortColumn::Coin {
            text_order_is_a_ranking(t.key(i).name, t.key(j).name, t.key(k).name);
            text_order_is_a_ranking(t.key(k).name, t.key(j).name, t.key(i).name);
        } else {
            assert(!t.key(i).number.nan() && !t.key(j).number.nan() && !t.key(k).number.nan());
        }
    }
}

/// There is one order in which the rows can be shown.
pub proof fn shown_order_is_unique(
    rows: Seq<MetricsModel>,
    averages: Seq<RowAverages>,
    shown: Seq<bool>,
    col: SortColumn,
    ascending: bool,
    a: Seq<usize>,
    b: Seq<usize>,
)
    requires
        lists_shown(a, shown),
        lists_shown(b, shown),
        is_sorted(rows, averages, col, ascending, a),
        is_sorted(rows, averages, col, ascending, b),
    ensures
        a == b,
{
    if a.len() <= b.len() {
        lemma_same_rows(rows, averages, shown, col, ascending, a, b, a.len());
        if a.len() < b.len() {
            let i = b[a.len() as int];
            assert(shown[i as int]);
            let p = choose|p: int| 0 <= p < a.len() && #[trigger] a[p] == i as int;
            assert(b[p] == i);
        }
    } else {
        lemma_same_rows(rows, averages, shown, col, ascending, b, a, b.len());
        let i = a[b.len() as int];
        assert(shown[i as int]);
        let p = choose|p: int| 0 <= p < b.len() && #[trigger] b[p] == i as int;
        assert(a[p] == i);
    }
    assert(a =~= b);
}

proof fn lemma_same_rows(
    rows: Seq<MetricsModel>,
    averages: Seq<RowAverages>,
    shown: Seq<bool>,
    col: SortColumn,
    ascending: bool,
    a: Seq<usize>,
    b: Seq<usize>,
    m: nat,
)
    requires
        lists_shown(a, shown),
        lists_shown(b, shown),
        is_sorted(rows, averages, col, ascending, a),
        is_sorted(rows, averages, col, ascending, b),
        m <= a.len() <= b.len(),
    ensures
        forall|p: int| 0 <= p < m ==> a[p] == b[p],
    decreases m,
{
    if m > 0 {
        lemma_same_rows(rows, averages, shown, col, ascending, a, b, (m - 1) as nat);
        let p = m - 1;
        if a[p] != b[p] {
            assert(shown[a[p] as int] && shown[b[p] as int]);
            let x = choose|x: int| 0 <= x < a.len() && #[trigger] a[x] == b[p] as int;
            let y = choose|y: int| 0 <= y < b.len() && #[trigger] b[y] == a[p] as int;
            assert(x > p) by {
                if x < p {
                    assert(a[x] == b[x]);
                }
            }
            assert(y > p) by {
                if y < p {
                    assert(a[y] == b[y]);
                }
            }
            assert(a[p] < a[x] || stands_before(
                col,
                ascending,
                key_of(rows[a[p] as int], averages[a[p] as int], col),
                key_of(rows[a[x] as int], averages[a[x] as int], col),
            ));
            assert(b[p] < b[y] || stands_before(
                col,
                ascending,
                key_of(rows[b[p] as int], averages[b[p] as int], col),
                key_of(rows[b[y] as int], averages[b[y] as int], col),
            ));
            assert(false);
        }
    }
}

/// Rows stand by their numbers: rising where the order is ascending, falling where
/// it is not.
pub proof fn numbers_rise_or_fall(
    rows: Seq<MetricsModel>,
    averages: Seq<RowAverages>,
    shown: Seq<bool>,
    col: SortColumn,
    ascending: bool,
    s: Seq<usize>,
    p: int,
    q: int,
)
    requires
        shown.len() == rows.len(),
        lists_shown(s, shown),
        column_is_numeric(rows, averages, shown, col),
        is_sorted(rows, averages, col, ascending, s),
        col != SortColumn::Coin,
        0 <= p < q < s.len(),
    ensures
        ({
            let x = column_number(rows[s[p] as int], averages[s[p] as int], col);
            let y = column_number(rows[s[q] as int], averages[s[q] as int], col);
            if ascending {
                x.le(y)
            } else {
                y.le(x)
            }
        }),
{
    assert(shown[s[p] as int] && shown[s[q] as int]);
}

/// The sorting after a click on a column: a click on the column that rows are sorted
/// by turns the order round; a click on another sorts by it, the largest first.
pub open spec fn clicked(column: SortColumn, current: SortColumn, ascending: bool) -> (
    SortColumn,
    bool,
) {
    if current == column {
        (column, !ascending)
    } else {
        (column, false)
    }
}

/// The sorting after a click on a column.
pub fn sort_after_click(column: SortColumn, current: SortColumn, ascending: bool) -> (r: (
    SortColumn,
    bool,
))
    ensures
        r == clicked(column, current, ascending),
{
    if current == column {
        (column, !ascending)
    } else {
        (column, false)
    }
}

/// A click sorts by the column clicked; two clicks on the column that rows are
/// sorted by change nothing, and two on another leave it ascending.
pub proof fn clicks_turn_the_order_round(column: SortColumn, current: SortColumn, ascending: bool)
    ensures
        clicked(column, current, ascending).0 == column,
        ({
            let once = clicked(column, current, ascending);
            let twice = clicked(column, once.0, once.1);
            &&& current == column ==> twice == (current, ascending)
            &&& current != column ==> once == (column, false) && twice == (column, true)
        }),
{
}

/// What stands behind the label of a column: an arrow where rows are sorted by it.
pub open spec fn arrow(column: SortColumn, current: SortColumn, ascending: bool) -> Seq<char> {
    if current != column {
        ""@
    } else if ascending {
        " ▲"@
    } else {
        " ▼"@
    }
}

/// The text of a column's header.
pub fn header_text(label: &str, column: SortColumn, current: SortColumn, ascending: bool) -> (r:
    String)
    ensures
        r@ == label@ + arrow(column, current, ascending),
{
    let mark = if current != column {
        ""
    } else if ascending {
        " ▲"
    } else {
        " ▼"
    };
    label.to_owned().concat(mark)
}

/// The header of a timeframe's volatility.
pub open spec fn volatility_header(i: Interval) -> (Seq<char>, SortColumn) {
    ("V."@ + i.label(), SortColumn::Volatility(i))
}

/// The header of the comparison with BTC in a timeframe.
pub open spec fn vs_btc_header(i: Interval) -> (Seq<char>, SortColumn) {
    ("vs."@ + i.label(), SortColumn::VsBtc(i))
}

/// The columns in their order, each with its label.
pub open spec fn header_list() -> Seq<(Seq<char>, SortColumn)> {
    seq![
        ("Coin"@, SortColumn::Coin),
        ("Price"@, SortColumn::Price),
        ("24h%"@, SortColumn::Change24h),
        ("Vol 24h"@, SortColumn::Volume),
        ("OI"@, SortColumn::OpenInterest),
        ("Funding"@, SortColumn::FundingRate),
    ] + all_intervals().map_values(|i: Interval| volatility_header(i))
        + all_intervals().map_values(|i: Interval| vs_btc_header(i)) + seq![
        ("Beta"@, SortColumn::Beta),
    ]
}

/// What several headers say.
pub open spec fn header_models(v: Seq<(String, SortColumn)>) -> Seq<(Seq<char>, SortColumn)> {
    v.map_values(|h: (String, SortColumn)| (h.0@, h.1))
}

fn add_header(v: &mut Vec<(String, SortColumn)>, label: String, col: SortColumn)
    requires
        old(v)@.len() < header_list().len(),
        header_models(old(v)@) == header_list().take(old(v)@.len() as int),
        header_list()[old(v)@.len() as int] == (label@, col),
    ensures
        final(v)@.len() == old(v)@.len() + 1,
        header_models(final(v)@) == header_list().take(final(v)@.len() as int),
{
    let ghost before = v@;
    v.push((label, col));
    assert(header_models(v@) =~= header_models(before).push((label@, col)));
    assert(header_list().take(v@.len() as int) =~= header_list().take(before.len() as int).push(
        header_list()[before.len() as int],
    ));
}

/// The columns in their order, each with its label.
pub fn headers() -> (r: Vec<(String, SortColumn)>)
    ensures
        header_models(r@) == header_list(),
{
    let mut r: Vec<(String, SortColumn)> = Vec::new();
    assert(header_models(r@) =~= header_list().take(0));
    add_header(&mut r, "Coin".to_owned(), SortColumn::Coin);
    add_header(&mut r, "Price".to_owned(), SortColumn::Price);
    add_header(&mut r, "24h%".to_owned(), SortColumn::Change24h);
    add_header(&mut r, "Vol 24h".to_owned(), SortColumn::Volume);
    add_header(&mut r, "OI".to_owned(), SortColumn::OpenInterest);
    add_header(&mut r, "Funding".to_owned(), SortColumn::FundingRate);
    let all = Interval::all();
    let mut k: usize = 0;
    while k < all.len()
        invariant
            k <= all@.len(),
            all@ == all_intervals(),
            r@.len() == 6 + k,
            header_models(r@) == header_list().take(r@.len() as int),
        decreases all@.len() - k,
    {
        let label = "V.".to_owned().concat(all[k].as_str());
        assert(header_list()[6 + k] == volatility_header(all_intervals()[k as int]));
        add_header(&mut r, label, SortColumn::Volatility(all[k]));
        k = k + 1;
    }
    let mut k: usize = 0;
    while k < all.len()
        invariant
            k <= all@.len(),
            all@ == all_intervals(),
            r@.len() == 13 + k,
            header_models(r@) == header_list().take(r@.len() as int),
        decreases all@.len() - k,
    {
        let label = "vs.".to_owned().concat(all[k].as_str());
        assert(header_list()[13 + k] == vs_btc_header(all_intervals()[k as int]));
        add_header(&mut r, label, SortColumn::VsBtc(all[k]));
        k = k + 1;
    }
    add_header(&mut r, "Beta".to_owned(), SortColumn::Beta);
    assert(header_list().take(21) =~= header_list());
    r
}

/// The place of a column.
pub open spec fn column_place(col: SortColumn) -> int {
    match col {
        SortColumn::Coin => 0,
        SortColumn::Price => 1,
        SortColumn::Change24h => 2,
        SortColumn::Volume => 3,
        SortColumn::OpenInterest => 4,
        SortColumn::FundingRate => 5,
        SortColumn::Volatility(i) => 6 + crate::pipeline::interval_place(i),
        SortColumn::VsBtc(i) => 13 + crate::pipeline::interval_place(i),
        SortColumn::Beta => 20,
    }
}

/// Every column has one header.
pub proof fn every_column_has_one_header(col: SortColumn, k: int)
    requires
        0 <= k < header_list().len(),
    ensures
        header_list().len() == 21,
        0 <= column_place(col) < 21,
        header_list()[column_place(col)].1 == col,
        header_list()[k].1 == col ==> k == column_place(col),
{
}

/// The text of a cell without data.
pub fn no_data() -> (r: &'static str)
    ensures
        r@ == "—"@,
{
    "—"
}

/// The colour of a cell without data.
pub fn no_data_color() -> (r: Rgb)
    ensures
        r == (Rgb { red: 80, green: 80, blue: 80 }),
{
    Rgb { red: 80, green: 80, blue: 80 }
}

/// A cell of a row: nothing, or a number and its colour.
#[derive(Clone, Copy, Debug)]
pub struct Cell {
    pub value: Option<(Double, Rgb)>,
}

/// The colours and numbers of a row.
#[derive(Debug)]
pub struct RowCells {
    /// Where a click on the coin's name leads.
    pub link: String,
    pub change_color: Rgb,
    pub funding_color: Rgb,
    /// One cell for each timeframe.
    pub volatility: Vec<Cell>,
    /// One cell for each timeframe. A number has the colour of a change: that it is
    /// shown in per cent keeps its sign.
    pub vs_btc: Vec<Cell>,
    pub beta: Option<Double>,
}

/// The cell of a timeframe's volatility.
pub open spec fn volatility_cell(m: MetricsModel, i: Interval) -> Cell {
    Cell {
        value: match m.volatility.of(i) {
            Some(x) => Some((x, color_of_volatility(x))),
            None => None,
        },
    }
}

/// The cell of the comparison with BTC in a timeframe.
pub open spec fn vs_btc_cell(m: MetricsModel, i: Interval) -> Cell {
    Cell {
        value: match m.vs_btc.of(i) {
            Some(x) => Some((x, color_of_change(x))),
            None => None,
        },
    }
}

/// The colours and numbers of a row. The beta shown is the average, where there is
/// any beta.
pub fn row_cells(m: &CoinMetrics, avg: &RowAverages) -> (r: RowCells)
    ensures
        r.link@ == "https://app.hyperliquid.xyz/trade/"@ + m.coin@,
        r.change_color == color_of_change(m.change_24h_pct),
        r.funding_color == color_of_change(m.funding_rate),
        r.volatility@ == all_intervals().map_values(|i: Interval| volatility_cell(m@, i)),
        r.vs_btc@ == all_intervals().map_values(|i: Interval| vs_btc_cell(m@, i)),
        r.beta == if m.btc_beta.numbers(all_intervals()).len() == 0 {
            None
        } else {
            Some(avg.beta)
        },
{
    let all = Interval::all();
    let mut volatility: Vec<Cell> = Vec::new();
    let mut vs_btc: Vec<Cell> = Vec::new();
    let mut k: usize = 0;
    while k < all.len()
        invariant
            k <= all@.len(),
            all@ == all_intervals(),
            volatility@.len() == k,
            vs_btc@.len() == k,
            forall|j: int|
                0 <= j < k ==> #[trigger] volatility@[j] == volatility_cell(m@, all_intervals()[j]),
            forall|j: int|
                0 <= j < k ==> #[trigger] vs_btc@[j] == vs_btc_cell(m@, all_intervals()[j]),
        decreases all@.len() - k,
    {
        volatility.push(
            Cell {
                value: match m.volatility.get(all[k]) {
                    Some(x) => Some((x, volatility_color(x))),
                    None => None,
                },
            },
        );
        vs_btc.push(
            Cell {
                value: match m.vs_btc.get(all[k]) {
                    Some(x) => Some((x, change_color(x))),
                    None => None,
                },
            },
        );
        k = k + 1;
    }
    assert(volatility@ =~= all_intervals().map_values(|i: Interval| volatility_cell(m@, i)));
    assert(vs_btc@ =~= all_intervals().map_values(|i: Interval| vs_btc_cell(m@, i)));
    RowCells {
        link: trade_url(m.coin.as_str()),
        change_color: change_color(m.change_24h_pct),
        funding_color: change_color(m.funding_rate),
        volatility,
        vs_btc,
        beta: if m.btc_beta.values().len() == 0 {
            None
        } else {
            Some(avg.beta)
        },
    }
}

/// Whether two figures of rows at places `p` and `q`, the first before the second, stand
/// as they have to: rising or falling, and where they are alike in the order in which the
/// rows became known.
pub open spec fn figures_stand(x: Double, y: Double, ascending: bool, p: usize, q: usize) -> bool {
    !x.nan() && !y.nan() ==> {
        &&& ascending ==> x.le(y)
        &&& !ascending ==> y.le(x)
        &&& x.le(y) && y.le(x) ==> p < q
    }
}

/// Each column sorts rows by the figure that it is the column of: prices by price, open
/// interest by open interest, and so on; a timeframe without a number counts as zero.
pub proof fn columns_sort_by_their_own_figures(
    rows: Seq<MetricsModel>,
    averages: Seq<RowAverages>,
    col: SortColumn,
    ascending: bool,
    s: Seq<usize>,
    p: int,
    q: int,
)
    requires
        is_sorted(rows, averages, col, ascending, s),
        0 <= p < q < s.len(),
    ensures
        ({
            let (a, b) = (rows[s[p] as int], rows[s[q] as int]);
            let (v, w) = (averages[s[p] as int], averages[s[q] as int]);
            &&& col == SortColumn::Price ==> figures_stand(a.price, b.price, ascending, s[p], s[q])
            &&& col == SortColumn::Change24h ==> figures_stand(
                a.change_24h_pct,
                b.change_24h_pct,
                ascending,
                s[p],
                s[q],
            )
            &&& col == SortColumn::Volume ==> figures_stand(
                a.volume_24h,
                b.volume_24h,
                ascending,
                s[p],
                s[q],
            )
            &&& col == SortColumn::OpenInterest ==> figures_stand(
                a.open_interest,
                b.open_interest,
                ascending,
                s[p],
                s[q],
            )
            &&& col == SortColumn::FundingRate ==> figures_stand(
                a.funding_rate,
                b.funding_rate,
                ascending,
                s[p],
                s[q],
            )
            &&& col == SortColumn::Beta ==> figures_stand(v.beta, w.beta, ascending, s[p], s[q])
            &&& col matches SortColumn::Volatility(i) ==> figures_stand(
                if a.volatility.of(i) is Some {
                    a.volatility.of(i)->0
                } else {
                    Double { bits: 0 }
                },
                if b.volatility.of(i) is Some {
                    b.volatility.of(i)->0
                } else {
                    Double { bits: 0 }
                },
                ascending,
                s[p],
                s[q],
            )
            &&& col matches SortColumn::VsBtc(i) ==> figures_stand(
                if a.vs_btc.of(i) is Some {
                    a.vs_btc.of(i)->0
                } else {
                    Double { bits: 0 }
                },
                if b.vs_btc.of(i) is Some {
                    b.vs_btc.of(i)->0
                } else {
                    Double { bits: 0 }
                },
                ascending,
                s[p],
                s[q],
            )
            &&& col == SortColumn::Coin && ascending ==> !text_before(b.coin, a.coin)
            &&& col == SortColumn::Coin && !ascending ==> !text_before(a.coin, b.coin)
            &&& col == SortColumn::Coin && a.coin == b.coin ==> s[p] < s[q]
        }),
{
    let (a, b) = (rows[s[p] as int], rows[s[q] as int]);
    if col == SortColumn::Coin && a.coin == b.coin {
        text_order_is_a_ranking(a.coin, b.coin, a.coin);
    }
}

/// Sorting by open interest, the largest first, puts rows in the order of their open
/// interest.
pub proof fn largest_open_interest_comes_first(
    rows: Seq<MetricsModel>,
    averages: Seq<RowAverages>,
    s: Seq<usize>,
    p: int,
    q: int,
)
    requires
        is_sorted(rows, averages, SortColumn::OpenInterest, false, s),
        0 <= p < q < s.len(),
        !rows[s[p] as int].open_interest.nan(),
        !rows[s[q] as int].open_interest.nan(),
    ensures
        rows[s[q] as int].open_interest.le(rows[s[p] as int].open_interest),
{
    columns_sort_by_their_own_figures(
        rows,
        averages,
        SortColumn::OpenInterest,
        false,
        s,
        p,
        q,
    );
}

/// A column is numeric where the figure that it is the column of is a number in every row
/// shown; the column of names always is.
pub proof fn columns_are_numeric_by_their_own_figures(
    rows: Seq<MetricsModel>,
    averages: Seq<RowAverages>,
    shown: Seq<bool>,
    col: SortColumn,
)
    requires
        forall|i: int|
            0 <= i < rows.len() && #[trigger] shown[i] ==> match col {
                SortColumn::Coin => true,
                SortColumn::Price => !rows[i].price.nan(),
                SortColumn::Change24h => !rows[i].change_24h_pct.nan(),
                SortColumn::Volume => !rows[i].volume_24h.nan(),
                SortColumn::OpenInterest => !rows[i].open_interest.nan(),
                SortColumn::FundingRate => !rows[i].funding_rate.nan(),
                SortColumn::Volatility(t) => rows[i].volatility.of(t) matches Some(x) ==> !x.nan(),
                SortColumn::VsBtc(t) => rows[i].vs_btc.of(t) matches Some(x) ==> !x.nan(),
                SortColumn::Beta => !averages[i].beta.nan(),
            },
    ensures
        column_is_numeric(rows, averages, shown, col),
{
}

/// A row is shown where its name holds the search text, or none is given, its volume is
/// at least the least volume, and its average volatility at least the least volatility,
/// or none above zero is given; and only there.
pub proof fn rows_are_shown_by_their_own_figures(
    rows: Seq<MetricsModel>,
    averages: Seq<RowAverages>,
    lowered: Seq<Seq<char>>,
    choice: Choice,
    lowered_query: Seq<char>,
    i: int,
)
    requires
        0 <= i < rows.len(),
    ensures
        ({
            let shown = shown_rows(rows, averages, lowered, choice, lowered_query);
            &&& shown.len() == rows.len()
            &&& shown[i] <==> {
                &&& choice.search_query == Seq::<char>::empty() || occurs_in(
                    lowered_query,
                    lowered[i],
                )
                &&& choice.min_volume.le(rows[i].volume_24h)
                &&& choice.min_volatility.le(Double { bits: 0 }) || choice.min_volatility.le(
                    averages[i].volatility,
                )
            }
        }),
{
    if choice.search_query.len() == 0 {
        assert(choice.search_query =~= Seq::<char>::empty());
    }
}

/// A list of the rows that are shown has each of them once and no other.
pub proof fn shown_rows_are_listed_in_full(s: Seq<usize>, shown: Seq<bool>, row: usize)
    requires
        lists_shown(s, shown),
    ensures
        s.no_duplicates(),
        s.contains(row) <==> row < shown.len() && shown[row as int],
{
    if row < shown.len() && shown[row as int] {
        let p = choose|p: int| 0 <= p < s.len() && #[trigger] s[p] == row as int;
        assert(s[p] == row);
    }
}

/// What the user asks for is what is asked of the rows.
pub proof fn choice_says_what_it_holds(c: RowChoice)
    ensures
        c@.search_query == c.search_query@,
        c@.min_volume == c.min_volume,
        c@.min_volatility == c.min_volatility,
{
}

/// Each header stands over the column that it is labelled as.
pub proof fn headers_name_their_columns(k: int)
    requires
        0 <= k < 7,
    ensures
        header_list().len() == 21,
        header_list()[0] == ("Coin"@, SortColumn::Coin),
        header_list()[1] == ("Price"@, SortColumn::Price),
        header_list()[2] == ("24h%"@, SortColumn::Change24h),
        header_list()[3] == ("Vol 24h"@, SortColumn::Volume),
        header_list()[4] == ("OI"@, SortColumn::OpenInterest),
        header_list()[5] == ("Funding"@, SortColumn::FundingRate),
        header_list()[6 + k] == ("V."@ + all_intervals()[k].label(), SortColumn::Volatility(
            all_intervals()[k],
        )),
        header_list()[13 + k] == ("vs."@ + all_intervals()[k].label(), SortColumn::VsBtc(
            all_intervals()[k],
        )),
        header_list()[20] == ("Beta"@, SortColumn::Beta),
{
}

/// Only the column that rows are sorted by bears an arrow: upwards where they rise,
/// downwards where they fall.
pub proof fn arrow_shows_the_order(column: SortColumn, current: SortColumn)
    ensures
        arrow(column, column, true) == " ▲"@,
        arrow(column, column, false) == " ▼"@,
        column != current ==> arrow(column, current, true) == ""@ && arrow(column, current, false)
            == ""@,
{
}

/// A cell shows the figure of its own timeframe, where there is one: volatility in the
/// colour of a volatility, the comparison with BTC in that of a change.
pub proof fn cells_show_their_own_figures(m: MetricsModel, i: Interval)
    ensures
        m.volatility.of(i) matches Some(x) ==> volatility_cell(m, i).value == Some(
            (x, color_of_volatility(x)),
        ),
        m.volatility.of(i) is None ==> volatility_cell(m, i).value is None,
        m.vs_btc.of(i) matches Some(x) ==> vs_btc_cell(m, i).value == Some((x, color_of_change(x))),
        m.vs_btc.of(i) is None ==> vs_btc_cell(m, i).value is None,
{
}

/// Headers are told one by one and in order.
pub proof fn headers_are_told_one_by_one(v: Seq<(String, SortColumn)>, k: int)
    ensures
        header_models(v).len() == v.len(),
        0 <= k < v.len() ==> header_models(v)[k] == (v[k].0@, v[k].1),
{
}

} // verus!
