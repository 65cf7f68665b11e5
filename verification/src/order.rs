//! Stable ordering of the rows of a table.

use vstd::prelude::*;

verus! {

/// A table whose rows can be compared.
pub trait RowOrder {
    /// How many rows there are.
    spec fn rows(&self) -> nat;

    /// Whether row `i` has to stand before row `j`.
    spec fn before(&self, i: int, j: int) -> bool;

    /// How many rows there are.
    fn count(&self) -> (n: usize)
        ensures
            n == self.rows(),
    ;

    /// Whether row `i` has to stand before row `j`.
    fn is_before(&self, i: usize, j: usize) -> (r: bool)
        requires
            i < self.rows(),
            j < self.rows(),
        ensures
            r == self.before(i as int, j as int),
    ;
}

/// Whether the comparison is a ranking: no two rows have to stand before each
/// other, and where neither of two steps goes down, both together do not.
pub open spec fn is_ranking<T: RowOrder>(t: T) -> bool {
    &&& forall|i: int, j: int|
        0 <= i < t.rows() && 0 <= j < t.rows() && #[trigger] t.before(i, j) ==> !t.before(j, i)
    &&& forall|i: int, j: int, k: int|
        0 <= i < t.rows() && 0 <= j < t.rows() && 0 <= k < t.rows()
            && !#[trigger] t.before(j, i) && !#[trigger] t.before(k, j) ==> !t.before(k, i)
}

/// Whether `s` lists each of the first `n` row numbers once.
pub open spec fn lists_rows(s: Seq<usize>, n: nat) -> bool {
    &&& s.len() == n
    &&& forall|p: int| 0 <= p < s.len() ==> (#[trigger] s[p]) < n
    &&& forall|p: int, q: int| 0 <= p < q < s.len() ==> s[p] != s[q]
}

/// Whether the rows stand in order: of any two, the later one does not have to
/// stand before the earlier one, and where neither has to, the one with the
/// smaller row number comes first.
pub open spec fn stands_in_order<T: RowOrder>(t: T, s: Seq<usize>) -> bool {
    forall|p: int, q: int|
        0 <= p < q < s.len() ==> {
            &&& !t.before((#[trigger] s[q]) as int, (#[trigger] s[p]) as int)
            &&& !t.before(s[p] as int, s[q] as int) ==> s[p] < s[q]
        }
}

/// Whether a row has to stand before every other row, and none before it.
pub open spec fn leads<T: RowOrder>(t: T, f: int) -> bool {
    &&& 0 <= f < t.rows()
    &&& forall|j: int|
        0 <= j < t.rows() && j != f ==> #[trigger] t.before(f, j) && !t.before(j, f)
}

/// The row numbers of a table in stable order.
///
/// Every row is listed once. Where the comparison is a ranking the rows stand
/// in order, and those that tie keep their order in the table. A row that has to
/// stand before every other comes first, whether the comparison is a ranking or not.
pub fn stable_order<T: RowOrder>(t: &T) -> (s: Vec<usize>)
    ensures
        lists_rows(s@, t.rows()),
        is_ranking(*t) ==> stands_in_order(*t, s@),
        forall|f: int| #[trigger] leads(*t, f) ==> s@[0] == f,
{
    let n: usize = t.count();
    let mut s: Vec<usize> = Vec::new();
    let mut i: usize = 0;
    while i < n
        invariant
            i <= n,
            n == t.rows(),
            lists_rows(s@, i as nat),
            is_ranking(*t) ==> stands_in_order(*t, s@),
            forall|f: int| #[trigger] leads(*t, f) && f < i ==> s@[0] == f,
        decreases n - i,
    {
        let mut k: usize = s.len();
        while k > 0 && t.is_before(i, s[k - 1])
            invariant
                k <= s@.len(),
                i < n,
                n == t.rows(),
                lists_rows(s@, i as nat),
                forall|p: int| k <= p < s@.len() ==> t.before(i as int, (#[trigger] s@[p]) as int),
            decreases k,
        {
            k = k - 1;
        }
        let ghost before = s@;
        s.insert(k, i);
        proof {
            assert(s@ =~= before.insert(k as int, i));
            assert forall|f: int| #[trigger] leads(*t, f) && f < i + 1 implies s@[0] == f by {
                if f == i {
                    assert(k == 0 || t.before(f, before[k - 1] as int));
                } else {
                    assert(before[0] == f);
                    assert(t.before(f, i as int));
                    assert(k > 0);
                }
            }
            if is_ranking(*t) {
                assert(k == 0 || !t.before(i as int, before[k - 1] as int));
                assert forall|p: int| 0 <= p < k implies !t.before(
                    i as int,
                    (#[trigger] before[p]) as int,
                ) by {
                    if p < k - 1 {
                        assert(!t.before(before[k - 1] as int, before[p] as int));
                    }
                }
            }
        }
        i = i + 1;
    }
    s
}

/// Two listings of a table's rows that both stand in order are the same.
pub proof fn order_is_unique<T: RowOrder>(t: T, a: Seq<usize>, b: Seq<usize>)
    requires
        lists_rows(a, t.rows()),
        lists_rows(b, t.rows()),
        stands_in_order(t, a),
        stands_in_order(t, b),
    ensures
        a == b,
{
    lemma_same_prefix(t, a, b, a.len());
    assert(a =~= b);
}

proof fn lemma_same_prefix<T: RowOrder>(t: T, a: Seq<usize>, b: Seq<usize>, m: nat)
    requires
        lists_rows(a, t.rows()),
        lists_rows(b, t.rows()),
        stands_in_order(t, a),
        stands_in_order(t, b),
        m <= a.len(),
    ensures
        forall|p: int| 0 <= p < m ==> a[p] == b[p],
    decreases m,
{
    if m > 0 {
        lemma_same_prefix(t, a, b, (m - 1) as nat);
        let p = m - 1;
        if a[p] != b[p] {
            let qa = place_of_row(a, t.rows(), b[p]);
            let qb = place_of_row(b, t.rows(), a[p]);
            assert(qa > p);
            assert(qb > p);
            assert(!t.before(a[qa] as int, a[p] as int));
            assert(!t.before(b[qb] as int, b[p] as int));
            assert(false);
        }
    }
}

/// Every row number below `n` has a place in a listing of the first `n` rows.
pub proof fn place_of_row(s: Seq<usize>, n: nat, row: usize) -> (p: int)
    requires
        lists_rows(s, n),
        row < n,
    ensures
        0 <= p < s.len(),
        s[p] == row,
    decreases n,
{
    let as_ints = s.map_values(|x: usize| x as int);
    if !(exists|p: int| 0 <= p < s.len() && s[p] == row) {
        let set = as_ints.to_set();
        assert(as_ints.no_duplicates());
        as_ints.unique_seq_to_set();
        let all = vstd::set_lib::set_int_range(0, n as int);
        vstd::set_lib::lemma_int_range(0, n as int);
        assert(set.subset_of(all.remove(row as int))) by {
            assert forall|x: int| set.contains(x) implies all.remove(row as int).contains(x) by {
                let p = choose|p: int| 0 <= p < as_ints.len() && as_ints[p] == x;
                assert(s[p] as int == x);
            }
        }
        vstd::set_lib::lemma_len_subset(set, all.remove(row as int));
        assert(false);
    }
    choose|p: int| 0 <= p < s.len() && s[p] == row
}

/// A listing of rows has each of them, and none twice.
pub proof fn listings_are_complete(s: Seq<usize>, n: nat, row: usize)
    requires
        lists_rows(s, n),
    ensures
        s.len() == n,
        s.no_duplicates(),
        s.contains(row) <==> row < n,
{
    if row < n {
        let p = place_of_row(s, n, row);
        assert(s[p] == row);
    }
}

} // verus!
