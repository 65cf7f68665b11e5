//! Text: comparing, searching, trimming, and writing numbers in decimal.

use vstd::prelude::*;
use vstd::string::*;

verus! {

/// Whether two texts hold the same characters.
pub fn same_text(a: &str, b: &str) -> (r: bool)
    ensures
        r == (a@ == b@),
{
    a.to_owned() == b.to_owned()
}

/// The characters of a text.
pub fn chars_of(s: &str) -> (r: Vec<char>)
    ensures
        r@ == s@,
{
    let mut r: Vec<char> = Vec::new();
    for c in it: s.chars()
        invariant
            r@ == it.seq().take(it.index()),
            it.seq() == s@,
    {
        proof {
            assert(it.seq().take(it.index() + 1) =~= it.seq().take(it.index()).push(c));
        }
        r.push(c);
    }
    r
}

/// Whether `needle` occurs in `hay`, beginning at some character.
pub open spec fn occurs_in(needle: Seq<char>, hay: Seq<char>) -> bool {
    exists|i: int| #[trigger] occurs_at(needle, hay, i)
}

/// Whether `needle` stands in `hay` from character `i` on.
pub open spec fn occurs_at(needle: Seq<char>, hay: Seq<char>, i: int) -> bool {
    &&& 0 <= i
    &&& i + needle.len() <= hay.len()
    &&& hay.subrange(i, i + needle.len()) == needle
}

/// Whether `needle` occurs in `hay`.
pub fn contains_text(hay: &str, needle: &str) -> (r: bool)
    ensures
        r == occurs_in(needle@, hay@),
{
    let h = chars_of(hay);
    let n = chars_of(needle);
    let mut i: usize = 0;
    while i <= h.len() && n.len() <= h.len() - i
        invariant
            h@ == hay@,
            n@ == needle@,
            i <= h@.len() + 1,
            forall|j: int| 0 <= j < i ==> !occurs_at(needle@, hay@, j),
        decreases h@.len() + 1 - i,
    {
        let mut k: usize = 0;
        while k < n.len() && h[i + k] == n[k]
            invariant
                i + n@.len() <= h@.len(),
                h@.len() <= usize::MAX,
                k <= n@.len(),
                forall|j: int| 0 <= j < k ==> h@[i + j] == n@[j],
            decreases n@.len() - k,
        {
            k = k + 1;
        }
        if k == n.len() {
            assert(hay@.subrange(i as int, i + needle@.len()) =~= needle@);
            assert(occurs_at(needle@, hay@, i as int));
            return true;
        }
        assert(hay@.subrange(i as int, i + needle@.len())[k as int] == h@[i + k]);
        assert(!occurs_at(needle@, hay@, i as int));
        if i == usize::MAX {
            return false;
        }
        i = i + 1;
    }
    false
}

/// What `str::to_lowercase` makes of a text.
pub uninterp spec fn lowercase(s: Seq<char>) -> Seq<char>;

/// A text in lower case, by `str::to_lowercase` of the standard library.
///
/// Taken on trust: the result depends on the characters of the text alone.
#[verifier::external_body]
pub(crate) fn to_lowercase(s: &str) -> (r: String)
    ensures
        r@ == lowercase(s@),
{
    s.to_lowercase()
}

/// What each of several strings holds.
pub open spec fn texts(v: Seq<String>) -> Seq<Seq<char>> {
    v.map_values(|s: String| s@)
}

/// Whether `a` comes before `b` in the order of strings: at the first character
/// in which they differ `a` has the smaller code point, or `a` is a proper
/// beginning of `b`.
pub open spec fn text_before(a: Seq<char>, b: Seq<char>) -> bool {
    exists|k: int| #[trigger] parts_before(a, b, k)
}

/// Whether `a` and `b` agree below `k` and `a` is the smaller one at `k`.
pub open spec fn parts_before(a: Seq<char>, b: Seq<char>, k: int) -> bool {
    &&& 0 <= k <= a.len()
    &&& k < b.len()
    &&& a.take(k) == b.take(k)
    &&& k < a.len() ==> (a[k] as int) < (b[k] as int)
}

fn code_point(c: char) -> (r: u32)
    ensures
        r == c as int,
{
    c as u32
}

/// Whether `a` comes before `b` in the order of strings.
pub fn is_text_before(a: &str, b: &str) -> (r: bool)
    ensures
        r == text_before(a@, b@),
{
    let x = chars_of(a);
    let y = chars_of(b);
    let mut k: usize = 0;
    while k < x.len() && k < y.len() && x[k] == y[k]
        invariant
            x@ == a@,
            y@ == b@,
            k <= x@.len(),
            k <= y@.len(),
            forall|j: int| 0 <= j < k ==> x@[j] == y@[j],
        decreases x@.len() - k,
    {
        k = k + 1;
    }
    assert(a@.take(k as int) =~= b@.take(k as int));
    let r = k < y.len() && (k == x.len() || code_point(x[k]) < code_point(y[k]));
    proof {
        lemma_first_difference(a@, b@, k as int);
        if r {
            assert(parts_before(a@, b@, k as int));
        }
    }
    r
}

/// Where two texts agree below `k` and not at `k`, only `k` can decide.
proof fn lemma_first_difference(a: Seq<char>, b: Seq<char>, k: int)
    requires
        0 <= k <= a.len(),
        k <= b.len(),
        a.take(k) == b.take(k),
        k == a.len() || k == b.len() || a[k] != b[k],
    ensures
        text_before(a, b) ==> parts_before(a, b, k),
{
    if text_before(a, b) {
        let j = choose|j: int| #[trigger] parts_before(a, b, j);
        if j < k {
            assert(a.take(k)[j] == a[j]);
            assert(b.take(k)[j] == b[j]);
        } else if j > k {
            assert(a.take(j)[k] == b.take(j)[k]);
        }
    }
}

/// The order of strings is a ranking: it is never both ways, and two steps
/// neither of which goes down do not go down together.
pub proof fn text_order_is_a_ranking(a: Seq<char>, b: Seq<char>, c: Seq<char>)
    ensures
        text_before(a, b) ==> !text_before(b, a),
        text_before(a, b) || text_before(b, a) || a == b,
        !text_before(b, a) && !text_before(c, b) ==> !text_before(c, a),
{
    lemma_comparable(a, b);
    lemma_comparable(b, c);
    lemma_comparable(a, c);
    lemma_one_way(a, b);
    if !text_before(b, a) && !text_before(c, b) && text_before(c, a) {
        lemma_one_way(a, c);
        if a != b && b != c {
            let i = choose|i: int| #[trigger] parts_before(a, b, i);
            let j = choose|j: int| #[trigger] parts_before(b, c, j);
            let k = if i < j { i } else { j };
            assert(a.take(k) =~= c.take(k)) by {
                assert forall|m: int| 0 <= m < k implies a[m] == c[m] by {
                    assert(a.take(i)[m] == b.take(i)[m]);
                    assert(b.take(j)[m] == c.take(j)[m]);
                }
            }
            if i < j {
                assert(b.take(j)[i] == c.take(j)[i]);
            } else if j < i {
                assert(a.take(i)[j] == b.take(i)[j]);
            }
            assert(parts_before(a, c, k));
        } else {
            assert(a == b || b == c);
        }
    }
}

proof fn lemma_one_way(a: Seq<char>, b: Seq<char>)
    ensures
        !(text_before(a, b) && text_before(b, a)),
{
    if text_before(a, b) && text_before(b, a) {
        let i = choose|i: int| #[trigger] parts_before(a, b, i);
        let j = choose|j: int| #[trigger] parts_before(b, a, j);
        if i < j {
            assert(b.take(j)[i] == a.take(j)[i]);
        } else if j < i {
            assert(a.take(i)[j] == b.take(i)[j]);
        }
        assert(false);
    }
}

proof fn lemma_comparable(a: Seq<char>, b: Seq<char>)
    ensures
        text_before(a, b) || text_before(b, a) || a == b,
{
    assert(a.take(0) =~= b.take(0));
    let k = lemma_agreement(a, b, 0);
    assert(b.take(k) =~= a.take(k));
    if k < a.len() && k < b.len() {
        if (a[k] as int) < (b[k] as int) {
            assert(parts_before(a, b, k));
        } else {
            assert(parts_before(b, a, k));
        }
    } else if k < b.len() {
        assert(parts_before(a, b, k));
    } else if k < a.len() {
        assert(parts_before(b, a, k));
    } else {
        assert(a =~= b) by {
            assert(a.take(k) =~= a);
            assert(b.take(k) =~= b);
        }
    }
}

/// How far two texts agree, counted from a place up to which they are known to.
proof fn lemma_agreement(a: Seq<char>, b: Seq<char>, from: int) -> (k: int)
    requires
        0 <= from <= a.len(),
        from <= b.len(),
        a.take(from) == b.take(from),
    ensures
        0 <= k <= a.len(),
        k <= b.len(),
        a.take(k) == b.take(k),
        k == a.len() || k == b.len() || a[k] != b[k],
    decreases a.len() - from,
{
    if from < a.len() && from < b.len() && a[from] == b[from] {
        assert(a.take(from + 1) =~= a.take(from).push(a[from]));
        assert(b.take(from + 1) =~= b.take(from).push(b[from]));
        lemma_agreement(a, b, from + 1)
    } else {
        from
    }
}

/// Whether `s` ends in `suffix`.
pub open spec fn ends_with(s: Seq<char>, suffix: Seq<char>) -> bool {
    suffix.len() <= s.len() && s.skip(s.len() - suffix.len()) == suffix
}

/// `s` without the copies of `suffix` that it ends in.
pub open spec fn without_suffixes(s: Seq<char>, suffix: Seq<char>) -> Seq<char>
    decreases s.len(),
{
    if suffix.len() > 0 && ends_with(s, suffix) {
        without_suffixes(s.take(s.len() - suffix.len()), suffix)
    } else {
        s
    }
}

fn ends_with_chars(s: &Vec<char>, end: usize, suffix: &Vec<char>) -> (r: bool)
    requires
        end <= s@.len(),
    ensures
        r == ends_with(s@.take(end as int), suffix@),
{
    if suffix.len() > end {
        return false;
    }
    let start: usize = end - suffix.len();
    let ghost tail = s@.take(end as int).skip(start as int);
    let mut k: usize = 0;
    while k < suffix.len() && s[start + k] == suffix[k]
        invariant
            k <= suffix@.len(),
            start + suffix@.len() == end,
            end <= s@.len(),
            tail == s@.take(end as int).skip(start as int),
            forall|j: int| 0 <= j < k ==> tail[j] == suffix@[j],
        decreases suffix@.len() - k,
    {
        assert(tail[k as int] == s@[start + k]);
        k = k + 1;
    }
    if k < suffix.len() {
        assert(tail[k as int] == s@[start + k]);
        false
    } else {
        assert(tail =~= suffix@);
        true
    }
}

/// `s` without the copies of `suffix` that it ends in.
pub fn trim_suffixes(s: &str, suffix: &str) -> (r: String)
    ensures
        r@ == without_suffixes(s@, suffix@),
{
    let c = chars_of(s);
    let x = chars_of(suffix);
    let mut end: usize = c.len();
    assert(s@.take(end as int) =~= s@);
    while x.len() > 0 && ends_with_chars(&c, end, &x)
        invariant
            c@ == s@,
            x@ == suffix@,
            end <= c@.len(),
            without_suffixes(s@.take(end as int), suffix@) == without_suffixes(s@, suffix@),
        decreases end,
    {
        proof {
            let t = s@.take(end as int);
            assert(t.take(t.len() - suffix@.len()) =~= s@.take(end - suffix@.len()));
        }
        end = end - x.len();
    }
    s.substring_char(0, end).to_owned()
}

/// `s` without one `suffix` at its end, where it has one.
pub open spec fn without_suffix(s: Seq<char>, suffix: Seq<char>) -> Seq<char> {
    if ends_with(s, suffix) {
        s.take(s.len() - suffix.len())
    } else {
        s
    }
}

/// `s` without one `suffix` at its end, where it has one.
pub fn trim_suffix(s: &str, suffix: &str) -> (r: String)
    ensures
        r@ == without_suffix(s@, suffix@),
{
    let c = chars_of(s);
    let x = chars_of(suffix);
    assert(s@.take(c@.len() as int) =~= s@);
    if ends_with_chars(&c, c.len(), &x) {
        s.substring_char(0, c.len() - x.len()).to_owned()
    } else {
        s.to_owned()
    }
}

/// The character of a decimal digit.
pub open spec fn digit_char(d: nat) -> char {
    (48 + d) as char
}

/// A number in decimal, without leading zeros.
pub open spec fn decimal(n: nat) -> Seq<char>
    decreases n,
{
    if n < 10 {
        seq![digit_char(n)]
    } else {
        decimal(n / 10).push(digit_char(n % 10))
    }
}

/// An integer in decimal, with a minus sign where it is negative.
pub open spec fn signed_decimal(n: int) -> Seq<char> {
    if n < 0 {
        seq!['-'] + decimal((-n) as nat)
    } else {
        decimal(n as nat)
    }
}

fn digit_text(d: u64) -> (r: &'static str)
    requires
        d < 10,
    ensures
        r@ == seq![digit_char(d as nat)],
{
    proof {
        reveal_strlit("0");
        reveal_strlit("1");
        reveal_strlit("2");
        reveal_strlit("3");
        reveal_strlit("4");
        reveal_strlit("5");
        reveal_strlit("6");
        reveal_strlit("7");
        reveal_strlit("8");
        reveal_strlit("9");
    }
    let r = match d {
        0 => "0",
        1 => "1",
        2 => "2",
        3 => "3",
        4 => "4",
        5 => "5",
        6 => "6",
        7 => "7",
        8 => "8",
        _ => "9",
    };
    assert(r@ =~= seq![digit_char(d as nat)]);
    r
}

/// A number in decimal.
pub fn decimal_text(n: u64) -> (r: String)
    ensures
        r@ == decimal(n as nat),
    decreases n,
{
    let mut r = if n < 10 {
        String::new()
    } else {
        decimal_text(n / 10)
    };
    r.append(digit_text(n % 10));
    assert(r@ =~= decimal(n as nat));
    r
}

/// A signed number in decimal.
pub fn signed_decimal_text(n: i64) -> (r: String)
    ensures
        r@ == signed_decimal(n as int),
{
    if n < 0 {
        proof {
            reveal_strlit("-");
        }
        let m: u64 = (-(n + 1)) as u64 + 1;
        let mut r = "-".to_owned();
        r.append(decimal_text(m).as_str());
        assert(r@ =~= signed_decimal(n as int));
        r
    } else {
        decimal_text(n as u64)
    }
}

/// A text occurs in every text that it is a part of, wherever it stands.
pub proof fn parts_are_found(before: Seq<char>, needle: Seq<char>, after: Seq<char>)
    ensures
        occurs_in(needle, before + needle + after),
{
    let hay = before + needle + after;
    assert(hay.subrange(before.len() as int, (before.len() + needle.len()) as int) =~= needle);
    assert(occurs_at(needle, hay, before.len() as int));
}

/// What is found is a part: something stands before it and something behind it.
pub proof fn what_is_found_is_a_part(needle: Seq<char>, hay: Seq<char>) -> (r: (
    Seq<char>,
    Seq<char>,
))
    requires
        occurs_in(needle, hay),
    ensures
        hay == r.0 + needle + r.1,
{
    let i = choose|i: int| #[trigger] occurs_at(needle, hay, i);
    let r = (hay.take(i), hay.skip(i + needle.len()));
    assert(hay =~= r.0 + needle + r.1) by {
        assert(hay.subrange(i, i + needle.len()) =~= needle);
        assert forall|k: int| 0 <= k < hay.len() implies hay[k] == (r.0 + needle + r.1)[k] by {
            if i <= k < i + needle.len() {
                assert(hay.subrange(i, i + needle.len())[k - i] == hay[k]);
            }
        }
    }
    r
}

/// Of two texts with the same beginning, the one that goes on with the smaller
/// character comes first, whatever follows; one that ends there comes before both.
pub proof fn first_difference_decides(
    beginning: Seq<char>,
    c: char,
    d: char,
    x: Seq<char>,
    y: Seq<char>,
)
    requires
        (c as int) < (d as int),
    ensures
        text_before(beginning.push(c) + x, beginning.push(d) + y),
        !text_before(beginning.push(d) + y, beginning.push(c) + x),
        text_before(beginning, beginning.push(c) + x),
        !text_before(beginning.push(c) + x, beginning),
        !text_before(beginning, beginning),
{
    let (a, b) = (beginning.push(c) + x, beginning.push(d) + y);
    let k = beginning.len() as int;
    assert(a.take(k) =~= b.take(k));
    assert(parts_before(a, b, k));
    assert(beginning.take(k) =~= a.take(k));
    assert(parts_before(beginning, a, k));
    lemma_one_way(a, b);
    lemma_one_way(beginning, a);
    lemma_one_way(beginning, beginning);
}

/// An ending that was put on is taken off: one of them, or all there are. A text that
/// is no other text with the ending put on stays as it is.
pub proof fn endings_come_off(s: Seq<char>, suffix: Seq<char>)
    ensures
        without_suffix(s + suffix, suffix) == s,
        suffix.len() > 0 ==> without_suffixes(s + suffix, suffix) == without_suffixes(s, suffix),
        suffix.len() == 0 ==> without_suffixes(s, suffix) == s,
        (forall|t: Seq<char>| s != #[trigger] (t + suffix)) ==> without_suffix(s, suffix) == s
            && without_suffixes(s, suffix) == s,
{
    let e = s + suffix;
    assert(e.skip(e.len() - suffix.len()) =~= suffix);
    assert(e.take(e.len() - suffix.len()) =~= s);
    if ends_with(s, suffix) {
        let t = s.take(s.len() - suffix.len());
        assert(s =~= t + suffix) by {
            assert(s.skip(s.len() - suffix.len()) =~= suffix);
            assert forall|k: int| 0 <= k < s.len() implies s[k] == (t + suffix)[k] by {
                if k >= t.len() {
                    assert(s.skip(s.len() - suffix.len())[k - t.len()] == s[k]);
                }
            }
        }
    }
}

/// A number in decimal is its digits: that of its ones stands last, behind the number
/// without its ones.
pub proof fn decimals_are_read_digit_by_digit(n: nat, ones: nat)
    requires
        ones < 10,
    ensures
        n > 0 ==> decimal(10 * n + ones) == decimal(n).push(digit_char(ones)),
        decimal(ones) == seq![digit_char(ones)],
        digit_char(ones) as int == '0' as int + ones,
        n > 0 ==> signed_decimal(-(n as int)) == seq!['-'] + decimal(n),
        signed_decimal(n as int) == decimal(n),
{
    if n > 0 {
        assert((10 * n + ones) / 10 == n);
        assert((10 * n + ones) % 10 == ones);
    }
}

/// Strings hold, one by one and in order, what they hold.
pub proof fn strings_are_read_one_by_one(v: Seq<String>, k: int)
    ensures
        texts(v).len() == v.len(),
        0 <= k < v.len() ==> texts(v)[k] == v[k]@,
{
}

} // verus!
