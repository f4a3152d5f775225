//! Order statistics over frame times.

use vstd::prelude::*;

use crate::fixed;
use crate::fixed::{round_div, ONE};

verus! {

pub open spec fn at_most() -> spec_fn(i64, i64) -> bool {
    |a: i64, b: i64| a <= b
}

/// The values of `s`, smallest first.
pub open spec fn ascending(s: Seq<i64>) -> Seq<i64> {
    s.sort_by(at_most())
}

pub open spec fn is_sorted(s: Seq<i64>) -> bool {
    forall|i: int, j: int| 0 <= i <= j < s.len() ==> s[i] <= s[j]
}

/// A sorted rearrangement of `s` is `ascending(s)`.
proof fn lemma_ascending(s: Seq<i64>, r: Seq<i64>)
    requires
        is_sorted(r),
        r.to_multiset() == s.to_multiset(),
    ensures
        r == ascending(s),
        r.len() == s.len(),
{
    broadcast use vstd::seq_lib::group_to_multiset_ensures;

    assert(vstd::relations::sorted_by(r, at_most()));
    s.lemma_sort_by_ensures(at_most());
    vstd::seq_lib::lemma_sorted_unique(r, ascending(s), at_most());
    assert(s.to_multiset().len() == s.len());
    assert(r.to_multiset().len() == r.len());
}

/// `ascending(s)` is sorted and holds the values of `s`.
pub proof fn lemma_ascending_properties(s: Seq<i64>)
    ensures
        is_sorted(ascending(s)),
        ascending(s).len() == s.len(),
        ascending(s).to_multiset() == s.to_multiset(),
        forall|x: i64| ascending(s).contains(x) <==> s.contains(x),
{
    broadcast use vstd::seq_lib::group_to_multiset_ensures;

    s.lemma_sort_by_ensures(at_most());
    let r = ascending(s);
    assert(s.to_multiset().len() == s.len());
    assert(r.to_multiset().len() == r.len());
    assert forall|i: int, j: int| 0 <= i <= j < r.len() implies r[i] <= r[j] by {
        if i < j {
            assert(at_most()(r[i], r[j]));
        }
    }
    assert forall|x: i64| r.contains(x) <==> s.contains(x) by {
        assert(r.contains(x) <==> r.to_multiset().count(x) > 0);
        assert(s.contains(x) <==> s.to_multiset().count(x) > 0);
    }
}

fn merge(a: &Vec<i64>, b: &Vec<i64>) -> (out: Vec<i64>)
    requires
        is_sorted(a@),
        is_sorted(b@),
        a@.len() + b@.len() <= usize::MAX,
    ensures
        is_sorted(out@),
        out@.to_multiset() == a@.to_multiset().add(b@.to_multiset()),
{
    broadcast use vstd::seq_lib::group_to_multiset_ensures;

    let mut out: Vec<i64> = Vec::new();
    let mut i: usize = 0;
    let mut j: usize = 0;
    assert(a@.take(0) =~= Seq::empty());
    assert(b@.take(0) =~= Seq::empty());
    assert(out@.to_multiset() =~= a@.take(0).to_multiset().add(b@.take(0).to_multiset()));
    while i < a.len() || j < b.len()
        invariant
            i <= a@.len(),
            j <= b@.len(),
            a@.len() + b@.len() <= usize::MAX,
            is_sorted(a@),
            is_sorted(b@),
            is_sorted(out@),
            out@.to_multiset() == a@.take(i as int).to_multiset().add(
                b@.take(j as int).to_multiset(),
            ),
            forall|k: int, l: int| 0 <= k < out@.len() && i <= l < a@.len() ==> out@[k] <= a@[l],
            forall|k: int, l: int| 0 <= k < out@.len() && j <= l < b@.len() ==> out@[k] <= b@[l],
        decreases a@.len() - i + b@.len() - j,
    {
        broadcast use vstd::seq_lib::group_to_multiset_ensures;

        let take_a: bool = j >= b.len() || (i < a.len() && a[i] <= b[j]);
        if take_a {
            assert(a@.take(i + 1) =~= a@.take(i as int).push(a@[i as int]));
            out.push(a[i]);
            i = i + 1;
        } else {
            assert(b@.take(j + 1) =~= b@.take(j as int).push(b@[j as int]));
            out.push(b[j]);
            j = j + 1;
        }
        assert(out@.to_multiset() =~= a@.take(i as int).to_multiset().add(
            b@.take(j as int).to_multiset(),
        ));
    }
    assert(a@.take(i as int) =~= a@);
    assert(b@.take(j as int) =~= b@);
    out
}

fn merge_sort(v: &Vec<i64>, lo: usize, hi: usize) -> (out: Vec<i64>)
    requires
        lo <= hi <= v@.len(),
    ensures
        is_sorted(out@),
        out@.to_multiset() == v@.subrange(lo as int, hi as int).to_multiset(),
        out@.len() == hi - lo,
    decreases hi - lo,
{
    broadcast use vstd::seq_lib::group_to_multiset_ensures;

    let ghost part = v@.subrange(lo as int, hi as int);
    let out = if hi - lo <= 1 {
        let mut out: Vec<i64> = Vec::new();
        if lo < hi {
            out.push(v[lo]);
        }
        assert(out@ =~= part);
        out
    } else {
        let mid: usize = lo + (hi - lo) / 2;
        let left = merge_sort(v, lo, mid);
        let right = merge_sort(v, mid, hi);
        let out = merge(&left, &right);
        assert(part =~= v@.subrange(lo as int, mid as int) + v@.subrange(mid as int, hi as int));
        proof {
            vstd::seq_lib::lemma_multiset_commutative(
                v@.subrange(lo as int, mid as int),
                v@.subrange(mid as int, hi as int),
            );
        }
        out
    };
    proof {
        lemma_ascending(part, out@);
    }
    out
}

/// The values of `v`, smallest first.
pub fn sorted(v: &Vec<i64>) -> (out: Vec<i64>)
    ensures
        out@ == ascending(v@),
        is_sorted(out@),
        out@.len() == v@.len(),
{
    let out = merge_sort(v, 0, v.len());
    proof {
        assert(v@.subrange(0, v@.len() as int) =~= v@);
        lemma_ascending(v@, out@);
    }
    out
}

/// Position of the percentile `q` (fixed-point, one is the maximum) among `len`
/// sorted values: the nearest one, halves up; a `q` out of range takes an end.
pub open spec fn percentile_index(len: int, q: int) -> int {
    fixed::within(fixed::round_quot((len - 1) * q, ONE as int), 0, len - 1)
}

/// The percentile `q` of a sequence in ascending order; zero of none.
pub open spec fn percentile_of(s: Seq<i64>, q: int) -> i64 {
    if s.len() == 0 {
        0
    } else {
        s[percentile_index(s.len() as int, q)]
    }
}

/// Percentile `q` of an ascending sequence.
pub fn percentile(sorted: &Vec<i64>, q: i64) -> (value: i64)
    ensures
        value == percentile_of(sorted@, q as int),
{
    if sorted.len() == 0 {
        return 0;
    }
    let last: i128 = (sorted.len() - 1) as i128;
    proof {
        assert(-0x7fff_ffff_ffff_ffff_ffff_ffff_ffff_ffff <= last * q
            <= 0x7fff_ffff_ffff_ffff_ffff_ffff_ffff_ffff) by (nonlinear_arith)
            requires
                0 <= last < 0xffff_ffff_ffff_ffff,
                -0x8000_0000_0000_0000 <= q <= 0x7fff_ffff_ffff_ffff,
        ;
    }
    let nearest: i128 = round_div(last * q as i128, ONE);
    let index: usize = if nearest < 0 {
        0
    } else if nearest > last {
        sorted.len() - 1
    } else {
        nearest as usize
    };
    sorted[index]
}

/// The median of values in any order.
pub open spec fn median_of(s: Seq<i64>) -> i64 {
    percentile_of(ascending(s), 500_000)
}

/// Median of values in any order; zero of none.
pub fn p50_of(v: &Vec<i64>) -> (value: i64)
    ensures
        value == median_of(v@),
{
    percentile(&sorted(v), 500_000)
}

/// A higher percentile is never below a lower one.
pub proof fn law_percentiles_are_ordered(s: Seq<i64>, p: int, q: int)
    requires
        p <= q,
    ensures
        percentile_of(ascending(s), p) <= percentile_of(ascending(s), q),
{
    lemma_ascending_properties(s);
    if s.len() > 0 {
        let n = s.len() - 1;
        assert(n * p <= n * q) by (nonlinear_arith)
            requires
                p <= q,
                n >= 0,
        ;
        lemma_round_monotone(n * p, n * q, ONE as int);
    }
}

/// A percentile is one of the values, so it lies between the smallest and the largest.
pub proof fn law_percentile_is_a_value(s: Seq<i64>, q: int)
    requires
        s.len() > 0,
    ensures
        s.contains(percentile_of(ascending(s), q)),
        ascending(s)[0] <= percentile_of(ascending(s), q) <= ascending(s)[s.len() - 1],
        percentile_of(ascending(s), 0) == ascending(s)[0],
        percentile_of(ascending(s), ONE as int) == ascending(s)[s.len() - 1],
{
    lemma_ascending_properties(s);
    let r = ascending(s);
    let i = percentile_index(s.len() as int, q);
    assert(r.contains(r[i]));
    let n = s.len() - 1;
    fixed::lemma_round_exact(0, ONE as int);
    fixed::lemma_round_exact(n, ONE as int);
    assert(0 * ONE == n * 0);
}

proof fn lemma_round_monotone(a: int, b: int, d: int)
    requires
        a <= b,
        d > 0,
    ensures
        fixed::round_quot(a, d) <= fixed::round_quot(b, d),
{
    if a >= 0 {
        vstd::arithmetic::div_mod::lemma_div_is_ordered(2 * a + d, 2 * b + d, 2 * d);
    } else if b < 0 {
        vstd::arithmetic::div_mod::lemma_div_is_ordered(2 * (-b) + d, 2 * (-a) + d, 2 * d);
    } else {
        vstd::arithmetic::div_mod::lemma_div_pos_is_pos(2 * (-a) + d, 2 * d);
        vstd::arithmetic::div_mod::lemma_div_pos_is_pos(2 * b + d, 2 * d);
    }
}

pub open spec fn sum(s: Seq<i64>) -> int
    decreases s.len(),
{
    if s.len() == 0 {
        0
    } else {
        sum(s.drop_last()) + s.last()
    }
}

/// The sum of values.
pub fn sum_of(values: &Vec<i64>) -> (total: i128)
    ensures
        total == sum(values@),
        values@.len() * i64::MIN <= total <= values@.len() * i64::MAX,
{
    let mut total: i128 = 0;
    let mut i: usize = 0;
    assert(values@.take(0) =~= Seq::empty());
    while i < values.len()
        invariant
            i <= values@.len(),
            total == sum(values@.take(i as int)),
            i * i64::MIN <= total <= i * i64::MAX,
        decreases values@.len() - i,
    {
        assert(values@.take(i + 1).drop_last() =~= values@.take(i as int));
        assert(i * i64::MAX + i64::MAX <= i128::MAX && i * i64::MIN + i64::MIN > i128::MIN)
            by (nonlinear_arith)
            requires
                0 <= i < 0xffff_ffff_ffff_ffff,
        ;
        total = total + values[i] as i128;
        i = i + 1;
    }
    assert(values@.take(i as int) =~= values@);
    total
}

/// The mean, rounded; zero of none.
pub open spec fn mean_of(s: Seq<i64>) -> int {
    if s.len() == 0 {
        0
    } else {
        fixed::round_quot(sum(s), s.len() as int)
    }
}

/// Sum of the squared deviations from `centre`.
pub open spec fn spread(s: Seq<i64>, centre: int) -> int
    decreases s.len(),
{
    if s.len() == 0 {
        0
    } else {
        spread(s.drop_last(), centre) + (s.last() - centre) * (s.last() - centre)
    }
}

/// `r` is the whole part of the square root of `v`.
pub open spec fn is_root(r: int, v: int) -> bool {
    0 <= r && r * r <= v < (r + 1) * (r + 1)
}

/// The whole part of a square root.
pub fn isqrt(v: u128) -> (r: u64)
    ensures
        is_root(r as int, v as int),
{
    let mut lo: u128 = 0;
    let mut hi: u128 = 0x1_0000_0000_0000_0000;
    assert(0x1_0000_0000_0000_0000int * 0x1_0000_0000_0000_0000int > u128::MAX)
        by (nonlinear_arith);
    while hi - lo > 1
        invariant
            lo < hi <= 0x1_0000_0000_0000_0000,
            lo * lo <= v < hi * hi,
        decreases hi - lo,
    {
        let mid: u128 = lo + (hi - lo) / 2;
        assert(mid * mid <= u128::MAX) by (nonlinear_arith)
            requires
                0 <= mid <= 0xffff_ffff_ffff_ffff,
        ;
        if mid * mid <= v {
            lo = mid;
        } else {
            hi = mid;
        }
    }
    assert(hi == lo + 1);
    lo as u64
}

/// There is only one whole part of a square root.
pub proof fn lemma_root_is_unique(a: int, b: int, v: int)
    requires
        is_root(a, v),
        is_root(b, v),
    ensures
        a == b,
{
    if a < b {
        assert((a + 1) * (a + 1) <= b * b) by (nonlinear_arith)
            requires
                0 <= a + 1 <= b,
        ;
    } else if b < a {
        assert((b + 1) * (b + 1) <= a * a) by (nonlinear_arith)
            requires
                0 <= b + 1 <= a,
        ;
    }
}

proof fn lemma_spread_grows(s: Seq<i64>, centre: int, i: int)
    requires
        0 <= i <= s.len(),
    ensures
        0 <= spread(s.take(i), centre) <= spread(s, centre),
    decreases s.len() - i,
{
    lemma_spread_positive(s.take(i), centre);
    if i == s.len() {
        assert(s.take(i) =~= s);
    } else {
        lemma_spread_grows(s, centre, i + 1);
        assert(s.take(i + 1).drop_last() =~= s.take(i));
        let d = s[i] - centre;
        assert(d * d >= 0) by (nonlinear_arith);
    }
}

proof fn lemma_spread_positive(s: Seq<i64>, centre: int)
    ensures
        spread(s, centre) >= 0,
    decreases s.len(),
{
    if s.len() > 0 {
        lemma_spread_positive(s.drop_last(), centre);
        let d = s.last() - centre;
        assert(d * d >= 0) by (nonlinear_arith);
    }
}

/// Sum of the squared deviations from `centre`, where it fits.
pub fn spread_of(values: &Vec<i64>, centre: i64) -> (total: i128)
    requires
        spread(values@, centre as int) <= i128::MAX,
    ensures
        total == spread(values@, centre as int),
        total >= 0,
{
    let mut total: i128 = 0;
    let mut i: usize = 0;
    assert(values@.take(0) =~= Seq::empty());
    while i < values.len()
        invariant
            i <= values@.len(),
            total == spread(values@.take(i as int), centre as int),
            0 <= total,
            spread(values@, centre as int) <= i128::MAX,
        decreases values@.len() - i,
    {
        let d: i128 = values[i] as i128 - centre as i128;
        proof {
            assert(values@.take(i + 1).drop_last() =~= values@.take(i as int));
            lemma_spread_grows(values@, centre as int, i + 1);
            assert(d * d >= 0) by (nonlinear_arith);
        }
        total = total + d * d;
        i = i + 1;
    }
    assert(values@.take(i as int) =~= values@);
    total
}

/// The mean of values in a range lies in that range.
pub proof fn lemma_mean_within(s: Seq<i64>, lo: int, hi: int)
    requires
        s.len() > 0,
        forall|i: int| 0 <= i < s.len() ==> lo <= #[trigger] s[i] <= hi,
    ensures
        lo <= mean_of(s) <= hi,
        s.len() * lo <= sum(s) <= s.len() * hi,
{
    lemma_sum_within(s, lo, hi);
    let n = s.len() as int;
    assert(lo * n == n * lo && hi * n == n * hi) by (nonlinear_arith);
    fixed::lemma_round_between(sum(s), n, lo, hi);
}

proof fn lemma_sum_within(s: Seq<i64>, lo: int, hi: int)
    requires
        forall|i: int| 0 <= i < s.len() ==> lo <= #[trigger] s[i] <= hi,
    ensures
        s.len() * lo <= sum(s) <= s.len() * hi,
    decreases s.len(),
{
    if s.len() > 0 {
        let rest = s.drop_last();
        assert forall|i: int| 0 <= i < rest.len() implies lo <= #[trigger] rest[i] <= hi by {
            assert(rest[i] == s[i]);
        }
        lemma_sum_within(rest, lo, hi);
        let n = s.len() as int;
        assert(lo <= s[n - 1] <= hi);
        assert((n - 1) * lo + lo == n * lo && (n - 1) * hi + hi == n * hi) by (nonlinear_arith);
    }
}

/// Values at the centre do not spread.
pub proof fn lemma_no_spread(s: Seq<i64>, centre: int)
    requires
        forall|i: int| 0 <= i < s.len() ==> s[i] == centre,
    ensures
        spread(s, centre) == 0,
    decreases s.len(),
{
    if s.len() > 0 {
        lemma_no_spread(s.drop_last(), centre);
        assert(0int * 0int == 0) by (nonlinear_arith);
        assert(s.last() - centre == 0);
    }
}

/// Values no further than `reach` from the centre spread by no more than its square
/// each.
pub proof fn lemma_spread_bound(s: Seq<i64>, centre: int, reach: int)
    requires
        reach >= 0,
        forall|i: int| 0 <= i < s.len() ==> centre - reach <= #[trigger] s[i] <= centre + reach,
    ensures
        spread(s, centre) <= s.len() * (reach * reach),
    decreases s.len(),
{
    if s.len() > 0 {
        let rest = s.drop_last();
        assert forall|i: int| 0 <= i < rest.len() implies centre - reach <= #[trigger] rest[i]
            <= centre + reach by {
            assert(rest[i] == s[i]);
        }
        lemma_spread_bound(rest, centre, reach);
        let n = s.len() as int;
        let d = s[n - 1] - centre;
        assert(d * d <= reach * reach) by (nonlinear_arith)
            requires
                -reach <= d <= reach,
        ;
        let sq = reach * reach;
        assert((n - 1) * sq + sq == n * sq) by (nonlinear_arith);
    }
}

/// A root is the only number whose square is not above the value while that of the next
/// one is.
pub proof fn law_root_is_the_last_that_fits(r: int, v: int, x: int)
    requires
        is_root(r, v),
        x >= 0,
    ensures
        r >= 0,
        x * x <= v <==> x <= r,
{
    assert(x <= r ==> x * x <= r * r) by (nonlinear_arith)
        requires
            0 <= x,
            0 <= r,
    ;
    assert(x >= r + 1 ==> x * x >= (r + 1) * (r + 1)) by (nonlinear_arith)
        requires
            0 <= x,
            0 <= r,
    ;
}

} // verus!
