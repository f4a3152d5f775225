//! What the figures over frame times mean: how many values lie on either side of them.

use vstd::prelude::*;

use crate::fixed;
use crate::fixed::ONE;
use crate::stats;
use crate::stats::{ascending, is_sorted};

verus! {

/// How many values are at or below `x`.
pub open spec fn at_or_below(s: Seq<i64>, x: i64) -> nat {
    s.filter(|v: i64| v <= x).len()
}

/// How many values are at or above `x`.
pub open spec fn at_or_above(s: Seq<i64>, x: i64) -> nat {
    s.filter(|v: i64| v >= x).len()
}

/// The sum of values, one after the other.
pub open spec fn added_up(s: Seq<i64>) -> int {
    s.fold_left(0int, |total: int, v: i64| total + v)
}

/// The sum of the squares of distances from `centre`.
pub open spec fn squared_up(s: Seq<i64>, centre: int) -> int {
    s.fold_left(0int, |total: int, v: i64| total + (v - centre) * (v - centre))
}

proof fn lemma_filter_without(s: Seq<i64>, f: spec_fn(i64) -> bool, i: int)
    requires
        0 <= i < s.len(),
    ensures
        s.filter(f).len() == s.remove(i).filter(f).len() + if f(s[i]) {
            1nat
        } else {
            0nat
        },
{
    let (a, b) = (s.take(i), s.skip(i + 1));
    let one = seq![s[i]];
    assert(s =~= (a + one) + b);
    assert(s.remove(i) =~= a + b);
    Seq::filter_distributes_over_add(a + one, b, f);
    Seq::filter_distributes_over_add(a, one, f);
    Seq::filter_distributes_over_add(a, b, f);
    reveal(Seq::filter);
    assert(one.drop_last() =~= Seq::<i64>::empty());
    assert(one.drop_last().filter(f) =~= Seq::<i64>::empty());
    assert(one.filter(f).len() == if f(s[i]) {
        1nat
    } else {
        0nat
    });
}

/// Rearranged values satisfy a condition as often.
pub proof fn lemma_filter_rearranged(s: Seq<i64>, r: Seq<i64>, f: spec_fn(i64) -> bool)
    requires
        s.to_multiset() == r.to_multiset(),
    ensures
        s.filter(f).len() == r.filter(f).len(),
    decreases s.len(),
{
    broadcast use vstd::seq_lib::group_to_multiset_ensures;

    assert(s.to_multiset().len() == s.len());
    assert(r.to_multiset().len() == r.len());
    if s.len() == 0 {
        assert(s =~= r);
    } else {
        let a = s.last();
        assert(s.contains(a));
        assert(s.to_multiset().count(a) > 0);
        assert(r.contains(a));
        let i = choose|i: int| 0 <= i < r.len() && r[i] == a;
        let last = s.len() - 1;
        assert(s.remove(last).to_multiset() =~= s.to_multiset().remove(a));
        assert(r.remove(i).to_multiset() =~= r.to_multiset().remove(a));
        lemma_filter_rearranged(s.remove(last), r.remove(i), f);
        lemma_filter_without(s, f, last);
        lemma_filter_without(r, f, i);
    }
}

proof fn lemma_filter_all(s: Seq<i64>, f: spec_fn(i64) -> bool)
    requires
        forall|i: int| 0 <= i < s.len() ==> f(#[trigger] s[i]),
    ensures
        s.filter(f).len() == s.len(),
    decreases s.len(),
{
    reveal(Seq::filter);
    if s.len() > 0 {
        assert forall|i: int| 0 <= i < s.drop_last().len() implies f(#[trigger] s.drop_last()[i]) by {
            assert(s.drop_last()[i] == s[i]);
        }
        lemma_filter_all(s.drop_last(), f);
        assert(f(s[s.len() - 1]));
    }
}

/// In ascending order, a value has those before it at or below, and those after it at or
/// above.
proof fn lemma_place(r: Seq<i64>, p: int)
    requires
        is_sorted(r),
        0 <= p < r.len(),
    ensures
        at_or_below(r, r[p]) >= p + 1,
        at_or_above(r, r[p]) >= r.len() - p,
{
    let below = |v: i64| v <= r[p];
    let above = |v: i64| v >= r[p];
    let (a, b) = (r.take(p + 1), r.skip(p + 1));
    assert(r =~= a + b);
    Seq::filter_distributes_over_add(a, b, below);
    lemma_filter_all(a, below);
    let (c, d) = (r.take(p), r.skip(p));
    assert(r =~= c + d);
    Seq::filter_distributes_over_add(c, d, above);
    lemma_filter_all(d, above);
}

/// A value that has `p` of the others below it and the rest above it.
pub open spec fn is_ranked(s: Seq<i64>, x: i64, p: int) -> bool {
    &&& s.contains(x)
    &&& at_or_below(s, x) >= p + 1
    &&& at_or_above(s, x) >= s.len() - p
}

/// The value at a place of the ascending order.
pub proof fn lemma_ranked(s: Seq<i64>, p: int)
    requires
        0 <= p < s.len(),
    ensures
        ascending(s).len() == s.len(),
        is_ranked(s, ascending(s)[p], p),
{
    let r = ascending(s);
    stats::lemma_ascending_properties(s);
    lemma_place(r, p);
    let x = r[p];
    assert(r.contains(x));
    lemma_filter_rearranged(s, r, |v: i64| v <= x);
    lemma_filter_rearranged(s, r, |v: i64| v >= x);
}

/// A percentile is the value nearest to that part of the way from the smallest to the
/// largest, the later one of two that are as near: so many of the others are at or below
/// it, and the rest at or above.
pub proof fn law_percentile_divides_the_values(s: Seq<i64>, q: int)
    requires
        s.len() > 0,
        0 <= q <= ONE,
    ensures
        exists|p: int|
            #![trigger is_ranked(s, stats::percentile_of(ascending(s), q), p)]
            {
                &&& 0 <= p < s.len()
                &&& -ONE < 2 * (1_000_000 * p - (s.len() - 1) * q) <= ONE
                &&& is_ranked(s, stats::percentile_of(ascending(s), q), p)
            },
{
    let n = s.len() - 1;
    let p = fixed::round_quot(n * q, ONE as int);
    assert(0 * 1_000_000 <= n * q <= n * 1_000_000) by (nonlinear_arith)
        requires
            0 <= n,
            0 <= q <= 1_000_000,
    ;
    fixed::lemma_round_between(n * q, ONE as int, 0, n);
    assert(2 * (n * q) + 1_000_000 == 2_000_000 * p + (2 * (n * q) + 1_000_000) % 2_000_000);
    lemma_ranked(s, p);
    assert(stats::percentile_of(ascending(s), q) == ascending(s)[p]);
    assert(is_ranked(s, stats::percentile_of(ascending(s), q), p));
}

/// Of an ascending sequence a percentile is the value at the nearest place.
pub proof fn law_percentile_takes_the_nearest_place(r: Seq<i64>, q: int)
    requires
        r.len() > 0,
        0 <= q <= ONE,
    ensures
        exists|p: int|
            #![trigger r[p]]
            {
                &&& 0 <= p < r.len()
                &&& -ONE < 2 * (1_000_000 * p - (r.len() - 1) * q) <= ONE
                &&& stats::percentile_of(r, q) == r[p]
            },
{
    let n = r.len() - 1;
    let p = fixed::round_quot(n * q, ONE as int);
    assert(0 * 1_000_000 <= n * q <= n * 1_000_000) by (nonlinear_arith)
        requires
            0 <= n,
            0 <= q <= 1_000_000,
    ;
    fixed::lemma_round_between(n * q, ONE as int, 0, n);
    assert(2 * (n * q) + 1_000_000 == 2_000_000 * p + (2 * (n * q) + 1_000_000) % 2_000_000);
    assert(stats::percentile_of(r, q) == r[p]);
}

/// The median has at least half of the others on either side.
pub proof fn law_median_halves_the_values(s: Seq<i64>)
    requires
        s.len() > 0,
    ensures
        s.contains(stats::median_of(s)),
        2 * at_or_below(s, stats::median_of(s)) >= s.len() + 1,
        2 * at_or_above(s, stats::median_of(s)) >= s.len(),
{
    law_percentile_divides_the_values(s, 500_000);
}

/// Rare stalls do not show in the 99th percentile: where fewer than one in a hundred of the
/// others are above `x`, by half a value, it is not above `x` either.
pub proof fn law_rare_stalls_do_not_reach_the_99th_percentile(s: Seq<i64>, x: i64)
    requires
        s.len() > 0,
        100 * (s.len() - at_or_below(s, x)) + 50 < s.len() - 1,
    ensures
        stats::percentile_of(ascending(s), 990_000) <= x,
{
    law_percentile_divides_the_values(s, 990_000);
    let y = stats::percentile_of(ascending(s), 990_000);
    if y > x {
        lemma_disjoint(s, x, y);
    }
}

proof fn lemma_disjoint(s: Seq<i64>, x: i64, y: i64)
    requires
        x < y,
    ensures
        at_or_below(s, x) + at_or_above(s, y) <= s.len(),
    decreases s.len(),
{
    reveal(Seq::filter);
    if s.len() > 0 {
        lemma_disjoint(s.drop_last(), x, y);
    }
}

/// The sum is the values added up.
pub proof fn lemma_sum_adds_up(s: Seq<i64>)
    ensures
        stats::sum(s) == added_up(s),
    decreases s.len(),
{
    reveal(Seq::fold_left);
    if s.len() > 0 {
        lemma_sum_adds_up(s.drop_last());
    }
}

/// The spread is the squared distances added up.
pub proof fn lemma_spread_adds_up(s: Seq<i64>, centre: int)
    ensures
        stats::spread(s, centre) == squared_up(s, centre),
    decreases s.len(),
{
    reveal(Seq::fold_left);
    if s.len() > 0 {
        lemma_spread_adds_up(s.drop_last(), centre);
    }
}

/// The mean is what the sum divides into, within one half.
pub proof fn law_mean_is_the_share_of_the_sum(s: Seq<i64>)
    requires
        s.len() > 0,
    ensures
        -(s.len() as int) <= 2 * (stats::mean_of(s) * s.len() - added_up(s)) <= s.len(),
{
    lemma_sum_adds_up(s);
    fixed::lemma_nearest(stats::sum(s), s.len() as int);
}

} // verus!
