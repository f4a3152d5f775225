//! Fixed-point quantities and the integer divisions behind them.
//!
//! Rates (frames per second, hertz) and durations (microseconds) are integers
//! with six decimals: the value `x` stands for `x / 1_000_000`. A duration is
//! thus counted in picoseconds, a rate in microhertz.

use vstd::prelude::*;

verus! {

/// The fixed-point value of one.
pub const ONE: i128 = 1_000_000;

/// Fixed-point microseconds in one second.
pub const SECOND_US: i128 = 1_000_000_000_000;

/// `x` brought into the range of `i64`.
pub open spec fn sat64(x: int) -> int {
    if x < i64::MIN {
        i64::MIN as int
    } else if x > i64::MAX {
        i64::MAX as int
    } else {
        x
    }
}

/// The smallest integer that is not below `a / b`, for a positive `b`.
pub open spec fn ceil_quot(a: int, b: int) -> int {
    -((-a) / b)
}

/// The integer nearest to `a / b`, halves away from zero, for a positive `b`.
pub open spec fn round_quot(a: int, b: int) -> int {
    if a >= 0 {
        (2 * a + b) / (2 * b)
    } else {
        -((2 * (-a) + b) / (2 * b))
    }
}

/// `x` brought into `lo..=hi`.
pub open spec fn within(x: int, lo: int, hi: int) -> int {
    if x < lo {
        lo
    } else if x > hi {
        hi
    } else {
        x
    }
}

/// Saturating conversion to `i64`.
pub fn clamp_i64(x: i128) -> (r: i64)
    ensures
        r == sat64(x as int),
{
    if x < -0x8000_0000_0000_0000i128 {
        i64::MIN
    } else if x > 0x7fff_ffff_ffff_ffffi128 {
        i64::MAX
    } else {
        x as i64
    }
}

/// Largest integer that is not above `a / b`.
pub fn floor_div(a: i128, b: i128) -> (q: i128)
    requires
        b > 0,
        a > i128::MIN,
    ensures
        q == (a as int) / (b as int),
{
    if a >= 0 {
        proof {
            lemma_quot_bounds(a as int, b as int);
        }
        a / b
    } else {
        let m: i128 = -(a + 1);
        proof {
            lemma_quot_bounds(m as int, b as int);
            lemma_floor_of_negative(m as int, b as int);
        }
        -(m / b) - 1
    }
}

/// Smallest integer that is not below `a / b`.
pub fn ceil_div(a: i128, b: i128) -> (q: i128)
    requires
        b > 0,
        a > i128::MIN + 1,
    ensures
        q == ceil_quot(a as int, b as int),
{
    let f: i128 = floor_div(-a, b);
    proof {
        lemma_quot_within(-(a as int), b as int);
    }
    -f
}

/// Integer nearest to `a / b`, halves away from zero.
pub fn round_div(a: i128, b: i128) -> (q: i128)
    requires
        b > 0,
        a > i128::MIN,
    ensures
        q == round_quot(a as int, b as int),
{
    let m: i128 = if a >= 0 { a } else { -a };
    let f: i128 = m / b;
    let r: i128 = m % b;
    proof {
        lemma_quot_bounds(m as int, b as int);
        lemma_round_up_or_down(m as int, b as int);
    }
    let n: i128 = if r >= b - r { f + 1 } else { f };
    if a >= 0 { n } else { -n }
}

proof fn lemma_quot_bounds(a: int, b: int)
    requires
        a >= 0,
        b > 0,
    ensures
        0 <= a / b <= a,
        0 <= a % b < b,
        a == b * (a / b) + a % b,
        b > 1 && a > 0 ==> a / b < a,
        b == 1 ==> a % b == 0,
{
    vstd::arithmetic::div_mod::lemma_fundamental_div_mod(a, b);
    vstd::arithmetic::div_mod::lemma_div_nonincreasing(a, b);
    vstd::arithmetic::div_mod::lemma_div_pos_is_pos(a, b);
    vstd::arithmetic::div_mod::lemma_mod_bound(a, b);
    if b > 1 && a > 0 {
        vstd::arithmetic::div_mod::lemma_div_decreases(a, b);
    }
}

proof fn lemma_quot_within(a: int, b: int)
    requires
        b > 0,
    ensures
        a >= 0 ==> 0 <= a / b <= a,
        a < 0 ==> a <= a / b < 0,
{
    vstd::arithmetic::div_mod::lemma_fundamental_div_mod(a, b);
    vstd::arithmetic::div_mod::lemma_mod_bound(a, b);
    let q = a / b;
    let r = a % b;
    if a >= 0 {
        lemma_quot_bounds(a, b);
    } else {
        assert(a <= q && q < 0) by (nonlinear_arith)
            requires
                a == b * q + r,
                0 <= r < b,
                a < 0,
                b > 0,
        ;
    }
}

proof fn lemma_floor_of_negative(m: int, b: int)
    requires
        m >= 0,
        b > 0,
    ensures
        (-(m + 1)) / b == -(m / b) - 1,
{
    vstd::arithmetic::div_mod::lemma_fundamental_div_mod(m, b);
    vstd::arithmetic::div_mod::lemma_mod_bound(m, b);
    let q = m / b;
    let r = m % b;
    assert(-(m + 1) == (-q - 1) * b + (b - 1 - r)) by (nonlinear_arith)
        requires
            m == b * q + r,
    ;
    vstd::arithmetic::div_mod::lemma_fundamental_div_mod_converse(-(m + 1), b, -q - 1, b - 1 - r);
}

proof fn lemma_round_up_or_down(m: int, b: int)
    requires
        m >= 0,
        b > 0,
    ensures
        (2 * m + b) / (2 * b) == if m % b >= b - m % b {
            m / b + 1
        } else {
            m / b
        },
{
    vstd::arithmetic::div_mod::lemma_fundamental_div_mod(m, b);
    vstd::arithmetic::div_mod::lemma_mod_bound(m, b);
    let q = m / b;
    let r = m % b;
    if r >= b - r {
        assert(2 * m + b == (q + 1) * (2 * b) + (2 * r - b)) by (nonlinear_arith)
            requires
                m == b * q + r,
        ;
        vstd::arithmetic::div_mod::lemma_fundamental_div_mod_converse(
            2 * m + b,
            2 * b,
            q + 1,
            2 * r - b,
        );
    } else {
        assert(2 * m + b == q * (2 * b) + (2 * r + b)) by (nonlinear_arith)
            requires
                m == b * q + r,
        ;
        vstd::arithmetic::div_mod::lemma_fundamental_div_mod_converse(
            2 * m + b,
            2 * b,
            q,
            2 * r + b,
        );
    }
}

/// `round_quot` lies between the bounds of the quotient.
pub proof fn lemma_round_between(a: int, b: int, lo: int, hi: int)
    requires
        b > 0,
        lo * b <= a <= hi * b,
    ensures
        lo <= round_quot(a, b) <= hi,
{
    if a >= 0 {
        let n = 2 * a + b;
        let q = n / (2 * b);
        let r = n % (2 * b);
        vstd::arithmetic::div_mod::lemma_fundamental_div_mod(n, 2 * b);
        vstd::arithmetic::div_mod::lemma_mod_bound(n, 2 * b);
        assert(lo <= q <= hi) by (nonlinear_arith)
            requires
                2 * a + b == (2 * b) * q + r,
                0 <= r < 2 * b,
                lo * b <= a <= hi * b,
                b > 0,
        ;
    } else {
        let n = 2 * (-a) + b;
        let q = n / (2 * b);
        let r = n % (2 * b);
        vstd::arithmetic::div_mod::lemma_fundamental_div_mod(n, 2 * b);
        vstd::arithmetic::div_mod::lemma_mod_bound(n, 2 * b);
        assert(lo <= -q <= hi) by (nonlinear_arith)
            requires
                2 * (-a) + b == (2 * b) * q + r,
                0 <= r < 2 * b,
                lo * b <= a <= hi * b,
                b > 0,
        ;
    }
}

/// `round_quot` errs by at most one half.
pub proof fn lemma_nearest(a: int, b: int)
    requires
        b > 0,
    ensures
        -b <= 2 * (round_quot(a, b) * b - a) <= b,
{
    let m: int = if a >= 0 {
        a
    } else {
        -a
    };
    let n = 2 * m + b;
    let q = n / (2 * b);
    let r = n % (2 * b);
    vstd::arithmetic::div_mod::lemma_fundamental_div_mod(n, 2 * b);
    vstd::arithmetic::div_mod::lemma_mod_bound(n, 2 * b);
    assert(-b <= 2 * (q * b - m) <= b && q * b == -((-q) * b)) by (nonlinear_arith)
        requires
            2 * m + b == (2 * b) * q + r,
            0 <= r < 2 * b,
    ;
}

/// A quotient that is whole is not rounded.
pub proof fn lemma_round_exact(x: int, b: int)
    requires
        b > 0,
    ensures
        round_quot(x * b, b) == x,
{
    lemma_round_between(x * b, b, x, x);
}

/// Rounding takes the nearest number, of two that are as near the one that is farther from
/// zero, and treats both signs alike.
pub proof fn law_halves_go_away_from_zero(a: int, b: int)
    requires
        b > 0,
    ensures
        a >= 0 ==> -b < 2 * (round_quot(a, b) * b - a) <= b,
        a <= 0 ==> -b <= 2 * (round_quot(a, b) * b - a) < b,
        round_quot(-a, b) == -round_quot(a, b),
{
    let m: int = if a >= 0 {
        a
    } else {
        -a
    };
    let n = 2 * m + b;
    let q = n / (2 * b);
    let r = n % (2 * b);
    vstd::arithmetic::div_mod::lemma_fundamental_div_mod(n, 2 * b);
    vstd::arithmetic::div_mod::lemma_mod_bound(n, 2 * b);
    assert(2 * (q * b) == n - r && (-q) * b == -(q * b)) by (nonlinear_arith)
        requires
            n == 2 * b * q + r,
    ;
    if a == 0 {
        lemma_round_exact(0, b);
        assert(0 * b == 0);
    }
}

/// The number above a quotient is the first that covers it.
pub proof fn law_ceiling_is_the_first_that_covers(a: int, b: int)
    requires
        b > 0,
    ensures
        (ceil_quot(a, b) - 1) * b < a <= ceil_quot(a, b) * b,
{
    let q = (-a) / b;
    let r = (-a) % b;
    vstd::arithmetic::div_mod::lemma_fundamental_div_mod(-a, b);
    vstd::arithmetic::div_mod::lemma_mod_bound(-a, b);
    assert((-q) * b == a + r && (-q - 1) * b == a + r - b) by (nonlinear_arith)
        requires
            -a == b * q + r,
    ;
}

/// What fits is kept, and what does not becomes the nearest that does.
pub proof fn law_bounds_take_the_nearest(x: int, lo: int, hi: int)
    requires
        lo <= hi,
    ensures
        lo <= within(x, lo, hi) <= hi,
        lo <= x <= hi ==> within(x, lo, hi) == x,
        x <= lo ==> within(x, lo, hi) == lo,
        x >= hi ==> within(x, lo, hi) == hi,
        i64::MIN <= x <= i64::MAX ==> sat64(x) == x,
        x >= i64::MAX ==> sat64(x) == i64::MAX,
        x <= i64::MIN ==> sat64(x) == i64::MIN,
{
}

} // verus!
