//! What holds of the camera, its projections and the generated frames as a whole.

use vstd::prelude::*;

use crate::fixed;
use crate::warp::config::{AifSharedHeader, WarpConfig};
use crate::warp::demo;
use crate::warp::demo::Camera;
use crate::warp::engine;
use crate::warp::engine::{FrameClock, WarpMotion};
use crate::warp::math;
use crate::warp::math::{is_small, Mat3, Vec3, ViewPoint};
use crate::warp::presenter;
use crate::warp::presenter::Presenter;

verus! {

/// A whole number nearest to a quotient.
pub open spec fn is_nearest(q: int, a: int, b: int) -> bool {
    -b <= 2 * (q * b - a) <= b
}

/// A 64-bit number nearest to a quotient, as far as there is one.
pub open spec fn is_rounded(q: int, a: int, b: int) -> bool {
    ||| is_nearest(q, a, b)
    ||| q == i64::MAX && 2 * a >= (2 * i64::MAX + 1) * b
    ||| q == i64::MIN && 2 * a <= (2 * i64::MIN - 1) * b
}

proof fn lemma_rounded(a: int, b: int)
    requires
        b > 0,
    ensures
        is_rounded(fixed::sat64(fixed::round_quot(a, b)), a, b),
{
    let q = fixed::round_quot(a, b);
    fixed::lemma_nearest(a, b);
    if q > i64::MAX {
        assert((2 * i64::MAX + 1) * b <= 2 * (q * b) - b) by (nonlinear_arith)
            requires
                i64::MAX + 1 <= q,
                b > 0,
        ;
    }
    if q < i64::MIN {
        assert((2 * i64::MIN - 1) * b >= 2 * (q * b) + b) by (nonlinear_arith)
            requires
                q <= i64::MIN - 1,
                b > 0,
        ;
    }
}

proof fn lemma_bounded(a: int, b: int, m: int, n: int)
    requires
        -m <= a <= m,
        -n <= b <= n,
    ensures
        -(m * n) <= a * b <= m * n,
{
    assert(-(m * n) <= a * b <= m * n) by (nonlinear_arith)
        requires
            -m <= a <= m,
            -n <= b <= n,
    ;
}

/// Every coordinate of a turned vector is the scalar product with a row of the matrix.
pub proof fn law_rows_are_multiplied(m: Mat3, v: Vec3)
    ensures
        ({
            let t = m.applied(v);
            &&& is_rounded(
                t.x as int,
                m.r0.x * v.x + m.r0.y * v.y + m.r0.z * v.z,
                1_000_000,
            )
            &&& is_rounded(
                t.y as int,
                m.r1.x * v.x + m.r1.y * v.y + m.r1.z * v.z,
                1_000_000,
            )
            &&& is_rounded(
                t.z as int,
                m.r2.x * v.x + m.r2.y * v.y + m.r2.z * v.z,
                1_000_000,
            )
        }),
{
    lemma_rounded(m.r0.x * v.x + m.r0.y * v.y + m.r0.z * v.z, 1_000_000);
    lemma_rounded(m.r1.x * v.x + m.r1.y * v.y + m.r1.z * v.z, 1_000_000);
    lemma_rounded(m.r2.x * v.x + m.r2.y * v.y + m.r2.z * v.z, 1_000_000);
}

proof fn lemma_small_rows(m: Mat3, v: Vec3, size: int)
    requires
        is_small(m.r0, 2_000_000),
        is_small(m.r1, 2_000_000),
        is_small(m.r2, 2_000_000),
        is_small(v, size),
        0 <= size <= 1_000_000_000_000_000_000,
    ensures
        ({
            let t = m.applied(v);
            &&& is_nearest(
                t.x as int,
                m.r0.x * v.x + m.r0.y * v.y + m.r0.z * v.z,
                1_000_000,
            )
            &&& is_nearest(
                t.y as int,
                m.r1.x * v.x + m.r1.y * v.y + m.r1.z * v.z,
                1_000_000,
            )
            &&& is_nearest(
                t.z as int,
                m.r2.x * v.x + m.r2.y * v.y + m.r2.z * v.z,
                1_000_000,
            )
        }),
{
    lemma_row_product(m.r0, v, size);
    lemma_row_product(m.r1, v, size);
    lemma_row_product(m.r2, v, size);
}

proof fn lemma_row_product(r: Vec3, v: Vec3, size: int)
    requires
        is_small(r, 2_000_000),
        is_small(v, size),
        0 <= size <= 1_000_000_000_000_000_000,
    ensures
        ({
            let p = r.x * v.x + r.y * v.y + r.z * v.z;
            let q = fixed::round_quot(p, 1_000_000);
            &&& is_nearest(q, p, 1_000_000)
            &&& i64::MIN <= q <= i64::MAX
        }),
{
    lemma_bounded(r.x as int, v.x as int, 2_000_000, size);
    lemma_bounded(r.y as int, v.y as int, 2_000_000, size);
    lemma_bounded(r.z as int, v.z as int, 2_000_000, size);
    fixed::lemma_nearest(r.x * v.x + r.y * v.y + r.z * v.z, 1_000_000);
}

/// A value of twelve decimals more, within a rounding of it and of two of the factors that
/// it was made from.
pub open spec fn comes_to(t: int, exact: int, y: int, z: int) -> bool {
    let slack = 1_000_000_000_000 + 1_000_000 * (if y >= 0 {
        y
    } else {
        -y
    }) + 1_000_000 * (if z >= 0 {
        z
    } else {
        -z
    });
    -slack <= 2 * (t * 1_000_000_000_000 - exact) <= slack
}

proof fn lemma_entry(a: int, b: int, v: int)
    requires
        -1_000_000 <= a <= 1_000_000,
        -1_000_000 <= b <= 1_000_000,
    ensures
        ({
            let e = math::times(a, b);
            let s = 1_000_000 * (if v >= 0 {
                v
            } else {
                -v
            });
            &&& -1_000_001 <= e <= 1_000_001
            &&& -s <= 2 * (1_000_000 * (e * v) - (a * b) * v) <= s
        }),
{
    lemma_bounded(a, b, 1_000_000, 1_000_000);
    fixed::lemma_nearest(a * b, 1_000_000);
    let e = math::times(a, b);
    assert(e == fixed::round_quot(a * b, 1_000_000));
    let w = if v >= 0 {
        v
    } else {
        -v
    };
    let err = 2 * (1_000_000 * e - a * b);
    lemma_bounded(err, v, 1_000_000, w);
    assert(err * v == 2 * (1_000_000 * (e * v) - (a * b) * v)) by (nonlinear_arith)
        requires
            err == 2 * (1_000_000 * e - a * b),
    ;
}

proof fn lemma_combined(k: int, s: int, a: int, y: int, z: int)
    ensures
        k * (1_000_000 * a) + s * (y + z) == 1_000_000 * (k * a) + s * y + s * z,
{
    vstd::arithmetic::mul::lemma_mul_is_distributive_add(s, y, z);
    vstd::arithmetic::mul::lemma_mul_is_associative(k, a, 1_000_000);
}

/// The rotation for a yaw and a pitch turns a vector by the pitch about the horizontal axis
/// first, and what that gives by the yaw about the vertical one. What lies ahead goes up or
/// down with the pitch and to the side with the yaw.
pub proof fn law_pitch_turns_first_and_yaw_after_it(sy: i64, cy: i64, sp: i64, cp: i64, v: Vec3)
    requires
        -1_000_000 <= sy <= 1_000_000,
        -1_000_000 <= cy <= 1_000_000,
        -1_000_000 <= sp <= 1_000_000,
        -1_000_000 <= cp <= 1_000_000,
        is_small(v, 1_000_000_000_000_000_000),
    ensures
        ({
            let t = Mat3::turned(sy, cy, sp, cp).applied(v);
            // Turned by the pitch, with six decimals more.
            let (px, py, pz) = (1_000_000 * v.x, cp * v.y - sp * v.z, sp * v.y + cp * v.z);
            &&& is_nearest(t.y as int, py, 1_000_000)
            &&& comes_to(t.x as int, cy * px + sy * pz, v.y as int, v.z as int)
            &&& comes_to(t.z as int, cy * pz - sy * px, v.y as int, v.z as int)
        }),
{
    let m = Mat3::turned(sy, cy, sp, cp);
    lemma_entry(sy as int, sp as int, v.y as int);
    lemma_entry(sy as int, cp as int, v.z as int);
    lemma_entry(cy as int, sp as int, v.y as int);
    lemma_entry(cy as int, cp as int, v.z as int);
    lemma_small_rows(m, v, 1_000_000_000_000_000_000);
    let t = m.applied(v);
    let (a, b, c) = (v.x as int, v.y as int, v.z as int);
    let (s, k, p, q) = (sy as int, cy as int, sp as int, cp as int);
    let pz = p * b + q * c;
    let px = 1_000_000 * a;
    lemma_combined(k, s, a, p * b, q * c);
    lemma_combined(-s, k, a, p * b, q * c);
    vstd::arithmetic::mul::lemma_mul_is_associative(s, p, b);
    vstd::arithmetic::mul::lemma_mul_is_associative(s, q, c);
    vstd::arithmetic::mul::lemma_mul_is_associative(k, p, b);
    vstd::arithmetic::mul::lemma_mul_is_associative(k, q, c);
    vstd::arithmetic::mul::lemma_mul_unary_negation(s, px);
    vstd::arithmetic::mul::lemma_mul_unary_negation(s, a);
    vstd::arithmetic::mul::lemma_mul_unary_negation(p, c);
    assert(m.r2.x == -s && m.r1.z == -p && m.r0.x == k && m.r1.y == q && m.r1.x == 0);
    assert(0 * a == 0);
}

/// Where nothing is turned, nothing moves, and the matrix of a turn back is its inverse.
pub proof fn law_turning_the_other_way_is_the_inverse(sy: i64, cy: i64)
    requires
        -1_000_000 <= sy <= 1_000_000,
        -1_000_000 <= cy <= 1_000_000,
    ensures
        Mat3::turned(0, 1_000_000, 0, 1_000_000) == Mat3::unturned(),
        Mat3::turned((-sy) as i64, cy, 0, 1_000_000) == Mat3::turned(sy, cy, 0, 1_000_000).transposed(),
{
    fixed::lemma_round_exact(0, 1_000_000);
    fixed::lemma_round_exact(1_000_000, 1_000_000);
    fixed::lemma_round_exact(sy as int, 1_000_000);
    fixed::lemma_round_exact(-sy as int, 1_000_000);
    fixed::lemma_round_exact(cy as int, 1_000_000);
    assert(sy * 0 == 0 && (-sy) * 0 == 0 && cy * 0 == 0 && 0int * 0 == 0 && 0int * 1_000_000 == 0);
}

/// A coordinate of twelve decimals can be represented.
pub open spec fn is_in_reach(x: int) -> bool {
    -9_223_372_036_854_775_807_000_000 < x < 9_223_372_036_854_775_807_000_000
}

/// The vertical tangent is the horizontal one less the aspect ratio, which counts for a
/// thousandth at least.
pub proof fn law_upright_tangent_is_less_the_aspect(tan: i64, aspect: i64)
    ensures
        ({
            let wide: int = if aspect < 1_000 {
                1_000
            } else {
                aspect as int
            };
            is_rounded(math::upright_tangent(tan as int, aspect as int), tan * 1_000_000, wide)
        }),
{
    let wide: int = if aspect < 1_000 {
        1_000
    } else {
        aspect as int
    };
    lemma_rounded(tan * 1_000_000, wide);
}

/// The point that is seen at a place lies that part of the view's reach to the side and up:
/// the reach is the tangent by the distance, sideways and, less the aspect ratio, upwards.
pub proof fn law_points_lie_where_they_are_seen(u: i64, v: i64, z: i64, tan: i64, aspect: i64)
    requires
        -4_000_000_000_000_000_000 <= u <= 4_000_000_000_000_000_000,
        -4_000_000_000_000_000_000 <= v <= 4_000_000_000_000_000_000,
    ensures
        ({
            let p = math::point_seen(u as int, v as int, z, tan as int, aspect as int);
            let up = math::upright_tangent(tan as int, aspect as int);
            &&& p.z == z
            &&& is_in_reach(tan * z) && is_in_reach(p.x as int) ==> is_nearest(
                p.x as int,
                (2 * u - 1_000_000) * (tan * z),
                1_000_000,
            )
            &&& is_in_reach(up * z) && is_in_reach(p.y as int) ==> is_nearest(
                p.y as int,
                (1_000_000 - 2 * v) * (up * z),
                1_000_000,
            )
        }),
{
    let up = math::upright_tangent(tan as int, aspect as int);
    fixed::lemma_nearest((2 * u - 1_000_000) * (tan * z), 1_000_000);
    fixed::lemma_nearest((1_000_000 - 2 * v) * (up * z), 1_000_000);
}

/// The depth buffer: the distance by what is left of the far plane is the product of the
/// planes, and where the buffer counts backwards the distance by its value is the near one.
pub proof fn law_depth_is_the_planes_by_what_is_left(z: i64, near: i64, far: i64)
    requires
        0 < z < 1_000_000,
        0 < near <= far <= 1_000_000_000_000,
    ensures
        ({
            let left = far * 1_000_000 - z * (far - near);
            let d = math::distance(z as int, near as int, far as int, false);
            &&& left >= near * 1_000_000
            &&& is_nearest(d, near * far * 1_000_000, left)
            &&& near <= d <= far
            &&& is_nearest(
                math::distance(z as int, near as int, far as int, true),
                near * 1_000_000,
                z as int,
            )
        }),
{
    let left = far * 1_000_000 - z * (far - near);
    assert(near * 1_000_000 <= left <= far * 1_000_000) by (nonlinear_arith)
        requires
            left == far * 1_000_000 - z * (far - near),
            0 < z < 1_000_000,
            near <= far,
    ;
    let n = near * far * 1_000_000;
    fixed::lemma_nearest(n, left);
    assert(near * left <= n <= far * left) by (nonlinear_arith)
        requires
            near * 1_000_000 <= left <= far * 1_000_000,
            n == near * far * 1_000_000,
            0 < near <= far,
    ;
    fixed::lemma_round_between(n, left, near as int, far as int);
    fixed::lemma_nearest(near * 1_000_000, z as int);
    assert(0 * z <= near * 1_000_000 <= (near * 1_000_000) * z) by (nonlinear_arith)
        requires
            near > 0,
            z >= 1,
    ;
    fixed::lemma_round_between(near * 1_000_000, z as int, 0, near * 1_000_000);
}

/// Half a turn of 180 degrees is pi radians, and any other angle in proportion.
pub proof fn law_radians_are_in_proportion(deg: i64)
    ensures
        is_nearest(math::radians(deg as int), deg * 3_141_592_653_590, 180_000_000_000_000),
        math::radians(180_000_000) == 3_141_593,
{
    fixed::lemma_nearest(deg * 3_141_592_653_590, 180_000_000_000_000);
    fixed::lemma_nearest(180_000_000int * 3_141_592_653_590, 180_000_000_000_000);
}

/// Frames that are some time apart come at the rate of a second by that time; less than a
/// millisecond counts as one.
pub proof fn law_rate_is_a_second_by_the_time(dt: u64)
    ensures
        ({
            let d: int = if dt < 1_000_000 {
                1_000_000
            } else {
                dt as int
            };
            is_nearest(engine::rate_of(dt as int), 1_000_000_000_000_000, d)
        }),
{
    let d: int = if dt < 1_000_000 {
        1_000_000
    } else {
        dt as int
    };
    fixed::lemma_nearest(1_000_000_000_000_000, d);
}

/// A smoothed rate: so many twentieths of what it was and the rest of the new one; the
/// first one is taken as it is.
pub proof fn law_smoothing_mixes_twentieths(old_rate: i64, instant: i64, keep: int)
    requires
        0 <= instant,
        0 <= keep <= 20,
    ensures
        old_rate <= 0 ==> engine::smoothed(old_rate as int, instant as int, keep) == instant,
        old_rate > 0 ==> is_nearest(
            engine::smoothed(old_rate as int, instant as int, keep),
            keep * old_rate + (20 - keep) * instant,
            20,
        ),
{
    if old_rate > 0 {
        engine::law_smoothed_rate_lies_between(old_rate as int, instant as int, keep);
        let sum = old_rate * keep + instant * (20 - keep);
        assert(sum == keep * old_rate + (20 - keep) * instant) by (nonlinear_arith)
            requires
                sum == old_rate * keep + instant * (20 - keep),
        ;
        fixed::lemma_nearest(sum, 20);
        assert(0 <= sum <= 20 * i64::MAX) by (nonlinear_arith)
            requires
                sum == old_rate * keep + instant * (20 - keep),
                0 < old_rate <= i64::MAX,
                0 <= instant <= i64::MAX,
                0 <= keep <= 20,
        ;
        fixed::lemma_round_between(sum, 20, 0, i64::MAX as int);
    }
}

/// The game's rate keeps nine tenths of itself with every frame, and the first frame is
/// taken to be 33 ms after none. What is shown is that rate, up to three times as often,
/// and every frame is counted as often as the multiplier says, once at least.
pub proof fn law_game_reports_its_rate(
    h: AifSharedHeader,
    c: FrameClock,
    has_depth: bool,
    now: u64,
)
    requires
        0 <= c.rate <= 1_000_000_000,
    ensures
        ({
            let dt: int = match c.last_ns {
                Some(last) => if now >= last {
                    now - last
                } else {
                    0
                },
                None => 33_000_000,
            };
            let next = c.ticked(now);
            let r = engine::reported(h, next, has_depth);
            let times: int = if h.fps_multiplier < 1 {
                1
            } else if h.fps_multiplier > 3 {
                3
            } else {
                h.fps_multiplier as int
            };
            let shown: int = if h.fps_multiplier < 1 {
                1
            } else {
                h.fps_multiplier as int
            };
            &&& next.last_ns == Some(now)
            &&& c.rate == 0 ==> next.rate == engine::rate_of(dt)
            &&& c.rate > 0 ==> is_nearest(
                next.rate as int,
                18 * c.rate + 2 * engine::rate_of(dt),
                20,
            )
            &&& 0 <= next.rate <= 1_000_000_000
            &&& r.game_fps == next.rate
            &&& r.warped_fps == times * next.rate
            &&& r.hook_state == 1
            &&& r.depth_found == if has_depth {
                1u32
            } else {
                0
            }
            &&& h.frames_warped + shown <= u64::MAX ==> r.frames_warped == h.frames_warped + shown
            &&& r.fps_multiplier == h.fps_multiplier
            &&& r.config_of() == h.config_of()
        }),
{
    let dt: int = c.delta(now) as int;
    let d: int = if dt < 1_000_000 {
        1_000_000
    } else {
        dt
    };
    assert(0 * d <= 1_000_000_000_000_000 <= 1_000_000_000 * d) by (nonlinear_arith)
        requires
            d >= 1_000_000,
    ;
    fixed::lemma_round_between(1_000_000_000_000_000, d, 0, 1_000_000_000);
    let instant = engine::rate_of(dt);
    law_smoothing_mixes_twentieths(c.rate, instant as i64, 18);
    let next = c.ticked(now);
    if c.rate > 0 {
        let sum = c.rate * 18 + instant * 2;
        fixed::lemma_round_between(sum, 20, 0, 1_000_000_000);
    }
    assert(0 <= next.rate <= 1_000_000_000);
    let times = engine::shown_multiplier(h.fps_multiplier);
    assert(times == 1 || times == 2 || times == 3);
    assert(next.rate * times == times * next.rate) by (nonlinear_arith);
    assert(0 <= times * next.rate <= 3_000_000_000) by (nonlinear_arith)
        requires
            0 <= next.rate <= 1_000_000_000,
            1 <= times <= 3,
    ;
}

/// The pause before each of `m` frames is its share of the time between two frames of the
/// game, but at least 2 and at most 33 milliseconds.
pub proof fn law_pauses_share_the_time(delta: u64, m: u32)
    requires
        m > 0,
    ensures
        ({
            let p = engine::pause_of(delta as int, m as int);
            &&& 2_000_000 <= p <= 33_000_000
            &&& 2_000_000 < p ==> p * m <= delta
            &&& p < 33_000_000 ==> delta < (p + 1) * m
        }),
{
    let q = delta as int / m as int;
    vstd::arithmetic::div_mod::lemma_fundamental_div_mod(delta as int, m as int);
    vstd::arithmetic::div_mod::lemma_mod_bound(delta as int, m as int);
    let p = engine::pause_of(delta as int, m as int);
    let r = delta as int % m as int;
    assert((p <= q ==> p * m <= delta) && (q <= p ==> delta < (p + 1) * m)) by (nonlinear_arith)
        requires
            delta == m * q + r,
            0 <= r < m,
    ;
}

/// Motion adds up between two frames of the game, and a frame of the game starts anew. A
/// test jolt is 600 counts on top, and it comes once.
pub proof fn law_motion_adds_up(m: WarpMotion, cfg: WarpConfig, dx: i32, dy: i32, wave: i64)
    ensures
        i64::MIN <= m.accum_dx + dx <= i64::MAX ==> m.gathered(true, dx, dy).accum_dx == m.accum_dx
            + dx,
        i64::MIN <= m.accum_dy + dy <= i64::MAX ==> m.gathered(true, dx, dy).accum_dy == m.accum_dy
            + dy,
        m.gathered(false, dx, dy).accum_dx == dx,
        m.gathered(false, dx, dy).accum_dy == dy,
        m.gathered(true, dx, dy).last_pulse == m.last_pulse,
        ({
            let jolt: int = if cfg.test_pulse != m.last_pulse {
                600
            } else {
                0
            };
            let sway: int = if cfg.continuous_test_wave {
                wave as int
            } else {
                0
            };
            m.swayed(cfg, wave) == 1_000_000 * (m.accum_dx + jolt) + sway
        }),
{
}

/// Counts of motion are whole ones: the fraction of a count does not turn the camera.
pub proof fn law_counts_are_whole(x: int)
    requires
        -1_000_000_000_000_000 <= x <= 1_000_000_000_000_000,
    ensures
        ({
            let w = engine::whole(x);
            &&& x >= 0 ==> 1_000_000 * w <= x < 1_000_000 * (w + 1)
            &&& x <= 0 ==> 1_000_000 * (w - 1) < x <= 1_000_000 * w
        }),
        engine::is_still(x) ==> -10_000 < x < 10_000,
        -10_000 < x < 10_000 ==> engine::is_still(x),
{
}

/// A drag of the demonstration turns its camera by five thousandths of a radian for every
/// pixel, and without the button not at all.
pub proof fn law_drags_turn_the_camera(c: Camera, x: i32, y: i32)
    ensures
        !c.button_down ==> c.dragged(x, y) == c,
        c.button_down ==> {
            let d = c.dragged(x, y);
            &&& d.last_x == x && d.last_y == y
            &&& d.button_down
            &&& i64::MIN <= c.yaw + 5_000 * (x - c.last_x) <= i64::MAX ==> d.yaw == c.yaw + 5_000 * (x
                - c.last_x)
            &&& -1_400_000 < c.pitch + 5_000 * (y - c.last_y) < 1_400_000 ==> d.pitch == c.pitch
                + 5_000 * (y - c.last_y)
            &&& -1_400_000 <= d.pitch <= 1_400_000
        },
{
}

/// The demonstration's matrix: a turn about the vertical axis, narrowed by the aspect
/// ratio, with the depth between planes at 0.1 and 100 and three away from the cube.
pub proof fn law_scene_is_put_on_the_screen(sin: i64, cos: i64, sp: i64, aspect: i64)
    requires
        -1_000_000 <= sin <= 1_000_000,
        -1_000_000 <= cos <= 1_000_000,
        -1_000_000 <= sp <= 1_000_000,
        1_000 <= aspect <= 1_000_000_000,
    ensures
        ({
            let m = demo::mvp_of(sin, cos, sp, aspect);
            &&& is_nearest(m.r0.x as int, cos * 1_000_000, aspect as int)
            &&& is_nearest(m.r2.x as int, -sin * 1_000_000, aspect as int)
            &&& m.r0.w == sin && m.r2.w == cos
            &&& is_nearest(m.r0.z as int, sin * 1_000, 999)
            &&& is_nearest(m.r2.z as int, cos * 1_000, 999)
            &&& is_nearest(m.r1.z as int, sp as int, 2)
            &&& m.r1.y == 1_000_000
            &&& m.r3.w == 3_000_000
            // (3 - 0.1) * 100 / 99.9, three units away from the near plane.
            &&& m.r3.z == 2_899_900
        }),
{
    fixed::lemma_nearest(sin * 1_000, 999);
    fixed::lemma_nearest(cos * 1_000, 999);
    fixed::lemma_nearest(sp as int, 2);
    lemma_over(cos as int, aspect as int);
    lemma_over(-sin as int, aspect as int);
}

proof fn lemma_over(a: int, b: int)
    requires
        -1_000_000 <= a <= 1_000_000,
        1 <= b,
    ensures
        is_nearest(math::over(a, b), a * 1_000_000, b),
{
    let n = a * 1_000_000;
    fixed::lemma_nearest(n, b);
    assert(-1_000_000_000_000 * b <= n <= 1_000_000_000_000 * b) by (nonlinear_arith)
        requires
            -1_000_000_000_000 <= n <= 1_000_000_000_000,
            1 <= b,
    ;
    fixed::lemma_round_between(n, b, -1_000_000_000_000, 1_000_000_000_000);
}

/// The presenter's rates: a captured frame counts a tenth, a shown one a twentieth, the
/// first ones are taken as they are; and the frame time that is shown is a second by the
/// rate, or 16.6 ms before there is one.
pub proof fn law_presenter_measures_its_rates(p: Presenter, width: u32, height: u32, now: u64)
    requires
        0 <= p.game_fps <= 1_000_000_000,
        0 <= p.output_fps <= 1_000_000_000,
    ensures
        ({
            let since = |last: u64|
                if now - last < 1_000_000 {
                    1_000_000int
                } else {
                    now - last
                };
            let c = p.after_capture(width, height, now);
            let s = p.after_present(now);
            let seen = engine::rate_of(since(p.last_capture_ns));
            let shown = engine::rate_of(since(p.last_present_ns));
            &&& p.game_fps == 0 ==> c.game_fps == seen
            &&& p.game_fps > 0 ==> is_nearest(c.game_fps as int, 18 * p.game_fps + 2 * seen, 20)
            &&& p.output_fps == 0 ==> s.output_fps == shown
            &&& p.output_fps > 0 ==> is_nearest(s.output_fps as int, 19 * p.output_fps + shown, 20)
            &&& c.telemetry.game_fps == c.game_fps
            &&& s.telemetry.output_fps == s.output_fps
            &&& c.width == width && c.height == height
            &&& c.last_capture_ns == now && s.last_present_ns == now
            &&& p.output_fps == 0 ==> p.shown_frame_time() == 16_600_000
            &&& p.output_fps >= 1 ==> is_nearest(
                p.shown_frame_time(),
                1_000_000_000_000_000,
                p.output_fps as int,
            )
        }),
{
    lemma_instant(presenter::gap(p.last_capture_ns, now) as int);
    lemma_instant(presenter::gap(p.last_present_ns, now) as int);
    let seen = engine::rate_of(presenter::gap(p.last_capture_ns, now) as int);
    let shown = engine::rate_of(presenter::gap(p.last_present_ns, now) as int);
    law_smoothing_mixes_twentieths(p.game_fps, seen as i64, 18);
    law_smoothing_mixes_twentieths(p.output_fps, shown as i64, 19);
    if p.game_fps > 0 {
        engine::law_smoothed_rate_lies_between(p.game_fps as int, seen, 18);
    }
    if p.output_fps > 0 {
        engine::law_smoothed_rate_lies_between(p.output_fps as int, shown, 19);
        let f = p.output_fps as int;
        fixed::lemma_nearest(1_000_000_000_000_000, f);
        assert(0 * f <= 1_000_000_000_000_000 <= 1_000_000_000_000_000 * f) by (nonlinear_arith)
            requires
                f >= 1,
        ;
        fixed::lemma_round_between(1_000_000_000_000_000, f, 0, 1_000_000_000_000_000);
    }
}

proof fn lemma_instant(dt: int)
    ensures
        0 <= engine::rate_of(dt) <= 1_000_000_000,
{
    let d: int = if dt < 1_000_000 {
        1_000_000
    } else {
        dt
    };
    assert(0 * d <= 1_000_000_000_000_000 <= 1_000_000_000 * d) by (nonlinear_arith)
        requires
            d >= 1_000_000,
    ;
    fixed::lemma_round_between(1_000_000_000_000_000, d, 0, 1_000_000_000);
}

/// The frames for a captured frame are spread evenly: the `step`-th of `count` lies that
/// many parts of the way, and the pauses after them share the time since the last one.
pub proof fn law_frames_in_between_are_spread_evenly(step: int, count: int, dt: u64)
    requires
        1 <= step <= count <= u32::MAX,
    ensures
        ({
            let s = presenter::step_of(step, count, dt as int);
            &&& is_nearest(s.alpha as int, step * 1_000_000, count)
            &&& s.pristine <==> step == count
            &&& step == count ==> s.alpha == 1_000_000 && s.pause_ns == 0
            &&& step < count ==> 2_000_000 <= s.pause_ns <= 33_000_000
            &&& step < count && 2_000_000 < s.pause_ns ==> s.pause_ns * count <= dt
            &&& step < count && s.pause_ns < 33_000_000 ==> dt < (s.pause_ns + 1) * count
        }),
{
    presenter::law_steps_lead_to_the_frame(step, count, dt as int);
    fixed::lemma_nearest(step * 1_000_000, count);
    law_pauses_share_the_time(dt, count as u32);
}

/// A turn about one axis alone: without a yaw nothing moves sideways and what lies ahead
/// goes down with the sine of the pitch; without a pitch nothing moves up or down. No
/// coordinate is off by more than a half of its last decimal.
pub proof fn law_turns_about_one_axis(s: i64, c: i64, v: Vec3)
    requires
        -1_000_000 <= s <= 1_000_000,
        -1_000_000 <= c <= 1_000_000,
        is_small(v, 1_000_000_000_000_000_000),
    ensures
        ({
            let t = Mat3::turned(0, 1_000_000, s, c).applied(v);
            &&& t.x == v.x
            &&& is_nearest(t.y as int, c * v.y - s * v.z, 1_000_000)
            &&& is_nearest(t.z as int, s * v.y + c * v.z, 1_000_000)
        }),
        ({
            let t = Mat3::turned(s, c, 0, 1_000_000).applied(v);
            &&& is_nearest(t.x as int, c * v.x + s * v.z, 1_000_000)
            &&& t.y == v.y
            &&& is_nearest(t.z as int, c * v.z - s * v.x, 1_000_000)
        }),
{
    let (si, ci) = (s as int, c as int);
    fixed::lemma_round_exact(0, 1_000_000);
    fixed::lemma_round_exact(si, 1_000_000);
    fixed::lemma_round_exact(ci, 1_000_000);
    assert(0 * si == 0 && 0 * ci == 0 && si * 0 == 0 && ci * 0 == 0);
    assert((-si) * v.z == -(si * v.z) && (-si) * v.x == -(si * v.x)) by (nonlinear_arith);
    let pitched = Mat3::turned(0, 1_000_000, s, c);
    let yawed = Mat3::turned(s, c, 0, 1_000_000);
    assert(pitched == (Mat3 {
        r0: Vec3 { x: 1_000_000, y: 0, z: 0 },
        r1: Vec3 { x: 0, y: c, z: (-s) as i64 },
        r2: Vec3 { x: 0, y: s, z: c },
    }));
    assert(yawed == (Mat3 {
        r0: Vec3 { x: c, y: 0, z: s },
        r1: Vec3 { x: 0, y: 1_000_000, z: 0 },
        r2: Vec3 { x: (-s) as i64, y: 0, z: c },
    }));
    lemma_small_rows(pitched, v, 1_000_000_000_000_000_000);
    lemma_small_rows(yawed, v, 1_000_000_000_000_000_000);
    assert(0 * v.x == 0 && 0 * v.y == 0 && 0 * v.z == 0);
    let a = pitched.applied(v);
    let b = yawed.applied(v);
    assert(is_nearest(a.x as int, 1_000_000 * v.x, 1_000_000));
    assert(is_nearest(b.y as int, 1_000_000 * v.y, 1_000_000));
}

/// Products and quotients of fixed-point numbers are the nearest ones, with the signs that
/// go with them; what is divided by nothing is out of reach.
pub proof fn law_products_and_quotients_are_the_nearest(a: i64, b: i64)
    ensures
        is_rounded(math::times(a as int, b as int), a * b, 1_000_000),
        b > 0 ==> is_rounded(math::over(a as int, b as int), a * 1_000_000, b as int),
        b < 0 ==> is_rounded(math::over(a as int, b as int), -a * 1_000_000, -b),
        b == 0 && a > 0 ==> math::over(a as int, b as int) == i64::MAX,
        b == 0 && a <= 0 ==> math::over(a as int, b as int) == i64::MIN,
{
    lemma_rounded(a * b, 1_000_000);
    if b > 0 {
        lemma_rounded(a * 1_000_000, b as int);
    }
    if b < 0 {
        lemma_rounded(-a * 1_000_000, -b);
    }
}

/// A point is seen at the place that it takes of the reach of the view at its distance, from
/// the left and from the top. What is not a ten-thousandth in front of the camera is not
/// seen.
pub proof fn law_points_are_seen_where_they_lie(p: ViewPoint, tan: i64, aspect: i64)
    ensures
        ({
            let uv = math::place_seen(p, tan as int, aspect as int);
            let right = tan * p.z;
            let up = math::upright_tangent(tan as int, aspect as int) * p.z;
            &&& p.z <= 100 <==> uv is None
            &&& p.z > 100 && tan > 0 && is_in_reach(p.x as int) && is_in_reach(right)
                ==> is_rounded(uv->0.x as int, (p.x + right) * 1_000_000, 2 * right)
            &&& p.z > 100 && up > 0 && is_in_reach(p.y as int) && is_in_reach(up) ==> is_rounded(
                uv->0.y as int,
                (up - p.y) * 1_000_000,
                2 * up,
            )
        }),
{
    let right = tan * p.z;
    let up = math::upright_tangent(tan as int, aspect as int) * p.z;
    if p.z > 100 && tan > 0 {
        assert(right > 0) by (nonlinear_arith)
            requires
                right == tan * p.z,
                p.z > 0,
                tan > 0,
        ;
        lemma_rounded((p.x + right) * 1_000_000, 2 * right);
    }
    if p.z > 100 && up > 0 {
        lemma_rounded((up - p.y) * 1_000_000, 2 * up);
    }
}

/// Wherever the planes lie: the distance by what is left of the far plane is their product,
/// where anything is left, and else the far plane itself.
pub proof fn law_depth_follows_the_planes(z: i64, near: i64, far: i64)
    requires
        0 <= z <= 1_000_000,
    ensures
        ({
            let left = far * 1_000_000 - z * (far - near);
            let d = math::distance(z as int, near as int, far as int, false);
            &&& left >= 1_000_000 ==> is_rounded(d, near * far * 1_000_000, left)
            &&& left <= -1_000_000 ==> is_rounded(d, -(near * far) * 1_000_000, -left)
            &&& -1_000_000 < left < 1_000_000 ==> d == far
        }),
        z > 0 ==> is_rounded(
            math::distance(z as int, near as int, far as int, true),
            near * 1_000_000,
            z as int,
        ),
{
    let left = far * 1_000_000 - z * (far - near);
    if left >= 1_000_000 {
        lemma_rounded(near * far * 1_000_000, left);
    }
    if left <= -1_000_000 {
        lemma_rounded(-(near * far) * 1_000_000, -left);
    }
    if z > 0 {
        lemma_rounded(near * 1_000_000, z as int);
    }
}

/// Values beyond the ends of the depth buffer count for its ends.
pub proof fn law_depth_is_cut_to_the_buffer(z: i64, near: i64, far: i64, is_reverse_z: bool)
    ensures
        z <= 0 ==> math::distance(z as int, near as int, far as int, is_reverse_z)
            == math::distance(0, near as int, far as int, is_reverse_z),
        z >= 1_000_000 ==> math::distance(z as int, near as int, far as int, is_reverse_z)
            == math::distance(1_000_000, near as int, far as int, is_reverse_z),
        math::distance(0, near as int, far as int, true) == far,
{
}

/// A word of a mouse message is the same number with a sign: in 16 bits, and as far from it
/// as 16 bits count.
pub proof fn law_words_have_signs(w: u16)
    ensures
        -0x8000 <= demo::signed_word(w as int) < 0x8000,
        (w - demo::signed_word(w as int)) % 0x1_0000 == 0,
{
}

/// A run starts from nothing but what was reported before, and every captured and every
/// shown frame is counted; a frame that is generated needs one that was captured.
pub proof fn law_presenter_counts_its_frames(p: Presenter, width: u32, height: u32, now: u64)
    requires
        p.telemetry.frames_captured < u64::MAX,
        p.telemetry.frames_presented < u64::MAX,
    ensures
        ({
            let c = p.after_capture(width, height, now);
            let s = p.after_present(now);
            &&& c.telemetry.frames_captured == p.telemetry.frames_captured + 1
            &&& c.telemetry.frames_presented == p.telemetry.frames_presented
            &&& s.telemetry.frames_presented == p.telemetry.frames_presented + 1
            &&& s.telemetry.frames_captured == p.telemetry.frames_captured
            &&& c.has_first_frame
            &&& s.has_first_frame == p.has_first_frame
            &&& c.telemetry.is_running == p.telemetry.is_running
            &&& s.telemetry.is_running == p.telemetry.is_running
        }),
        ({
            let r = Presenter::started(p.telemetry, width, height, now);
            &&& r.width == width && r.height == height
            &&& !r.has_first_frame && !r.show_hud
            &&& r.game_fps == 0 && r.output_fps == 0
            &&& r.last_capture_ns == now && r.last_present_ns == now
            &&& r.telemetry.is_running
            &&& r.telemetry.frames_captured == p.telemetry.frames_captured
            &&& r.telemetry.frames_presented == p.telemetry.frames_presented
        }),
        presenter::steps_for(0) == 1,
        forall|m: u32| m >= 1 ==> #[trigger] presenter::steps_for(m) == m,
{
}

/// The overlay is as large as the game's window, but no side is less than a hundred.
pub proof fn law_overlay_covers_the_window(from: i32, to: i32)
    ensures
        to - from >= 100 ==> presenter::overlay_side(from, to) == to - from,
        to - from < 100 ==> presenter::overlay_side(from, to) == 100,
{
}

/// Formats with 24 bits of depth are read as such, and all others as 32-bit numbers; a copy
/// has the size of the buffer.
pub proof fn law_depth_is_read_in_its_format(format: u32, width: u32, height: u32)
    ensures
        format == 45 || format == 46 ==> engine::view_format_of(format) == 46,
        format != 45 && format != 46 ==> engine::view_format_of(format) == 41,
        engine::DepthTracker::wanted(width, height, format).width == width,
        engine::DepthTracker::wanted(width, height, format).height == height,
        engine::DepthTracker::wanted(width, height, format).format == engine::view_format_of(format),
        16 * engine::groups_of(width as int) >= width,
        16 * (engine::groups_of(width as int) - 1) < width,
{
}

/// What a frame generator starts with: on, one frame for each of the game's, a field of view
/// of a right angle, the same sensitivity both ways, and no tests.
pub proof fn law_generator_starts_plain()
    ensures
        ({
            let c = WarpConfig::initial();
            &&& c.enabled && c.fps_multiplier == 1
            &&& c.fov_degrees == 90 * 1_000_000
            &&& c.yaw_sensitivity == 1_500 && c.pitch_sensitivity == 1_500
            &&& c.depth_near == 100_000 && c.depth_far == 1_000 * 1_000_000
            &&& c.inpainting_strength == 800_000 && c.hud_depth_threshold == 5_000
            &&& !c.is_reverse_z && !c.hud_mask_enabled && !c.continuous_test_wave && !c.debug_depth
            &&& c.test_pulse == 0
        }),
{
}

} // verus!
