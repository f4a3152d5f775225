//! Rotations, projections and depths of the camera that follows the mouse.
//!
//! Lengths, sines and places on the screen are fixed-point (see [`crate::fixed`]); points
//! that are projected have twelve decimals. Sines, cosines and tangents come from the
//! caller.

use vstd::prelude::*;

use crate::fixed;
use crate::fixed::{clamp_i64, round_div, ONE};
use crate::warp::config::WarpConfig;

verus! {

/// The least aspect ratio that is worked with.
pub const LEAST_ASPECT: i64 = 1_000;

/// A point at this distance or nearer is not in view.
pub const NEAREST: i64 = 100;

/// A place on the screen.
#[derive(Debug, Clone, Copy, PartialEq, Eq, Structural)]
pub struct Vec2 {
    pub x: i64,
    pub y: i64,
}

impl Vec2 {
    pub fn new(x: i64, y: i64) -> (v: Vec2)
        ensures
            v == (Vec2 { x, y }),
    {
        Vec2 { x, y }
    }
}

/// A point or a direction in front of the camera.
#[derive(Debug, Clone, Copy, PartialEq, Eq, Structural)]
pub struct Vec3 {
    pub x: i64,
    pub y: i64,
    pub z: i64,
}

/// The scalar product, not yet divided by [`ONE`].
pub open spec fn product(a: Vec3, b: Vec3) -> int {
    a.x * b.x + a.y * b.y + a.z * b.z
}

/// The product of two fixed-point numbers.
pub open spec fn times(a: int, b: int) -> int {
    fixed::sat64(fixed::round_quot(a * b, ONE as int))
}

/// The quotient of two fixed-point numbers. Division by nothing gives the greatest
/// number, or the least where nothing or less is divided.
pub open spec fn over(a: int, b: int) -> int {
    if b > 0 {
        fixed::sat64(fixed::round_quot(a * ONE, b))
    } else if b < 0 {
        fixed::sat64(fixed::round_quot(-a * ONE, -b))
    } else if a > 0 {
        i64::MAX as int
    } else {
        i64::MIN as int
    }
}

proof fn lemma_product_fits(a: i64, b: i64)
    ensures
        -0x4000_0000_0000_0000_0000_0000_0000_0000 <= a * b,
        a * b <= 0x4000_0000_0000_0000_0000_0000_0000_0000,
{
    assert(-0x8000_0000_0000_0000 * 0x8000_0000_0000_0000 <= a * b <= 0x8000_0000_0000_0000
        * 0x8000_0000_0000_0000) by (nonlinear_arith)
        requires
            -0x8000_0000_0000_0000 <= a <= 0x7fff_ffff_ffff_ffff,
            -0x8000_0000_0000_0000 <= b <= 0x7fff_ffff_ffff_ffff,
    ;
}

/// The product of two fixed-point numbers.
fn scaled(a: i64, b: i64) -> (r: i64)
    ensures
        r == times(a as int, b as int),
{
    proof {
        lemma_product_fits(a, b);
    }
    clamp_i64(round_div(a as i128 * b as i128, ONE))
}

/// The quotient of two fixed-point numbers (see [`over`]).
pub(crate) fn ratio(a: i128, b: i128) -> (r: i64)
    requires
        -0x1_0000_0000_0000_0000_0000_0000 <= a <= 0x1_0000_0000_0000_0000_0000_0000,
        b > i128::MIN,
    ensures
        r == over(a as int, b as int),
{
    if b > 0 {
        clamp_i64(round_div(a * ONE, b))
    } else if b < 0 {
        clamp_i64(round_div(-a * ONE, -b))
    } else if a > 0 {
        i64::MAX
    } else {
        i64::MIN
    }
}

impl Vec3 {
    pub fn new(x: i64, y: i64, z: i64) -> (v: Vec3)
        ensures
            v == (Vec3 { x, y, z }),
    {
        Vec3 { x, y, z }
    }

    /// The scalar product.
    pub fn dot(self, o: Vec3) -> (d: i64)
        ensures
            d == fixed::sat64(fixed::round_quot(product(self, o), ONE as int)),
    {
        proof {
            lemma_product_fits(self.x, o.x);
            lemma_product_fits(self.y, o.y);
            lemma_product_fits(self.z, o.z);
        }
        let sum: i128 = far_sum(
            far_sum(self.x as i128 * o.x as i128, self.y as i128 * o.y as i128),
            self.z as i128 * o.z as i128,
        );
        proof {
            if sum != product(self, o) {
                lemma_far_off(product(self, o));
                lemma_far_off(sum as int);
            }
        }
        clamp_i64(round_div(sum, ONE))
    }
}

/// A sum, as far as it can be represented.
fn far_sum(a: i128, b: i128) -> (sum: i128)
    requires
        a > i128::MIN,
        b > i128::MIN,
    ensures
        -i128::MAX <= sum,
        -i128::MAX <= a + b <= i128::MAX ==> sum == a + b,
        a + b > i128::MAX ==> sum == i128::MAX,
        a + b < -i128::MAX ==> sum == -i128::MAX,
{
    if b >= 0 && a > i128::MAX - b {
        i128::MAX
    } else if b < 0 && a < -i128::MAX - b {
        -i128::MAX
    } else {
        a + b
    }
}

/// Sums this far out are out of reach of a result.
proof fn lemma_far_off(sum: int)
    ensures
        sum >= 0x2000_0000_0000_0000_0000_0000_0000_0000 ==> fixed::sat64(
            fixed::round_quot(sum, ONE as int),
        ) == i64::MAX,
        sum <= -0x2000_0000_0000_0000_0000_0000_0000_0000 ==> fixed::sat64(
            fixed::round_quot(sum, ONE as int),
        ) == i64::MIN,
{
    fixed::lemma_nearest(sum, ONE as int);
}

/// A rotation, row by row.
#[derive(Debug, Clone, Copy, PartialEq, Eq, Structural)]
pub struct Mat3 {
    pub r0: Vec3,
    pub r1: Vec3,
    pub r2: Vec3,
}

/// One in fixed-point.
pub const UNIT: i64 = 1_000_000;

impl Mat3 {
    pub open spec fn unturned() -> Mat3 {
        Mat3 {
            r0: Vec3 { x: UNIT, y: 0, z: 0 },
            r1: Vec3 { x: 0, y: UNIT, z: 0 },
            r2: Vec3 { x: 0, y: 0, z: UNIT },
        }
    }

    pub fn identity() -> (m: Mat3)
        ensures
            m == Mat3::unturned(),
    {
        Mat3 {
            r0: Vec3 { x: UNIT, y: 0, z: 0 },
            r1: Vec3 { x: 0, y: UNIT, z: 0 },
            r2: Vec3 { x: 0, y: 0, z: UNIT },
        }
    }

    /// Turned by the yaw about the vertical axis, after the pitch about the horizontal
    /// one.
    pub open spec fn turned(sin_yaw: i64, cos_yaw: i64, sin_pitch: i64, cos_pitch: i64) -> Mat3 {
        Mat3 {
            r0: Vec3 {
                x: cos_yaw,
                y: times(sin_yaw as int, sin_pitch as int) as i64,
                z: times(sin_yaw as int, cos_pitch as int) as i64,
            },
            r1: Vec3 { x: 0, y: cos_pitch, z: fixed::sat64(-sin_pitch) as i64 },
            r2: Vec3 {
                x: fixed::sat64(-sin_yaw) as i64,
                y: times(cos_yaw as int, sin_pitch as int) as i64,
                z: times(cos_yaw as int, cos_pitch as int) as i64,
            },
        }
    }

    /// The rotation for a yaw and a pitch, from their sines and cosines.
    pub fn from_yaw_pitch(sin_yaw: i64, cos_yaw: i64, sin_pitch: i64, cos_pitch: i64) -> (m: Mat3)
        ensures
            m == Mat3::turned(sin_yaw, cos_yaw, sin_pitch, cos_pitch),
    {
        Mat3 {
            r0: Vec3 {
                x: cos_yaw,
                y: scaled(sin_yaw, sin_pitch),
                z: scaled(sin_yaw, cos_pitch),
            },
            r1: Vec3 { x: 0, y: cos_pitch, z: clamp_i64(-(sin_pitch as i128)) },
            r2: Vec3 {
                x: clamp_i64(-(sin_yaw as i128)),
                y: scaled(cos_yaw, sin_pitch),
                z: scaled(cos_yaw, cos_pitch),
            },
        }
    }

    /// The vector, turned.
    pub open spec fn applied(self, v: Vec3) -> Vec3 {
        Vec3 {
            x: fixed::sat64(fixed::round_quot(product(self.r0, v), ONE as int)) as i64,
            y: fixed::sat64(fixed::round_quot(product(self.r1, v), ONE as int)) as i64,
            z: fixed::sat64(fixed::round_quot(product(self.r2, v), ONE as int)) as i64,
        }
    }

    /// Turns a vector.
    pub fn transform_vec3(&self, v: Vec3) -> (r: Vec3)
        ensures
            r == self.applied(v),
    {
        Vec3 { x: self.r0.dot(v), y: self.r1.dot(v), z: self.r2.dot(v) }
    }

    /// Rows and columns swapped.
    pub open spec fn transposed(self) -> Mat3 {
        Mat3 {
            r0: Vec3 { x: self.r0.x, y: self.r1.x, z: self.r2.x },
            r1: Vec3 { x: self.r0.y, y: self.r1.y, z: self.r2.y },
            r2: Vec3 { x: self.r0.z, y: self.r1.z, z: self.r2.z },
        }
    }

    /// The rotation back: that of a rotation is its transpose.
    pub fn inverse(&self) -> (m: Mat3)
        ensures
            m == self.transposed(),
    {
        Mat3 {
            r0: Vec3 { x: self.r0.x, y: self.r1.x, z: self.r2.x },
            r1: Vec3 { x: self.r0.y, y: self.r1.y, z: self.r2.y },
            r2: Vec3 { x: self.r0.z, y: self.r1.z, z: self.r2.z },
        }
    }
}

/// Radians of an angle in degrees.
pub open spec fn radians(deg: int) -> int {
    fixed::round_quot(deg * 3_141_592_653_590, 180_000_000_000_000)
}

/// Radians of an angle in degrees.
pub fn deg_to_rad(deg: i64) -> (rad: i64)
    ensures
        rad == radians(deg as int),
{
    proof {
        fixed::lemma_nearest(deg * 3_141_592_653_590, 180_000_000_000_000);
    }
    round_div(deg as i128 * 3_141_592_653_590, 180_000_000_000_000) as i64
}

/// The denominator of a depth (see [`distance`]), twelve decimals.
pub open spec fn depth_below(z: int, near: int, far: int) -> int {
    far * ONE - z * (far - near)
}

/// The distance that a value of the depth buffer stands for: `near / z` where the buffer
/// counts backwards, else `near * far / (far - z * (far - near))`. Where nothing is left
/// to divide by, that is the far plane.
pub open spec fn distance(z_raw: int, near: int, far: int, is_reverse_z: bool) -> int {
    let z = fixed::within(z_raw, 0, ONE as int);
    if is_reverse_z {
        if z == 0 {
            far
        } else {
            over(near, z)
        }
    } else if -ONE < depth_below(z, near, far) < ONE {
        far
    } else {
        over(near * far, depth_below(z, near, far))
    }
}

/// The distance that a value of the depth buffer stands for (see [`distance`]).
pub fn linearize_depth(z_raw: i64, near: i64, far: i64, is_reverse_z: bool) -> (d: i64)
    ensures
        d == distance(z_raw as int, near as int, far as int, is_reverse_z),
{
    let z: i128 = if z_raw < 0 {
        0
    } else if z_raw > UNIT {
        ONE
    } else {
        z_raw as i128
    };
    if is_reverse_z {
        if z == 0 {
            far
        } else {
            ratio(near as i128, z)
        }
    } else {
        let span: i128 = far as i128 - near as i128;
        proof {
            assert(-0x1_0000_0000_0000_0000 * 1_000_000 <= z * span <= 0x1_0000_0000_0000_0000
                * 1_000_000) by (nonlinear_arith)
                requires
                    0 <= z <= 1_000_000,
                    -0x1_0000_0000_0000_0000 <= span <= 0x1_0000_0000_0000_0000,
            ;
        }
        let below: i128 = far as i128 * ONE - z * span;
        if below > -ONE && below < ONE {
            far
        } else {
            proof {
                lemma_product_fits(near, far);
            }
            wide_ratio(near as i128 * far as i128, below)
        }
    }
}

/// [`over`] for a numerator of twelve decimals: the whole part and the rest are divided
/// one after the other.
fn wide_ratio(n: i128, d: i128) -> (r: i64)
    requires
        -0x4000_0000_0000_0000_0000_0000_0000_0000 <= n,
        n <= 0x4000_0000_0000_0000_0000_0000_0000_0000,
        d >= 1_000_000 || d <= -1_000_000,
        -0x1_0000_0000_0000_0000_0000_0000 <= d <= 0x1_0000_0000_0000_0000_0000_0000,
    ensures
        r == over(n as int, d as int),
{
    let (a, b): (i128, i128) = if d > 0 {
        (n, d)
    } else {
        (-n, -d)
    };
    let m: i128 = if a >= 0 {
        a
    } else {
        -a
    };
    let whole: i128 = m / b;
    let rest: i128 = m % b;
    proof {
        lemma_split(m as int, b as int);
    }
    let q: i128 = whole * ONE + round_div(rest * ONE, b);
    if a >= 0 {
        clamp_i64(q)
    } else {
        clamp_i64(-q)
    }
}

proof fn lemma_split(m: int, b: int)
    requires
        0 <= m <= 0x4000_0000_0000_0000_0000_0000_0000_0000,
        1_000_000 <= b,
    ensures
        0 <= m / b,
        m / b * 1_000_000 <= m,
        0 <= m % b < b,
        fixed::round_quot(m * ONE, b) == m / b * ONE + fixed::round_quot(m % b * ONE, b),
        0 <= fixed::round_quot(m % b * ONE, b) <= ONE,
        fixed::round_quot(-m * ONE, b) == -fixed::round_quot(m * ONE, b),
{
    vstd::arithmetic::div_mod::lemma_fundamental_div_mod(m, b);
    vstd::arithmetic::div_mod::lemma_mod_bound(m, b);
    let q = m / b;
    let r = m % b;
    assert(0 <= q && q * 1_000_000 <= m) by (nonlinear_arith)
        requires
            m == b * q + r,
            0 <= r < b,
            0 <= m,
            1_000_000 <= b,
    ;
    let n = 2 * (r * 1_000_000) + b;
    let k = n / (2 * b);
    let t = n % (2 * b);
    vstd::arithmetic::div_mod::lemma_fundamental_div_mod(n, 2 * b);
    vstd::arithmetic::div_mod::lemma_mod_bound(n, 2 * b);
    assert(2 * (m * 1_000_000) + b == (q * 1_000_000 + k) * (2 * b) + t) by (nonlinear_arith)
        requires
            m == b * q + r,
            2 * (r * 1_000_000) + b == (2 * b) * k + t,
    ;
    vstd::arithmetic::div_mod::lemma_fundamental_div_mod_converse(
        2 * (m * 1_000_000) + b,
        2 * b,
        q * 1_000_000 + k,
        t,
    );
    assert(0 <= r * 1_000_000 <= 1_000_000 * b) by (nonlinear_arith)
        requires
            0 <= r < b,
    ;
    fixed::lemma_round_between(r * 1_000_000, b, 0, 1_000_000);
    if m == 0 {
        assert(fixed::round_quot(0, b) == 0) by {
            fixed::lemma_round_exact(0, b);
        }
    }
}

/// The tangent of half the vertical field of view.
pub open spec fn upright_tangent(tan_half_x: int, aspect: int) -> int {
    over(
        tan_half_x,
        if aspect > LEAST_ASPECT {
            aspect
        } else {
            LEAST_ASPECT as int
        },
    )
}

/// The tangent of half the vertical field of view, from that of half the horizontal one.
pub fn tan_half_y(tan_half_x: i64, aspect: i64) -> (t: i64)
    ensures
        t == upright_tangent(tan_half_x as int, aspect as int),
{
    let a: i64 = if aspect > LEAST_ASPECT {
        aspect
    } else {
        LEAST_ASPECT
    };
    ratio(tan_half_x as i128, a as i128)
}

/// Twice a place on the screen less one: from -1 on the left to 1 on the right.
pub open spec fn centred(u: int) -> int {
    fixed::sat64(2 * u - ONE)
}

/// The farthest that a coordinate of twelve decimals reaches to either side: as far as one
/// of six decimals.
pub const FARTHEST: i128 = 9_223_372_036_854_775_807_000_000;

/// A coordinate of twelve decimals, brought into reach.
pub open spec fn reached(x: int) -> int {
    fixed::within(x, -FARTHEST as int, FARTHEST as int)
}

/// A coordinate of twelve decimals, brought into reach.
fn in_reach(x: i128) -> (r: i128)
    ensures
        r == reached(x as int),
{
    if x < -FARTHEST {
        -FARTHEST
    } else if x > FARTHEST {
        FARTHEST
    } else {
        x
    }
}

/// A point in front of the camera, as finely as projections need it: to the side and
/// upwards with twelve decimals, away from the camera with six.
#[derive(Debug, Clone, Copy, PartialEq, Eq, Structural)]
pub struct ViewPoint {
    pub x: i128,
    pub y: i128,
    pub z: i64,
}

impl ViewPoint {
    /// The point, with six decimals.
    pub open spec fn coarse(self) -> Vec3 {
        Vec3 {
            x: fixed::round_quot(reached(self.x as int), ONE as int) as i64,
            y: fixed::round_quot(reached(self.y as int), ONE as int) as i64,
            z: self.z,
        }
    }

    /// The point with six decimals, as a rotation takes it.
    pub fn to_vec3(self) -> (v: Vec3)
        ensures
            v == self.coarse(),
    {
        let x: i128 = in_reach(self.x);
        let y: i128 = in_reach(self.y);
        proof {
            fixed::lemma_nearest(x as int, ONE as int);
            fixed::lemma_nearest(y as int, ONE as int);
        }
        Vec3 { x: round_div(x, ONE) as i64, y: round_div(y, ONE) as i64, z: self.z }
    }

    /// The point of twelve decimals that a point of six stands for.
    pub open spec fn fine(v: Vec3) -> ViewPoint {
        ViewPoint { x: (v.x * ONE) as i128, y: (v.y * ONE) as i128, z: v.z }
    }

    /// A point of six decimals, as a projection takes it.
    pub fn from_vec3(v: Vec3) -> (p: ViewPoint)
        ensures
            p == ViewPoint::fine(v),
    {
        ViewPoint { x: v.x as i128 * ONE, y: v.y as i128 * ONE, z: v.z }
    }
}

/// How far the view reaches to either side at a distance, with twelve decimals.
pub open spec fn extent(tan_half: int, z: int) -> int {
    reached(tan_half * z)
}

/// How far the view reaches to either side at a distance (see [`extent`]).
fn reach_at(tan_half: i64, z: i64) -> (e: i128)
    ensures
        e == extent(tan_half as int, z as int),
{
    proof {
        lemma_product_fits(tan_half, z);
    }
    in_reach(tan_half as i128 * z as i128)
}

/// A part of a length of twelve decimals.
pub open spec fn part(share: int, length: int) -> int {
    reached(fixed::round_quot(share * length, ONE as int))
}

/// A part of a length (see [`part`]): of its whole sixth decimals and of the rest, one
/// after the other.
fn part_of(share: i64, length: i128) -> (r: i128)
    requires
        -FARTHEST <= length <= FARTHEST,
    ensures
        r == part(share as int, length as int),
{
    let s: i128 = if share >= 0 {
        share as i128
    } else {
        -(share as i128)
    };
    let m: i128 = if length >= 0 {
        length
    } else {
        -length
    };
    let whole: i128 = m / ONE;
    let rest: i128 = m % ONE;
    proof {
        lemma_part(s as int, m as int);
        assert(0 <= s * whole <= 0x8000_0000_0000_0000 * 0x7fff_ffff_ffff_ffff && 0 <= s * rest
            <= 0x8000_0000_0000_0000 * 1_000_000) by (nonlinear_arith)
            requires
                0 <= s <= 0x8000_0000_0000_0000,
                0 <= whole <= 0x7fff_ffff_ffff_ffff,
                0 <= rest <= 1_000_000,
        ;
        fixed::lemma_nearest(s * rest, ONE as int);
        assert(share * length == s * m || share * length == -(s * m)) by (nonlinear_arith)
            requires
                s == share || s == -share,
                m == length || m == -length,
        ;
        assert(share * length >= 0 <==> (share >= 0) == (length >= 0) || s * m == 0)
            by (nonlinear_arith)
            requires
                s == if share >= 0 { share as int } else { -share },
                m == if length >= 0 { length as int } else { -length },
        ;
        fixed::lemma_round_exact(0, ONE as int);
    }
    let r: i128 = s * whole + round_div(s * rest, ONE);
    if (share >= 0) == (length >= 0) {
        in_reach(r)
    } else {
        in_reach(-r)
    }
}

/// A product with a length, by the length's whole sixth decimals and the rest.
proof fn lemma_part(s: int, m: int)
    requires
        0 <= s,
        0 <= m,
    ensures
        fixed::round_quot(s * m, ONE as int) == s * (m / ONE as int) + fixed::round_quot(
            s * (m % ONE as int),
            ONE as int,
        ),
        0 <= s * m,
        0 <= s * (m % ONE as int),
{
    let h = m / 1_000_000;
    let l = m % 1_000_000;
    assert(s * m == (s * h) * 1_000_000 + s * l) by (nonlinear_arith)
        requires
            m == h * 1_000_000 + l,
    ;
    assert(0 <= s * m && 0 <= s * l) by (nonlinear_arith)
        requires
            0 <= s,
            0 <= m,
            0 <= l,
    ;
    let n = 2 * (s * l) + 1_000_000;
    assert(2 * (s * m) + 1_000_000 == (s * h + n / 2_000_000) * 2_000_000 + n % 2_000_000);
    vstd::arithmetic::div_mod::lemma_fundamental_div_mod_converse(
        2 * (s * m) + 1_000_000,
        2_000_000,
        s * h + n / 2_000_000,
        n % 2_000_000,
    );
}

/// The point that is seen at a place of the screen, at a distance. The view reaches
/// `tan * z` to either side.
pub open spec fn point_seen(u: int, v: int, z: i64, tan_half_x: int, aspect: int) -> ViewPoint {
    ViewPoint {
        x: part(centred(u), extent(tan_half_x, z as int)) as i128,
        y: part(
            fixed::sat64(ONE - 2 * v),
            extent(upright_tangent(tan_half_x, aspect), z as int),
        ) as i128,
        z,
    }
}

/// The point that is seen at a place of the screen, at a distance (see [`point_seen`]).
pub fn unproject_uv(u: i64, v: i64, z_linear: i64, tan_half_x: i64, aspect: i64) -> (p: ViewPoint)
    ensures
        p == point_seen(u as int, v as int, z_linear, tan_half_x as int, aspect as int),
{
    let right: i64 = clamp_i64(2 * u as i128 - ONE);
    let up: i64 = clamp_i64(ONE - 2 * v as i128);
    ViewPoint {
        x: part_of(right, reach_at(tan_half_x, z_linear)),
        y: part_of(up, reach_at(tan_half_y(tan_half_x, aspect), z_linear)),
        z: z_linear,
    }
}

/// The place of the screen at which a point is seen; none where it is behind the camera
/// or too near to it.
pub open spec fn place_seen(p: ViewPoint, tan_half_x: int, aspect: int) -> Option<Vec2> {
    let right = extent(tan_half_x, p.z as int);
    let up = extent(upright_tangent(tan_half_x, aspect), p.z as int);
    if p.z > NEAREST {
        Some(
            Vec2 {
                x: over(reached(p.x as int) + right, 2 * right) as i64,
                y: over(up - reached(p.y as int), 2 * up) as i64,
            },
        )
    } else {
        None
    }
}

/// The place of the screen at which a point is seen (see [`place_seen`]).
pub fn project_view_point(p: ViewPoint, tan_half_x: i64, aspect: i64) -> (uv: Option<Vec2>)
    ensures
        uv == place_seen(p, tan_half_x as int, aspect as int),
{
    if p.z <= NEAREST {
        return None;
    }
    let right: i128 = reach_at(tan_half_x, p.z);
    let up: i128 = reach_at(tan_half_y(tan_half_x, aspect), p.z);
    Some(
        Vec2 {
            x: ratio(in_reach(p.x) + right, 2 * right),
            y: ratio(up - in_reach(p.y), 2 * up),
        },
    )
}

/// What the generator's shader is told for a frame.
#[derive(Debug, Clone, Copy, PartialEq, Eq, Structural)]
pub struct WarpConstants {
    pub rotation_matrix: Mat3,
    pub width: u32,
    pub height: u32,
    pub tan_half_fov_x: i64,
    pub tan_half_fov_y: i64,
    pub near_plane: i64,
    pub far_plane: i64,
    pub is_reverse_z: u32,
    pub hud_mask_enabled: u32,
    pub hud_depth_threshold: i64,
    pub inpainting_strength: i64,
    pub debug_depth: u32,
    pub fps_multiplier: u32,
}

/// A flag as a word.
pub open spec fn word(on: bool) -> u32 {
    if on {
        1
    } else {
        0
    }
}

pub(crate) fn as_word(on: bool) -> (w: u32)
    ensures
        w == word(on),
{
    if on {
        1
    } else {
        0
    }
}

impl WarpConstants {
    /// What the shader is told for a picture of a size; nothing where the picture is
    /// empty.
    pub fn new(width: u32, height: u32, rotation: Mat3, tan_half_x: i64, cfg: &WarpConfig) -> (c:
        Option<WarpConstants>)
        ensures
            c is Some == (width != 0 && height != 0),
            c is Some ==> c->0 == (WarpConstants {
                rotation_matrix: rotation,
                width,
                height,
                tan_half_fov_x: tan_half_x,
                tan_half_fov_y: upright_tangent(
                    tan_half_x as int,
                    fixed::round_quot(width * ONE, height as int),
                ) as i64,
                near_plane: cfg.depth_near,
                far_plane: cfg.depth_far,
                is_reverse_z: word(cfg.is_reverse_z),
                hud_mask_enabled: word(cfg.hud_mask_enabled),
                hud_depth_threshold: cfg.hud_depth_threshold,
                inpainting_strength: cfg.inpainting_strength,
                debug_depth: word(cfg.debug_depth),
                fps_multiplier: cfg.fps_multiplier,
            }),
    {
        if width == 0 || height == 0 {
            return None;
        }
        proof {
            assert(0 <= width * 1_000_000 <= (width * 1_000_000) * height) by (nonlinear_arith)
                requires
                    height >= 1,
                    width >= 0,
            ;
            fixed::lemma_round_between(width * ONE, height as int, 0, width * ONE);
        }
        let aspect: i64 = round_div(width as i128 * ONE, height as i128) as i64;
        Some(
            WarpConstants {
                rotation_matrix: rotation,
                width,
                height,
                tan_half_fov_x: tan_half_x,
                tan_half_fov_y: tan_half_y(tan_half_x, aspect),
                near_plane: cfg.depth_near,
                far_plane: cfg.depth_far,
                is_reverse_z: as_word(cfg.is_reverse_z),
                hud_mask_enabled: as_word(cfg.hud_mask_enabled),
                hud_depth_threshold: cfg.hud_depth_threshold,
                inpainting_strength: cfg.inpainting_strength,
                debug_depth: as_word(cfg.debug_depth),
                fps_multiplier: cfg.fps_multiplier,
            },
        )
    }
}

/// The identity leaves every vector as it is.
pub proof fn law_identity_turns_nothing(v: Vec3)
    ensures
        Mat3::unturned().applied(v) == v,
{
    assert(product(Vec3 { x: UNIT, y: 0, z: 0 }, v) == v.x * ONE) by (nonlinear_arith)
        requires
            UNIT == 1_000_000,
            ONE == 1_000_000,
    ;
    assert(product(Vec3 { x: 0, y: UNIT, z: 0 }, v) == v.y * ONE) by (nonlinear_arith)
        requires
            UNIT == 1_000_000,
            ONE == 1_000_000,
    ;
    assert(product(Vec3 { x: 0, y: 0, z: UNIT }, v) == v.z * ONE) by (nonlinear_arith)
        requires
            UNIT == 1_000_000,
            ONE == 1_000_000,
    ;
    fixed::lemma_round_exact(v.x as int, ONE as int);
    fixed::lemma_round_exact(v.y as int, ONE as int);
    fixed::lemma_round_exact(v.z as int, ONE as int);
}

/// The rotation back of the rotation back is the rotation.
pub proof fn law_inverse_of_the_inverse(m: Mat3)
    ensures
        m.transposed().transposed() == m,
{
}

/// The ends of the depth buffer are the two planes, whichever way it counts.
pub proof fn law_depth_ends_at_the_planes(near: i64, far: i64)
    requires
        0 < near,
        0 < far,
    ensures
        distance(0, near as int, far as int, false) == near,
        distance(ONE as int, near as int, far as int, false) == far,
        distance(ONE as int, near as int, far as int, true) == near,
        distance(0, near as int, far as int, true) == far,
{
    assert(depth_below(0, near as int, far as int) == far * ONE) by (nonlinear_arith);
    assert(depth_below(ONE as int, near as int, far as int) == near * ONE) by (nonlinear_arith)
        requires
            ONE == 1_000_000,
    ;
    assert(near * far * ONE == near * (far * ONE)) by (nonlinear_arith);
    assert(near * far * ONE == far * (near * ONE)) by (nonlinear_arith);
    fixed::lemma_round_exact(near as int, far * ONE);
    fixed::lemma_round_exact(far as int, near * ONE);
    fixed::lemma_round_exact(near as int, ONE as int);
}

/// Rounding keeps the order.
proof fn lemma_round_is_ordered(a: int, b: int, c: int, d: int)
    requires
        0 < b,
        0 < d,
        0 <= a,
        0 <= c,
        a * d <= c * b,
    ensures
        fixed::round_quot(a, b) <= fixed::round_quot(c, d),
{
    let p = fixed::round_quot(a, b);
    let q = fixed::round_quot(c, d);
    let (m, r) = (2 * a + b, (2 * a + b) % (2 * b));
    let (n, t) = (2 * c + d, (2 * c + d) % (2 * d));
    vstd::arithmetic::div_mod::lemma_fundamental_div_mod(m, 2 * b);
    vstd::arithmetic::div_mod::lemma_mod_bound(m, 2 * b);
    vstd::arithmetic::div_mod::lemma_fundamental_div_mod(n, 2 * d);
    vstd::arithmetic::div_mod::lemma_mod_bound(n, 2 * d);
    if p > q {
        // (2 q + 1) d > 2 c and (2 p - 1) b <= 2 a, so 2 a d >= (2 q + 1) b d > 2 c b.
        assert((2 * q + 1) * d > 2 * c) by (nonlinear_arith)
            requires
                2 * c + d == (2 * d) * q + t,
                t < 2 * d,
        ;
        assert((2 * p - 1) * b <= 2 * a) by (nonlinear_arith)
            requires
                2 * a + b == (2 * b) * p + r,
                0 <= r,
        ;
        assert((2 * q + 1) * b <= (2 * p - 1) * b) by (nonlinear_arith)
            requires
                q < p,
                0 < b,
        ;
        assert(false) by (nonlinear_arith)
            requires
                (2 * q + 1) * d > 2 * c,
                (2 * q + 1) * b <= 2 * a,
                a * d <= c * b,
                0 < b,
                0 < d,
        ;
    }
}

/// Deeper values are never nearer, as long as the far plane is not the nearer one. In a
/// buffer that counts backwards that holds of all values but zero, which always stands
/// for the far plane.
pub proof fn law_depths_are_ordered(z1: i64, z2: i64, near: i64, far: i64)
    requires
        0 < near <= far,
        z1 <= z2,
    ensures
        distance(z1 as int, near as int, far as int, false) <= distance(
            z2 as int,
            near as int,
            far as int,
            false,
        ),
        0 < z1 ==> distance(z2 as int, near as int, far as int, true) <= distance(
            z1 as int,
            near as int,
            far as int,
            true,
        ),
{
    let a = fixed::within(z1 as int, 0, ONE as int);
    let b = fixed::within(z2 as int, 0, ONE as int);
    let da = depth_below(a, near as int, far as int);
    let db = depth_below(b, near as int, far as int);
    assert(near * 1_000_000 <= db && db <= da && 0 <= near * far) by (nonlinear_arith)
        requires
            da == far * 1_000_000 - a * (far - near),
            db == far * 1_000_000 - b * (far - near),
            a <= b <= 1_000_000,
            0 < near <= far,
    ;
    let n = near * far * ONE;
    assert(n * db <= n * da) by (nonlinear_arith)
        requires
            0 <= n,
            db <= da,
    ;
    lemma_round_is_ordered(n, da, n, db);
    if a > 0 {
        let m = near * ONE;
        assert(m * a <= m * b) by (nonlinear_arith)
            requires
                0 <= m,
                a <= b,
        ;
        lemma_round_is_ordered(m, b, m, a);
    }
}

/// One side of a projection: what is put at `u` across a view that reaches `e` to either
/// side is found at `u` again.
proof fn lemma_side_round_trips(c: int, e: int, u: int)
    requires
        0 <= u <= ONE,
        c == 2 * u - ONE,
        ONE < 2 * e,
        e <= FARTHEST,
    ensures
        -e <= part(c, e) <= e,
        part(-c, e) == -part(c, e),
        over(part(c, e) + e, 2 * e) == u,
{
    let x = fixed::round_quot(c * e, ONE as int);
    assert((-c) * e == -(c * e)) by (nonlinear_arith);
    fixed::lemma_round_exact(0, ONE as int);
    fixed::lemma_nearest(c * e, ONE as int);
    assert(-e * 1_000_000 <= c * e <= e * 1_000_000) by (nonlinear_arith)
        requires
            -1_000_000 <= c <= 1_000_000,
            0 < e,
    ;
    fixed::lemma_round_between(c * e, ONE as int, -e, e);
    let w = (x + e) * ONE;
    fixed::lemma_nearest(w, 2 * e);
    let back = fixed::round_quot(w, 2 * e);
    // The error of `back` is one half and that of `x` by `e`: less than one together.
    assert(-(2 * e + 1_000_000) <= 4 * e * (back - u) <= 2 * e + 1_000_000) by (nonlinear_arith)
        requires
            -1_000_000 <= 2 * (x * 1_000_000 - c * e) <= 1_000_000,
            w == (x + e) * 1_000_000,
            -(2 * e) <= 2 * (back * (2 * e) - w) <= 2 * e,
            c == 2 * u - 1_000_000,
            0 < e,
    ;
    assert(back == u) by (nonlinear_arith)
        requires
            -(2 * e + 1_000_000) <= 4 * e * (back - u) <= 2 * e + 1_000_000,
            2 * e > 1_000_000,
    ;
}

/// A place of the screen is found again from the point that is seen there, wherever the
/// view reaches more than half a millionth to either side.
pub proof fn law_projection_gives_the_place_back(
    u: i64,
    v: i64,
    z: i64,
    tan_half_x: i64,
    aspect: i64,
)
    requires
        0 <= u <= ONE,
        0 <= v <= ONE,
        NEAREST < z,
        2 * extent(tan_half_x as int, z as int) > ONE,
        2 * extent(upright_tangent(tan_half_x as int, aspect as int), z as int) > ONE,
    ensures
        point_seen(u as int, v as int, z, tan_half_x as int, aspect as int).z == z,
        place_seen(
            point_seen(u as int, v as int, z, tan_half_x as int, aspect as int),
            tan_half_x as int,
            aspect as int,
        ) == Some(Vec2 { x: u, y: v }),
{
    let right = extent(tan_half_x as int, z as int);
    let up = extent(upright_tangent(tan_half_x as int, aspect as int), z as int);
    lemma_side_round_trips(2 * u - ONE, right, u as int);
    lemma_side_round_trips(2 * v - ONE, up, v as int);
    let p = point_seen(u as int, v as int, z, tan_half_x as int, aspect as int);
    assert(p.x == part(2 * u - ONE, right));
    assert(p.y == -part(2 * v - ONE, up));
}

/// A point unprojected and projected again comes back to its place, at every depth above
/// 0.001, for every view from 0.1 to 3 radians (tangents of half of it from 0.05) and every
/// screen from 0.1 to 10 times as wide as high.
pub proof fn law_projection_round_trips(u: i64, v: i64, z: i64, tan_half_x: i64, aspect: i64)
    requires
        0 <= u <= ONE,
        0 <= v <= ONE,
        1_000 < z,
        50_000 <= tan_half_x,
        100_000 <= aspect <= 10_000_000,
    ensures
        ({
            let p = point_seen(u as int, v as int, z, tan_half_x as int, aspect as int);
            let seen = place_seen(p, tan_half_x as int, aspect as int);
            &&& p.z == z
            &&& seen matches Some(uv) && -100 < uv.x - u < 100 && -100 < uv.y - v < 100
            &&& seen == Some(Vec2 { x: u, y: v })
        }),
{
    let t = upright_tangent(tan_half_x as int, aspect as int);
    assert(5_000 * aspect <= tan_half_x * 1_000_000) by (nonlinear_arith)
        requires
            50_000 <= tan_half_x,
            aspect <= 10_000_000,
    ;
    assert(tan_half_x * 1_000_000 <= (tan_half_x * 1_000_000) * aspect) by (nonlinear_arith)
        requires
            50_000 <= tan_half_x,
            1 <= aspect,
    ;
    fixed::lemma_round_between(tan_half_x * ONE, aspect as int, 5_000, tan_half_x * ONE);
    assert(t >= 5_000);
    assert(5_000 * 1_000 <= t * z && 50_000 * 1_000 <= tan_half_x * z) by (nonlinear_arith)
        requires
            5_000 <= t,
            50_000 <= tan_half_x,
            1_000 < z,
    ;
    law_projection_gives_the_place_back(u, v, z, tan_half_x, aspect);
}

/// A point of six decimals is not changed by being taken for one of twelve and back.
pub proof fn law_finer_points_stand_for_the_same(v: Vec3)
    requires
        i64::MIN < v.x,
        i64::MIN < v.y,
    ensures
        ViewPoint::fine(v).coarse() == v,
{
    fixed::lemma_round_exact(v.x as int, ONE as int);
    fixed::lemma_round_exact(v.y as int, ONE as int);
}

/// The scalar product of two columns of a matrix, given by their entries.
pub open spec fn column(m: Mat3, j: int) -> Vec3 {
    if j == 0 {
        m.transposed().r0
    } else if j == 1 {
        m.transposed().r1
    } else {
        m.transposed().r2
    }
}

/// The columns of a matrix are of length one and at right angles, up to `slack` in the
/// twelfth decimal.
pub open spec fn is_rotation(m: Mat3, slack: int) -> bool {
    &&& forall|i: int, j: int|
        #![trigger column(m, i), column(m, j)]
        0 <= i < 3 && 0 <= j < 3 ==> -slack <= product(column(m, i), column(m, j)) - (if i == j {
            1_000_000_000_000int
        } else {
            0
        }) <= slack
    &&& is_small(m.r0, 2_000_000)
    &&& is_small(m.r1, 2_000_000)
    &&& is_small(m.r2, 2_000_000)
}

/// No entry is beyond `size`.
pub open spec fn is_small(v: Vec3, size: int) -> bool {
    -size <= v.x <= size && -size <= v.y <= size && -size <= v.z <= size
}

/// Two numbers differ by no more than what rounding and a slack in the rotation explain.
pub open spec fn comes_back(back: int, there: int, slack: int, size: int) -> bool {
    -(6 * slack * size + 7_000_000_000_000) <= 2_000_000_000_000 * (back - there) <= 6 * slack
        * size + 7_000_000_000_000
}

proof fn lemma_bounded_product(a: int, b: int, m: int, n: int)
    requires
        -m <= a <= m,
        -n <= b <= n,
    ensures
        -(m * n) <= a * b <= m * n,
{
    assert(-(m * n) <= a * b <= m * n) by (nonlinear_arith)
        requires
            -m <= a <= m,
            -n <= b <= n,
    ;
}

/// A row of a small matrix, applied to a small vector and rounded.
proof fn lemma_row(row: Vec3, v: Vec3, size: int)
    requires
        is_small(row, 2_000_000),
        is_small(v, size),
        0 <= size,
    ensures
        ({
            let t = fixed::round_quot(product(row, v), ONE as int);
            &&& -(6 * size + 1) <= t <= 6 * size + 1
            &&& -ONE <= 2 * (t * ONE - product(row, v)) <= ONE
        }),
{
    lemma_bounded_product(row.x as int, v.x as int, 2_000_000, size);
    lemma_bounded_product(row.y as int, v.y as int, 2_000_000, size);
    lemma_bounded_product(row.z as int, v.z as int, 2_000_000, size);
    fixed::lemma_nearest(product(row, v), ONE as int);
}

/// One term of turning back: an entry of a column times an entry of the turned vector.
proof fn lemma_term(a: int, row: Vec3, v: Vec3, t: int)
    requires
        -2_000_000 <= a <= 2_000_000,
        -ONE <= 2 * (t * ONE - product(row, v)) <= ONE,
    ensures
        -2_000_000 * ONE <= 2 * (a * t * ONE - (a * row.x * v.x + a * row.y * v.y + a * row.z
            * v.z)) <= 2_000_000 * ONE,
{
    let d = 2 * (t * ONE - product(row, v));
    lemma_bounded_product(a, d, 2_000_000, ONE as int);
    let (x, y, z) = (row.x * v.x, row.y * v.y, row.z * v.z);
    assert(a * d == 2 * (a * t * 1_000_000 - (a * x + a * y + a * z))) by (nonlinear_arith)
        requires
            d == 2 * (t * 1_000_000 - (x + y + z)),
    ;
    vstd::arithmetic::mul::lemma_mul_is_associative(a, row.x as int, v.x as int);
    vstd::arithmetic::mul::lemma_mul_is_associative(a, row.y as int, v.y as int);
    vstd::arithmetic::mul::lemma_mul_is_associative(a, row.z as int, v.z as int);
}

/// One entry of the vector that was turned and turned back.
proof fn lemma_entry_comes_back(
    m: Mat3,
    v: Vec3,
    i: int,
    slack: int,
    size: int,
    t: Vec3,
)
    requires
        is_rotation(m, slack),
        is_small(v, size),
        0 <= size <= 100_000_000_000_000_000,
        0 <= i < 3,
        t == m.applied(v),
    ensures
        comes_back(
            fixed::sat64(fixed::round_quot(product(column(m, i), t), ONE as int)),
            if i == 0 {
                v.x as int
            } else if i == 1 {
                v.y as int
            } else {
                v.z as int
            },
            slack,
            size,
        ),
{
    lemma_row(m.r0, v, size);
    lemma_row(m.r1, v, size);
    lemma_row(m.r2, v, size);
    let c = column(m, i);
    lemma_row(c, t, 6 * size + 1);
    lemma_term(c.x as int, m.r0, v, t.x as int);
    lemma_term(c.y as int, m.r1, v, t.y as int);
    lemma_term(c.z as int, m.r2, v, t.z as int);
    let back = fixed::round_quot(product(c, t), ONE as int);
    let g0 = product(c, column(m, 0));
    let g1 = product(c, column(m, 1));
    let g2 = product(c, column(m, 2));
    assert(g0 * v.x == c.x * m.r0.x * v.x + c.y * m.r1.x * v.x + c.z * m.r2.x * v.x)
        by (nonlinear_arith)
        requires
            g0 == c.x * m.r0.x + c.y * m.r1.x + c.z * m.r2.x,
    ;
    assert(g1 * v.y == c.x * m.r0.y * v.y + c.y * m.r1.y * v.y + c.z * m.r2.y * v.y)
        by (nonlinear_arith)
        requires
            g1 == c.x * m.r0.y + c.y * m.r1.y + c.z * m.r2.y,
    ;
    assert(g2 * v.z == c.x * m.r0.z * v.z + c.y * m.r1.z * v.z + c.z * m.r2.z * v.z)
        by (nonlinear_arith)
        requires
            g2 == c.x * m.r0.z + c.y * m.r1.z + c.z * m.r2.z,
    ;
    let e0 = g0 - if i == 0 {
        1_000_000_000_000int
    } else {
        0
    };
    let e1 = g1 - if i == 1 {
        1_000_000_000_000int
    } else {
        0
    };
    let e2 = g2 - if i == 2 {
        1_000_000_000_000int
    } else {
        0
    };
    lemma_bounded_product(e0, v.x as int, slack, size);
    lemma_bounded_product(e1, v.y as int, slack, size);
    lemma_bounded_product(e2, v.z as int, slack, size);
    vstd::arithmetic::mul::lemma_mul_is_distributive_add_other_way(v.x as int, e0, g0 - e0);
    vstd::arithmetic::mul::lemma_mul_is_distributive_add_other_way(v.y as int, e1, g1 - e1);
    vstd::arithmetic::mul::lemma_mul_is_distributive_add_other_way(v.z as int, e2, g2 - e2);
    assert(6 * slack * size == 6 * (slack * size)) by (nonlinear_arith);
    let whole = g0 * v.x + g1 * v.y + g2 * v.z;
    assert(-6_000_000 * ONE <= 2 * (product(c, t) * ONE - whole) <= 6_000_000 * ONE);
    assert(-(2 * (slack * size) * 3) <= 2 * (whole - (g0 - e0) * v.x - (g1 - e1) * v.y - (g2 - e2)
        * v.z) <= 2 * (slack * size) * 3);
    lemma_unit_or_nothing(g0 - e0, v.x as int);
    lemma_unit_or_nothing(g1 - e1, v.y as int);
    lemma_unit_or_nothing(g2 - e2, v.z as int);
    let there: int = if i == 0 {
        v.x as int
    } else if i == 1 {
        v.y as int
    } else {
        v.z as int
    };
    assert(-(6 * (slack * size)) <= 2 * (whole - 1_000_000_000_000 * there) <= 6 * (slack * size));
    let sum = product(c, t);
    assert(-1_000_000 <= 2 * (back * 1_000_000 - sum) <= 1_000_000);
    assert(-6_000_000_000_000 <= 2 * (sum * 1_000_000 - whole) <= 6_000_000_000_000);
    assert(fixed::sat64(back) == back);
    lemma_errors_add_up(back, sum, whole, there, slack * size);
}

proof fn lemma_errors_add_up(back: int, sum: int, whole: int, there: int, part: int)
    requires
        -1_000_000 <= 2 * (back * 1_000_000 - sum) <= 1_000_000,
        -6_000_000_000_000 <= 2 * (sum * 1_000_000 - whole) <= 6_000_000_000_000,
        -(6 * part) <= 2 * (whole - 1_000_000_000_000 * there) <= 6 * part,
    ensures
        -(6 * part + 7_000_000_000_000) <= 2_000_000_000_000 * (back - there) <= 6 * part
            + 7_000_000_000_000,
{
}

proof fn lemma_unit_or_nothing(g: int, x: int)
    ensures
        g == 0 ==> g * x == 0,
        g == 1_000_000_000_000 ==> g * x == 1_000_000_000_000 * x,
{
}

/// Turning back undoes a turn: for a matrix whose columns are of length one and at right
/// angles up to `slack`, a vector no longer than `size` in any direction comes back with
/// an error of at most `3 * slack * size` in the twelfth decimal and four in the sixth.
pub proof fn law_turning_back_undoes_the_turn(m: Mat3, v: Vec3, slack: int, size: int)
    requires
        is_rotation(m, slack),
        is_small(v, size),
        0 <= size <= 100_000_000_000_000_000,
    ensures
        comes_back(m.transposed().applied(m.applied(v)).x as int, v.x as int, slack, size),
        comes_back(m.transposed().applied(m.applied(v)).y as int, v.y as int, slack, size),
        comes_back(m.transposed().applied(m.applied(v)).z as int, v.z as int, slack, size),
{
    lemma_entry_comes_back(m, v, 0, slack, size, m.applied(v));
    lemma_entry_comes_back(m, v, 1, slack, size, m.applied(v));
    lemma_entry_comes_back(m, v, 2, slack, size, m.applied(v));
}

} // verus!
