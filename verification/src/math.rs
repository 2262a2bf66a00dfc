//! Fixed-point scalar and vector math for the camera core.
//!
//! Lengths, angles (radians), times (seconds) and speeds are represented as
//! `i64` values scaled by [`SCALE`]: the stored number is the real quantity
//! times `SCALE`, rounded toward zero. Angles use the same scale, so
//! [`PI_FP`] is the closest scaled integer to pi.
//!
//! The sine and cosine used by the rotation are polynomial approximations on
//! the reduced range `[0, pi/2]`, exact as integer formulas (the contracts
//! state the formulas themselves); their distance from the real functions is
//! below one percent of [`SCALE`] and is not part of any contract.

use vstd::prelude::*;

verus! {

/// Fixed-point unit: the stored integer divided by `SCALE` is the real value.
pub const SCALE: i64 = 1_000_000;

/// Pi in fixed-point angle units.
pub const PI_FP: i64 = 3_141_593;

/// Two pi in fixed-point angle units; normalized angles lie in `[0, TWO_PI_FP)`.
pub const TWO_PI_FP: i64 = 6_283_185;

/// Half pi in fixed-point angle units.
pub const HALF_PI_FP: i64 = 1_570_796;

/// Largest magnitude accepted for a raw (unnormalized) angle.
pub const ANGLE_ABS_MAX: i64 = 4_000_000_000_000_000_000;

/// Largest coordinate magnitude accepted by the vector rotation.
pub const ROT_IN_MAX: i64 = 2_000_000_000_000;

/// Largest coordinate magnitude accepted by the interpolation.
pub const LERP_ABS_MAX: i64 = 4_000_000_000_000;

/// Largest coordinate magnitude for positions and offsets held by the core.
pub const POS_ABS_MAX: i64 = 1_000_000_000_000;

/// Largest coordinate magnitude a camera's world position can reach.
pub const TRANS_ABS_MAX: i64 = 16_000_000_000_000;

/// Largest speed scalar (orbit speed, pointer speed) the core accepts.
pub const SPEED_ABS_MAX: i64 = 1_000_000_000;

/// Largest elapsed time per tick the core accepts.
pub const DT_MAX: i64 = 1_000_000_000_000;

/// Largest damping factor the core accepts.
pub const DAMP_MAX: i64 = 1_000_000_000_000;

/// Largest magnitude for a raw input delta (pointer motion, scroll wheel,
/// elapsed-time step) read from the host.
pub const DELTA_ABS_MAX: i64 = 1_000_000_000_000;

/// Largest magnitude for a command's yaw/pitch/roll/zoom value: what a
/// speed-scaled raw delta can reach.
pub const CMD_DELTA_MAX: i64 = 1_000_000_000_000_000;

/// Largest interpolation fraction: what an elapsed-time-scaled damping
/// factor can reach.
pub const FRAC_ABS_MAX: i64 = 1_000_000_000_000_000_000;

/// Magnitude of an integer, for stating bounds.
pub open spec fn absi(v: int) -> int {
    if v < 0 {
        -v
    } else {
        v
    }
}

/// Clamping a value into `[lo, hi]`.
pub open spec fn clamp_s(v: int, lo: int, hi: int) -> int {
    if v < lo {
        lo
    } else if v > hi {
        hi
    } else {
        v
    }
}

/// Clamp `v` into `[lo, hi]`.
pub fn clamp_i64(v: i64, lo: i64, hi: i64) -> (r: i64)
    requires
        lo <= hi,
    ensures
        r == clamp_s(v as int, lo as int, hi as int),
        lo <= r <= hi,
{
    if v < lo {
        lo
    } else if v > hi {
        hi
    } else {
        v
    }
}

/// Division by `SCALE`, rounded toward zero (the quotient of the magnitude,
/// with the dividend's sign put back).
pub open spec fn div_s(n: int) -> int {
    if n >= 0 {
        n / (SCALE as int)
    } else {
        -((-n) / (SCALE as int))
    }
}

pub proof fn lemma_div_s_bound(n: int, b: int)
    requires
        absi(n) <= b * SCALE,
        0 <= b,
    ensures
        absi(div_s(n)) <= b,
{
    if n >= 0 {
        vstd::arithmetic::div_mod::lemma_div_is_ordered(n, b * SCALE, SCALE as int);
        vstd::arithmetic::div_mod::lemma_div_multiples_vanish(b, SCALE as int);
        vstd::arithmetic::div_mod::lemma_div_pos_is_pos(n, SCALE as int);
    } else {
        vstd::arithmetic::div_mod::lemma_div_is_ordered(-n, b * SCALE, SCALE as int);
        vstd::arithmetic::div_mod::lemma_div_multiples_vanish(b, SCALE as int);
        vstd::arithmetic::div_mod::lemma_div_pos_is_pos(-n, SCALE as int);
    }
}

proof fn lemma_div_le(x: int, d: int, b: int)
    requires
        0 <= x,
        0 < d,
        x <= d * b,
        0 <= b,
    ensures
        0 <= x / d <= b,
{
    vstd::arithmetic::div_mod::lemma_div_is_ordered(x, d * b, d);
    vstd::arithmetic::div_mod::lemma_div_multiples_vanish(b, d);
    vstd::arithmetic::div_mod::lemma_div_pos_is_pos(x, d);
}

/// Dividing an exact multiple of `SCALE` recovers the factor.
pub proof fn lemma_div_s_exact(x: int)
    ensures
        div_s(SCALE * x) == x,
{
    if x >= 0 {
        vstd::arithmetic::div_mod::lemma_div_multiples_vanish(x, SCALE as int);
    } else {
        vstd::arithmetic::div_mod::lemma_div_multiples_vanish(-x, SCALE as int);
    }
}

/// Largest dividend magnitude `scale_down` accepts; keeps the quotient in `i64`.
pub const DIV_IN_MAX: i128 = 1_000_000_000_000_000_000_000_000;

/// Divide a wide intermediate by `SCALE`, rounding toward zero.
pub fn scale_down(n: i128) -> (r: i64)
    requires
        -DIV_IN_MAX <= n <= DIV_IN_MAX,
    ensures
        r == div_s(n as int),
{
    if n >= 0 {
        proof {
            vstd::arithmetic::div_mod::lemma_div_is_ordered(
                n as int,
                DIV_IN_MAX as int,
                SCALE as int,
            );
            vstd::arithmetic::div_mod::lemma_div_pos_is_pos(n as int, SCALE as int);
        }
        let q: i128 = n / (SCALE as i128);
        q as i64
    } else {
        let m: i128 = -n;
        proof {
            vstd::arithmetic::div_mod::lemma_div_is_ordered(
                m as int,
                DIV_IN_MAX as int,
                SCALE as int,
            );
            vstd::arithmetic::div_mod::lemma_div_pos_is_pos(m as int, SCALE as int);
        }
        let q: i128 = m / (SCALE as i128);
        -(q as i64)
    }
}

/// Bring an angle into `[0, TWO_PI_FP)`; the result is the Euclidean
/// remainder of the angle by `TWO_PI_FP`.
pub fn norm_angle(a: i64) -> (r: i64)
    requires
        -ANGLE_ABS_MAX <= a <= ANGLE_ABS_MAX,
    ensures
        r == (a as int) % (TWO_PI_FP as int),
        0 <= r < TWO_PI_FP,
{
    if a >= 0 {
        let m: u64 = (a as u64) % (TWO_PI_FP as u64);
        m as i64
    } else {
        let m: u64 = ((-a) as u64) % (TWO_PI_FP as u64);
        proof {
            let t: int = TWO_PI_FP as int;
            let q = ((-a) as int) / t;
            vstd::arithmetic::div_mod::lemma_fundamental_div_mod((-a) as int, t);
            if m == 0 {
                vstd::arithmetic::div_mod::lemma_fundamental_div_mod_converse(a as int, t, -q, 0);
            } else {
                vstd::arithmetic::div_mod::lemma_fundamental_div_mod_converse(
                    a as int,
                    t,
                    -q - 1,
                    t - m,
                );
            }
        }
        if m == 0 {
            0
        } else {
            TWO_PI_FP - (m as i64)
        }
    }
}

/// Sine polynomial on the reduced range, as a function of the scaled angle:
/// `x - x^3/3! + x^5/5!` in fixed point, clamped into `[0, SCALE]`.
pub open spec fn sin_q(x: int) -> int {
    clamp_s(
        x - (x * x * x) / 6_000_000_000_000 + (x * x * x * x * x)
            / 120_000_000_000_000_000_000_000_000,
        0,
        SCALE as int,
    )
}

/// Cosine polynomial on the reduced range:
/// `1 - x^2/2! + x^4/4! - x^6/6!` in fixed point, clamped into `[0, SCALE]`.
pub open spec fn cos_q(x: int) -> int {
    clamp_s(
        (SCALE as int) - (x * x) / 2_000_000 + (x * x * x * x) / 24_000_000_000_000_000_000 - (x * x
            * x * x * x * x) / 720_000_000_000_000_000_000_000_000_000_000,
        0,
        SCALE as int,
    )
}

/// Largest argument the reduced-range polynomials accept (just above pi/2).
pub const QUARTER_MAX: i64 = 1_570_797;

fn sin_quarter(x: i64) -> (r: i64)
    requires
        0 <= x <= QUARTER_MAX,
    ensures
        r == sin_q(x as int),
        0 <= r <= SCALE,
{
    let xi: i128 = x as i128;
    proof {
        assert(0 <= (x as int) * (x as int) <= 2_500_000_000_000) by (nonlinear_arith)
            requires
                0 <= x <= 1_570_797,
        ;
    }
    let x2: i128 = xi * xi;
    proof {
        assert(0 <= (x2 as int) * (x as int) <= 4_000_000_000_000_000_000) by (nonlinear_arith)
            requires
                0 <= x2 <= 2_500_000_000_000,
                0 <= x <= 1_570_797,
        ;
    }
    let x3: i128 = x2 * xi;
    proof {
        assert(0 <= (x3 as int) * (x2 as int) <= 10_000_000_000_000_000_000_000_000_000_000)
            by (nonlinear_arith)
            requires
                0 <= x3 <= 4_000_000_000_000_000_000,
                0 <= x2 <= 2_500_000_000_000,
        ;
    }
    let x5: i128 = x3 * x2;
    let t1: i128 = x3 / 6_000_000_000_000i128;
    let t2: i128 = x5 / 120_000_000_000_000_000_000_000_000i128;
    proof {
        lemma_div_le(x3 as int, 6_000_000_000_000, 666_667);
        lemma_div_le(x5 as int, 120_000_000_000_000_000_000_000_000, 83_334);
    }
    proof {
        assert(x5 == (x as int) * (x as int) * (x as int) * (x as int) * (x as int))
            by (nonlinear_arith)
            requires
                x5 == x3 * x2,
                x3 == (x as int) * (x as int) * (x as int),
                x2 == (x as int) * (x as int),
        ;
    }
    let v: i128 = xi - t1 + t2;
    clamp_i64(v as i64, 0, SCALE)
}

fn cos_quarter(x: i64) -> (r: i64)
    requires
        0 <= x <= QUARTER_MAX,
    ensures
        r == cos_q(x as int),
        0 <= r <= SCALE,
{
    let xi: i128 = x as i128;
    proof {
        assert(0 <= (x as int) * (x as int) <= 2_500_000_000_000) by (nonlinear_arith)
            requires
                0 <= x <= 1_570_797,
        ;
    }
    let x2: i128 = xi * xi;
    proof {
        assert(0 <= (x2 as int) * (x2 as int) <= 6_250_000_000_000_000_000_000_000) by (nonlinear_arith)
            requires
                0 <= x2 <= 2_500_000_000_000,
        ;
    }
    let x4: i128 = x2 * x2;
    proof {
        assert(0 <= (x4 as int) * (x2 as int) <= 16_000_000_000_000_000_000_000_000_000_000_000_000)
            by (nonlinear_arith)
            requires
                0 <= x4 <= 6_250_000_000_000_000_000_000_000,
                0 <= x2 <= 2_500_000_000_000,
        ;
    }
    let x6: i128 = x4 * x2;
    let t1: i128 = x2 / 2_000_000i128;
    let t2: i128 = x4 / 24_000_000_000_000_000_000i128;
    let t3: i128 = x6 / 720_000_000_000_000_000_000_000_000_000_000i128;
    proof {
        lemma_div_le(x2 as int, 2_000_000, 1_250_000);
        lemma_div_le(x4 as int, 24_000_000_000_000_000_000, 260_417);
        lemma_div_le(x6 as int, 720_000_000_000_000_000_000_000_000_000_000, 22_223);
    }
    proof {
        assert(x4 == (x as int) * (x as int) * (x as int) * (x as int)) by (nonlinear_arith)
            requires
                x4 == x2 * x2,
                x2 == (x as int) * (x as int),
        ;
        assert(x6 == (x as int) * (x as int) * (x as int) * (x as int) * (x as int) * (x as int))
            by (nonlinear_arith)
            requires
                x6 == x4 * x2,
                x4 == (x as int) * (x as int) * (x as int) * (x as int),
                x2 == (x as int) * (x as int),
        ;
    }
    let v: i128 = (SCALE as i128) - t1 + t2 - t3;
    clamp_i64(v as i64, 0, SCALE)
}

/// Sine of a normalized angle in `[0, TWO_PI_FP)`, by quadrant reduction.
pub open spec fn sin_angle(a: int) -> int {
    if a <= HALF_PI_FP {
        sin_q(a)
    } else if a <= PI_FP {
        sin_q(PI_FP - a)
    } else if a <= PI_FP + HALF_PI_FP {
        -sin_q(a - PI_FP)
    } else {
        -sin_q(TWO_PI_FP - a)
    }
}

/// Cosine of a normalized angle in `[0, TWO_PI_FP)`, by quadrant reduction.
pub open spec fn cos_angle(a: int) -> int {
    if a <= HALF_PI_FP {
        cos_q(a)
    } else if a <= PI_FP {
        -cos_q(PI_FP - a)
    } else if a <= PI_FP + HALF_PI_FP {
        -cos_q(a - PI_FP)
    } else {
        cos_q(TWO_PI_FP - a)
    }
}

/// Sine of an arbitrary scaled angle.
pub open spec fn sin_s(a: int) -> int {
    sin_angle(a % (TWO_PI_FP as int))
}

/// Cosine of an arbitrary scaled angle.
pub open spec fn cos_s(a: int) -> int {
    cos_angle(a % (TWO_PI_FP as int))
}

/// Fixed-point sine.
pub fn sin_fx(a: i64) -> (r: i64)
    requires
        -ANGLE_ABS_MAX <= a <= ANGLE_ABS_MAX,
    ensures
        r == sin_s(a as int),
        -SCALE <= r <= SCALE,
{
    let n = norm_angle(a);
    if n <= HALF_PI_FP {
        sin_quarter(n)
    } else if n <= PI_FP {
        sin_quarter(PI_FP - n)
    } else if n <= PI_FP + HALF_PI_FP {
        -sin_quarter(n - PI_FP)
    } else {
        -sin_quarter(TWO_PI_FP - n)
    }
}

/// Fixed-point cosine.
pub fn cos_fx(a: i64) -> (r: i64)
    requires
        -ANGLE_ABS_MAX <= a <= ANGLE_ABS_MAX,
    ensures
        r == cos_s(a as int),
        -SCALE <= r <= SCALE,
{
    let n = norm_angle(a);
    if n <= HALF_PI_FP {
        cos_quarter(n)
    } else if n <= PI_FP {
        -cos_quarter(PI_FP - n)
    } else if n <= PI_FP + HALF_PI_FP {
        -cos_quarter(n - PI_FP)
    } else {
        cos_quarter(TWO_PI_FP - n)
    }
}

/// A point or vector with fixed-point coordinates.
#[derive(Clone, Copy, Debug, PartialEq, Eq, Structural)]
pub struct Vec3Fx {
    pub x: i64,
    pub y: i64,
    pub z: i64,
}

/// A planar delta (pointer motion, orbit command) with fixed-point coordinates.
#[derive(Clone, Copy, Debug, PartialEq, Eq, Structural)]
pub struct Vec2Fx {
    pub x: i64,
    pub y: i64,
}

/// A world rotation kept as intrinsic Y-X-Z Euler angles: yaw about the
/// world Y axis, then pitch about the rotated X axis, then roll about the
/// camera's own forward (Z) axis.
#[derive(Clone, Copy, Debug, PartialEq, Eq, Structural)]
pub struct Orientation {
    pub yaw: i64,
    pub pitch: i64,
    pub roll: i64,
}

impl Vec3Fx {
    /// All coordinates within `b` in magnitude.
    pub open spec fn bounded(self, b: int) -> bool {
        absi(self.x as int) <= b && absi(self.y as int) <= b && absi(self.z as int) <= b
    }

    pub fn new(x: i64, y: i64, z: i64) -> (r: Vec3Fx)
        ensures
            r.x == x && r.y == y && r.z == z,
    {
        Vec3Fx { x, y, z }
    }

    pub open spec fn zero_spec() -> Vec3Fx {
        Vec3Fx { x: 0, y: 0, z: 0 }
    }

    pub fn zero() -> (r: Vec3Fx)
        ensures
            r == Vec3Fx::zero_spec(),
    {
        Vec3Fx { x: 0, y: 0, z: 0 }
    }

    /// Componentwise sum.
    pub fn add(&self, other: &Vec3Fx) -> (r: Vec3Fx)
        requires
            i64::MIN <= self.x + other.x <= i64::MAX,
            i64::MIN <= self.y + other.y <= i64::MAX,
            i64::MIN <= self.z + other.z <= i64::MAX,
        ensures
            r.x == self.x + other.x,
            r.y == self.y + other.y,
            r.z == self.z + other.z,
    {
        Vec3Fx { x: self.x + other.x, y: self.y + other.y, z: self.z + other.z }
    }

    /// Componentwise difference.
    pub fn sub(&self, other: &Vec3Fx) -> (r: Vec3Fx)
        requires
            i64::MIN <= self.x - other.x <= i64::MAX,
            i64::MIN <= self.y - other.y <= i64::MAX,
            i64::MIN <= self.z - other.z <= i64::MAX,
        ensures
            r.x == self.x - other.x,
            r.y == self.y - other.y,
            r.z == self.z - other.z,
    {
        Vec3Fx { x: self.x - other.x, y: self.y - other.y, z: self.z - other.z }
    }
}

impl Orientation {
    /// Yaw and roll normalized, pitch within a half turn.
    pub open spec fn wf(self) -> bool {
        &&& 0 <= self.yaw < TWO_PI_FP
        &&& 0 <= self.roll < TWO_PI_FP
        &&& -PI_FP <= self.pitch <= PI_FP
    }

    pub open spec fn identity_spec() -> Orientation {
        Orientation { yaw: 0, pitch: 0, roll: 0 }
    }

    /// The identity rotation.
    pub fn identity() -> (r: Orientation)
        ensures
            r == Orientation::identity_spec(),
            r.wf(),
    {
        Orientation { yaw: 0, pitch: 0, roll: 0 }
    }
}

/// One linear interpolation step: `a + (b - a) * t / SCALE`, with the
/// fraction `t` scaled by `SCALE`.
pub open spec fn lerp_1(a: int, b: int, t: int) -> int {
    a + div_s((b - a) * t)
}

/// Interpolate between `a` and `b` by the fraction `t` (in `[0, SCALE]`,
/// meaning `[0, 1]`); the result never leaves the interval between `a` and `b`.
pub fn lerp_i64(a: i64, b: i64, t: i64) -> (r: i64)
    requires
        absi(a as int) <= LERP_ABS_MAX,
        absi(b as int) <= LERP_ABS_MAX,
        0 <= t <= SCALE,
    ensures
        r == lerp_1(a as int, b as int, t as int),
        a <= b ==> a <= r <= b,
        b <= a ==> b <= r <= a,
{
    let d: i128 = (b as i128) - (a as i128);
    proof {
        assert(absi((d as int) * (t as int)) <= absi(d as int) * SCALE) by (nonlinear_arith)
            requires
                0 <= t <= SCALE,
        ;
    }
    let num: i128 = d * (t as i128);
    proof {
        lemma_div_s_bound(num as int, absi(d as int));
        if d >= 0 {
            assert(num >= 0) by (nonlinear_arith)
                requires
                    num == d * t,
                    d >= 0,
                    t >= 0,
            ;
            vstd::arithmetic::div_mod::lemma_div_pos_is_pos(num as int, SCALE as int);
        } else {
            assert(num <= 0) by (nonlinear_arith)
                requires
                    num == d * t,
                    d <= 0,
                    t >= 0,
            ;
            vstd::arithmetic::div_mod::lemma_div_pos_is_pos(-(num as int), SCALE as int);
        }
    }
    let step: i64 = scale_down(num);
    a + step
}

/// Largest dividend magnitude `scale_down_wide` accepts.
pub const WIDE_DIV_IN_MAX: i128 = 10_000_000_000_000_000_000_000_000_000_000;

/// Divide a wide intermediate by `SCALE`, rounding toward zero, keeping
/// the wide type for quotients past the narrow range.
pub fn scale_down_wide(n: i128) -> (r: i128)
    requires
        -WIDE_DIV_IN_MAX <= n <= WIDE_DIV_IN_MAX,
    ensures
        r == div_s(n as int),
{
    if n >= 0 {
        proof {
            vstd::arithmetic::div_mod::lemma_div_pos_is_pos(n as int, SCALE as int);
            vstd::arithmetic::div_mod::lemma_div_is_ordered(
                n as int,
                WIDE_DIV_IN_MAX as int,
                SCALE as int,
            );
        }
        n / (SCALE as i128)
    } else {
        let m: i128 = -n;
        proof {
            vstd::arithmetic::div_mod::lemma_div_pos_is_pos(m as int, SCALE as int);
            vstd::arithmetic::div_mod::lemma_div_is_ordered(
                m as int,
                WIDE_DIV_IN_MAX as int,
                SCALE as int,
            );
        }
        -(m / (SCALE as i128))
    }
}

/// The literal interpolation step, in a wide intermediate:
/// `a + (b - a) * t / SCALE`, unclamped — a fraction past one overshoots
/// past `b`, exactly as the formula says.
pub fn lerp_wide(a: i64, b: i64, t: i64) -> (r: i128)
    requires
        absi(a as int) <= LERP_ABS_MAX,
        absi(b as int) <= LERP_ABS_MAX,
        0 <= t <= FRAC_ABS_MAX,
    ensures
        r == lerp_1(a as int, b as int, t as int),
{
    let d: i128 = (b as i128) - (a as i128);
    proof {
        assert(absi((d as int) * (t as int)) <= 8_000_000_000_000_000_000_000_000_000_000)
            by (nonlinear_arith)
            requires
                absi(d as int) <= 8_000_000_000_000,
                0 <= t <= 1_000_000_000_000_000_000,
        ;
    }
    let num: i128 = d * (t as i128);
    let step: i128 = scale_down_wide(num);
    proof {
        lemma_div_s_bound(num as int, 8_000_000_000_000_000_000_000_000_000);
    }
    (a as i128) + step
}

/// Interpolating with a zero fraction (zero elapsed time) moves nothing:
/// the point stays exactly where it was.
pub proof fn lemma_lerp_zero(a: int, b: int)
    ensures
        lerp_1(a, b, 0) == a,
{
    vstd::arithmetic::div_mod::lemma_div_of0(SCALE as int);
}

/// Interpolating with a full fraction lands exactly on the destination.
pub proof fn lemma_lerp_full(a: int, b: int)
    ensures
        lerp_1(a, b, SCALE as int) == b,
{
    lemma_div_s_exact(b - a);
    assert((b - a) * (SCALE as int) == (SCALE as int) * (b - a)) by (nonlinear_arith);
}

/// One plane rotation step in fixed point:
/// `((c*x - s*y) / SCALE, (s*x + c*y) / SCALE)`.
pub open spec fn rot_pair_s(c: int, s: int, x: int, y: int) -> (int, int) {
    (div_s(c * x - s * y), div_s(s * x + c * y))
}

/// Largest coordinate magnitude accepted by a single plane rotation step.
pub const ROT_STAGE_MAX: i64 = 8_000_000_000_000;

fn rot_pair(c: i64, s: i64, x: i64, y: i64) -> (r: (i64, i64))
    requires
        -SCALE <= c <= SCALE,
        -SCALE <= s <= SCALE,
        absi(x as int) <= ROT_STAGE_MAX,
        absi(y as int) <= ROT_STAGE_MAX,
    ensures
        r.0 == rot_pair_s(c as int, s as int, x as int, y as int).0,
        r.1 == rot_pair_s(c as int, s as int, x as int, y as int).1,
        absi(r.0 as int) <= absi(x as int) + absi(y as int),
        absi(r.1 as int) <= absi(x as int) + absi(y as int),
{
    proof {
        assert(absi((c as int) * (x as int)) <= SCALE * absi(x as int)) by (nonlinear_arith)
            requires
                -SCALE <= c <= SCALE,
        ;
        assert(absi((s as int) * (y as int)) <= SCALE * absi(y as int)) by (nonlinear_arith)
            requires
                -SCALE <= s <= SCALE,
        ;
        assert(absi((s as int) * (x as int)) <= SCALE * absi(x as int)) by (nonlinear_arith)
            requires
                -SCALE <= s <= SCALE,
        ;
        assert(absi((c as int) * (y as int)) <= SCALE * absi(y as int)) by (nonlinear_arith)
            requires
                -SCALE <= c <= SCALE,
        ;
        assert((absi(x as int) + absi(y as int)) * SCALE == SCALE * absi(x as int) + SCALE * absi(
            y as int,
        )) by (nonlinear_arith);
    }
    let n0: i128 = (c as i128) * (x as i128) - (s as i128) * (y as i128);
    let n1: i128 = (s as i128) * (x as i128) + (c as i128) * (y as i128);
    proof {
        lemma_div_s_bound(n0 as int, absi(x as int) + absi(y as int));
        lemma_div_s_bound(n1 as int, absi(x as int) + absi(y as int));
    }
    let r0: i64 = scale_down(n0);
    let r1: i64 = scale_down(n1);
    (r0, r1)
}

/// Rotating a vector by Euler angles, yaw outermost: roll about Z, then
/// pitch about X, then yaw about Y, each step a fixed-point plane rotation.
pub open spec fn rotate_s(o: Orientation, v: Vec3Fx) -> (int, int, int) {
    let cr = cos_s(o.roll as int);
    let sr = sin_s(o.roll as int);
    let cp = cos_s(o.pitch as int);
    let sp = sin_s(o.pitch as int);
    let cy = cos_s(o.yaw as int);
    let sy = sin_s(o.yaw as int);
    let s1 = rot_pair_s(cr, sr, v.x as int, v.y as int);
    let s2 = rot_pair_s(cp, sp, s1.1, v.z as int);
    let s3 = rot_pair_s(cy, sy, s2.1, s1.0);
    (s3.1, s2.0, s3.0)
}

/// Rotate `v` by the orientation `o`.
pub fn rotate_vec(o: &Orientation, v: &Vec3Fx) -> (r: Vec3Fx)
    requires
        -ANGLE_ABS_MAX <= o.yaw <= ANGLE_ABS_MAX,
        -ANGLE_ABS_MAX <= o.pitch <= ANGLE_ABS_MAX,
        -ANGLE_ABS_MAX <= o.roll <= ANGLE_ABS_MAX,
        v.bounded(ROT_IN_MAX as int),
    ensures
        r.x == rotate_s(*o, *v).0,
        r.y == rotate_s(*o, *v).1,
        r.z == rotate_s(*o, *v).2,
        r.bounded(5 * ROT_IN_MAX),
{
    let cr = cos_fx(o.roll);
    let sr = sin_fx(o.roll);
    let cp = cos_fx(o.pitch);
    let sp = sin_fx(o.pitch);
    let cy = cos_fx(o.yaw);
    let sy = sin_fx(o.yaw);
    let (x1, y1) = rot_pair(cr, sr, v.x, v.y);
    let (y2, z2) = rot_pair(cp, sp, y1, v.z);
    let (z3, x3) = rot_pair(cy, sy, z2, x1);
    Vec3Fx { x: x3, y: y2, z: z3 }
}

} // verus!
