//! Animation sampling: advance each playback clock, locate the bounding
//! keyframe interval by binary search, interpolate, and write the result
//! into the target entity's transform.
//!
//! Malformed data (out-of-range targets, empty timelines, short value
//! buffers) is skipped channel by channel and never aborts the frame.
use vstd::prelude::*;

use crate::fixed::{
    abs_int, fx_add, fx_add_spec, fx_div, fx_div_spec, fx_mul, fx_mul_spec, fx_neg, fx_neg_spec,
    fx_sub, fx_sub_spec, tdiv, SCALE,
};
use crate::math3d::{
    fx_sqrt, fx_sqrt_spec, qdot, qdot_spec, Quat, Vec3,
};
use crate::scene::{
    AnimationChannel, AnimationState, Entity, InterpolationMode, LoadedScene, TargetProperty,
};

verus! {

/// Fixed-point pi.
pub const FX_PI: i64 = 205887;

/// Dot-product threshold above which two unit quaternions count as nearly
/// identical (about 0.9995).
pub const NLERP_THRESHOLD: i64 = 65503;

/// Scalar linear interpolation `a + (b - a) * t`.
pub open spec fn fx_lerp_spec(a: int, b: int, t: int) -> int {
    fx_add_spec(a, fx_mul_spec(fx_sub_spec(b, a), t))
}

pub fn fx_lerp(a: i64, b: i64, t: i64) -> (r: i64)
    ensures
        r == fx_lerp_spec(a as int, b as int, t as int),
{
    fx_add(a, fx_mul(fx_sub(b, a), t))
}

/// Componentwise linear interpolation of two vectors.
pub open spec fn lerp_vec3_spec(a: Vec3, b: Vec3, t: int) -> Vec3 {
    Vec3 {
        x: fx_lerp_spec(a.x as int, b.x as int, t) as i64,
        y: fx_lerp_spec(a.y as int, b.y as int, t) as i64,
        z: fx_lerp_spec(a.z as int, b.z as int, t) as i64,
    }
}

pub fn lerp_vec3(a: Vec3, b: Vec3, t: i64) -> (r: Vec3)
    ensures
        r == lerp_vec3_spec(a, b, t as int),
{
    Vec3 { x: fx_lerp(a.x, b.x, t), y: fx_lerp(a.y, b.y, t), z: fx_lerp(a.z, b.z, t) }
}

/// Bhaskara's rational approximation of the sine, for arguments in
/// `[0, pi]`: `16 x (pi - x) / (5 pi^2 - 4 x (pi - x))`.
pub open spec fn fx_sin_spec(x: int) -> int {
    let p = fx_mul_spec(x, fx_sub_spec(FX_PI as int, x));
    let num = fx_mul_spec(1048576, p);
    let denom = fx_sub_spec(fx_mul_spec(327680, fx_mul_spec(FX_PI as int, FX_PI as int)),
        fx_mul_spec(262144, p));
    if denom == 0 {
        0
    } else {
        fx_div_spec(num, denom)
    }
}

pub fn fx_sin(x: i64) -> (r: i64)
    ensures
        r == fx_sin_spec(x as int),
{
    let p = fx_mul(x, fx_sub(FX_PI, x));
    let num = fx_mul(1048576, p);
    let denom = fx_sub(fx_mul(327680, fx_mul(FX_PI, FX_PI)), fx_mul(262144, p));
    if denom == 0 {
        0
    } else {
        fx_div(num, denom)
    }
}

/// Polynomial approximation of the arccosine for arguments in `[0, 1)`:
/// `sqrt(1 - x) * (a0 + a1 x + a2 x^2 + a3 x^3)`.
pub open spec fn fx_acos_spec(x: int) -> int {
    let poly = fx_add_spec(
        102940,
        fx_mul_spec(
            x,
            fx_add_spec(-13903, fx_mul_spec(x, fx_add_spec(4867, fx_mul_spec(x, -1227)))),
        ),
    );
    fx_mul_spec(fx_sqrt_spec(fx_sub_spec(SCALE as int, x)), poly)
}

pub fn fx_acos(x: i64) -> (r: i64)
    ensures
        r == fx_acos_spec(x as int),
{
    let poly = fx_add(102940, fx_mul(x, fx_add(-13903, fx_mul(x, fx_add(4867, fx_mul(x, -1227))))));
    fx_mul(fx_sqrt(fx_sub(SCALE, x)), poly)
}

/// The opposite-hemisphere representative of a quaternion.
pub open spec fn qneg_quat_spec(a: Quat) -> Quat {
    Quat {
        x: fx_neg_spec(a.x as int) as i64,
        y: fx_neg_spec(a.y as int) as i64,
        z: fx_neg_spec(a.z as int) as i64,
        w: fx_neg_spec(a.w as int) as i64,
    }
}

/// Rescale a quaternion to unit length; a zero norm degrades to the
/// identity rotation.
pub open spec fn quat_normalize_spec(q: Quat) -> Quat {
    let n = fx_sqrt_spec(qdot_spec(q, q));
    if n == 0 {
        Quat { x: 0i64, y: 0i64, z: 0i64, w: SCALE }
    } else {
        Quat {
            x: fx_div_spec(q.x as int, n) as i64,
            y: fx_div_spec(q.y as int, n) as i64,
            z: fx_div_spec(q.z as int, n) as i64,
            w: fx_div_spec(q.w as int, n) as i64,
        }
    }
}

pub fn quat_normalize(q: Quat) -> (r: Quat)
    ensures
        r == quat_normalize_spec(q),
{
    let n = fx_sqrt(qdot(q, q));
    if n == 0 {
        Quat { x: 0, y: 0, z: 0, w: SCALE }
    } else {
        Quat { x: fx_div(q.x, n), y: fx_div(q.y, n), z: fx_div(q.z, n), w: fx_div(q.w, n) }
    }
}

/// Componentwise blend of two quaternions by a pair of weights, then
/// normalization.
pub open spec fn quat_blend_spec(a: Quat, b: Quat, w0: int, w1: int) -> Quat {
    quat_normalize_spec(
        Quat {
            x: fx_add_spec(fx_mul_spec(a.x as int, w0), fx_mul_spec(b.x as int, w1)) as i64,
            y: fx_add_spec(fx_mul_spec(a.y as int, w0), fx_mul_spec(b.y as int, w1)) as i64,
            z: fx_add_spec(fx_mul_spec(a.z as int, w0), fx_mul_spec(b.z as int, w1)) as i64,
            w: fx_add_spec(fx_mul_spec(a.w as int, w0), fx_mul_spec(b.w as int, w1)) as i64,
        },
    )
}

fn quat_blend(a: Quat, b: Quat, w0: i64, w1: i64) -> (r: Quat)
    ensures
        r == quat_blend_spec(a, b, w0 as int, w1 as int),
{
    quat_normalize(
        Quat {
            x: fx_add(fx_mul(a.x, w0), fx_mul(b.x, w1)),
            y: fx_add(fx_mul(a.y, w0), fx_mul(b.y, w1)),
            z: fx_add(fx_mul(a.z, w0), fx_mul(b.z, w1)),
            w: fx_add(fx_mul(a.w, w0), fx_mul(b.w, w1)),
        },
    )
}

/// Shortest-path spherical interpolation between two quaternions, with a
/// normalized-linear fallback when they are nearly identical. The
/// endpoints `t = 0` and `t = 1` reproduce the inputs exactly (the far
/// input negated when the shortest path crosses hemispheres); every
/// interior result is normalized.
pub open spec fn slerp_quat_spec(a: Quat, b: Quat, t: i64) -> Quat {
    let dot0 = qdot_spec(a, b);
    let b2 = if dot0 < 0 {
        qneg_quat_spec(b)
    } else {
        b
    };
    let dot = if dot0 < 0 {
        fx_neg_spec(dot0)
    } else {
        dot0
    };
    if t == 0 {
        a
    } else if t == SCALE {
        b2
    } else if dot > NLERP_THRESHOLD as int {
        quat_blend_spec(a, b2, fx_sub_spec(SCALE as int, t as int), t as int)
    } else {
        let theta = fx_acos_spec(dot);
        let sin_theta = fx_sin_spec(theta);
        if sin_theta == 0 {
            quat_blend_spec(a, b2, fx_sub_spec(SCALE as int, t as int), t as int)
        } else {
            let w0 = fx_div_spec(
                fx_sin_spec(fx_mul_spec(fx_sub_spec(SCALE as int, t as int), theta)),
                sin_theta,
            );
            let w1 = fx_div_spec(fx_sin_spec(fx_mul_spec(t as int, theta)), sin_theta);
            quat_blend_spec(a, b2, w0, w1)
        }
    }
}

pub fn slerp_quat(a: Quat, b: Quat, t: i64) -> (r: Quat)
    ensures
        r == slerp_quat_spec(a, b, t),
{
    let dot0 = qdot(a, b);
    let b2 = if dot0 < 0 {
        Quat { x: fx_neg(b.x), y: fx_neg(b.y), z: fx_neg(b.z), w: fx_neg(b.w) }
    } else {
        b
    };
    let dot = if dot0 < 0 {
        fx_neg(dot0)
    } else {
        dot0
    };
    if t == 0 {
        return a;
    }
    if t == SCALE {
        return b2;
    }
    if dot > NLERP_THRESHOLD {
        return quat_blend(a, b2, fx_sub(SCALE, t), t);
    }
    let theta = fx_acos(dot);
    let sin_theta = fx_sin(theta);
    if sin_theta == 0 {
        return quat_blend(a, b2, fx_sub(SCALE, t), t);
    }
    let w0 = fx_div(fx_sin(fx_mul(fx_sub(SCALE, t), theta)), sin_theta);
    let w1 = fx_div(fx_sin(fx_mul(t, theta)), sin_theta);
    quat_blend(a, b2, w0, w1)
}

/// Squaring a moderate scalar in fixed point: the result is the exact
/// Euclidean quotient of the square by the scale, and stays small.
proof fn lemma_fx_square(x: int)
    requires
        -262144 <= x <= 262144,
    ensures
        fx_mul_spec(x, x) == (x * x) / (SCALE as int),
        0 <= fx_mul_spec(x, x) <= 16 * (SCALE as int),
        fx_mul_spec(x, x) * (SCALE as int) <= x * x,
        x * x < fx_mul_spec(x, x) * (SCALE as int) + (SCALE as int),
{
    let s = SCALE as int;
    let xx = x * x;
    assert(xx >= 0) by (nonlinear_arith)
        requires
            xx == x * x,
    ;
    assert(xx <= 262144 * 262144) by (nonlinear_arith)
        requires
            xx == x * x,
            -262144 <= x <= 262144,
    ;
    assert(abs_int(xx) == xx);
    vstd::arithmetic::div_mod::lemma_fundamental_div_mod(xx, s);
    vstd::arithmetic::div_mod::lemma_div_is_ordered(xx, 262144int * 262144, s);
    vstd::arithmetic::div_mod::lemma_div_is_ordered(0, xx, s);
    assert((262144int * 262144) / s == 16 * s);
    assert(s * (xx / s) == (xx / s) * s) by (nonlinear_arith);
}

/// The absolute value squares to the same product.
proof fn lemma_abs_square(x: int)
    ensures
        abs_int(x) * abs_int(x) == x * x,
        abs_int(x) >= 0,
{
    if x < 0 {
        assert((-x) * (-x) == x * x) by (nonlinear_arith);
    }
}

/// Dividing a near-unit component by the norm's root: the quotient's
/// magnitude brackets the exact ratio and stays within four units.
proof fn lemma_fx_div_by_root(qi: int, r: int)
    requires
        32768 <= r <= 262144,
        -131072 <= qi <= 131072,
    ensures
        ({
            let yi = fx_div_spec(qi, r);
            let fi = abs_int(yi);
            &&& -262144 <= yi <= 262144
            &&& 0 <= fi <= 262144
            &&& fi * r <= abs_int(qi) * (SCALE as int)
            &&& abs_int(qi) * (SCALE as int) < (fi + 1) * r
            &&& yi * yi == fi * fi
        }),
{
    let s = SCALE as int;
    let a = abs_int(qi);
    let num = a * s;
    assert(num >= 0) by (nonlinear_arith)
        requires
            num == a * s,
            a >= 0,
            s > 0,
    ;
    assert(num <= 131072 * 65536) by (nonlinear_arith)
        requires
            num == a * s,
            0 <= a <= 131072,
            s == 65536,
    ;
    let f = num / r;
    vstd::arithmetic::div_mod::lemma_fundamental_div_mod(num, r);
    vstd::arithmetic::div_mod::lemma_div_is_ordered(0, num, r);
    assert(r * f == f * r) by (nonlinear_arith);
    assert(f * r <= num < (f + 1) * r) by (nonlinear_arith)
        requires
            num == r * f + num % r,
            0 <= num % r < r,
            r * f == f * r,
    ;
    assert(f <= 4 * s) by (nonlinear_arith)
        requires
            f * r <= num,
            num <= 131072 * 65536,
            r >= 32768,
            f >= 0,
            s == 65536,
    ;
    assert(abs_int(qi * s) == a * s) by (nonlinear_arith)
        requires
            a == abs_int(qi),
            s > 0,
    ;
    assert(tdiv(qi * s, r) == if qi >= 0 {
        f
    } else {
        -f
    });
    assert(fx_div_spec(qi, r) == if qi >= 0 {
        f
    } else {
        -f
    });
    assert((-f) * (-f) == f * f) by (nonlinear_arith);
}

/// Rescaling by the root of the squared norm yields a unit quaternion
/// within tolerance: for any quaternion with components below two and a
/// squared norm of at least a quarter, the squared norm after
/// `quat_normalize` is within `64 / 65536` of one.
pub proof fn lemma_normalize_unit_norm(q: Quat)
    requires
        -131072 <= q.x <= 131072,
        -131072 <= q.y <= 131072,
        -131072 <= q.z <= 131072,
        -131072 <= q.w <= 131072,
        qdot_spec(q, q) >= 16384,
    ensures
        (SCALE as int) - 64 <= qdot_spec(quat_normalize_spec(q), quat_normalize_spec(q)) <= (
        SCALE as int) + 64,
{
    let s = SCALE as int;
    lemma_fx_square(q.x as int);
    lemma_fx_square(q.y as int);
    lemma_fx_square(q.z as int);
    lemma_fx_square(q.w as int);
    lemma_abs_square(q.x as int);
    lemma_abs_square(q.y as int);
    lemma_abs_square(q.z as int);
    lemma_abs_square(q.w as int);
    let cx = fx_mul_spec(q.x as int, q.x as int);
    let cy = fx_mul_spec(q.y as int, q.y as int);
    let cz = fx_mul_spec(q.z as int, q.z as int);
    let cw = fx_mul_spec(q.w as int, q.w as int);
    let n2 = qdot_spec(q, q);
    assert(n2 == cx + cy + cz + cw);
    let nn = (q.x as int) * (q.x as int) + (q.y as int) * (q.y as int) + (q.z as int) * (
    q.z as int) + (q.w as int) * (q.w as int);
    assert(n2 * s <= nn < n2 * s + 4 * s) by (nonlinear_arith)
        requires
            cx * s <= (q.x as int) * (q.x as int) < cx * s + s,
            cy * s <= (q.y as int) * (q.y as int) < cy * s + s,
            cz * s <= (q.z as int) * (q.z as int) < cz * s + s,
            cw * s <= (q.w as int) * (q.w as int) < cw * s + s,
            n2 == cx + cy + cz + cw,
            nn == (q.x as int) * (q.x as int) + (q.y as int) * (q.y as int) + (q.z as int) * (
            q.z as int) + (q.w as int) * (q.w as int),
    ;
    // component squares stay below four, so the squared norm stays
    // below sixteen
    assert((q.x as int) * (q.x as int) <= 131072 * 131072) by (nonlinear_arith)
        requires
            -131072 <= q.x <= 131072,
    ;
    assert((q.y as int) * (q.y as int) <= 131072 * 131072) by (nonlinear_arith)
        requires
            -131072 <= q.y <= 131072,
    ;
    assert((q.z as int) * (q.z as int) <= 131072 * 131072) by (nonlinear_arith)
        requires
            -131072 <= q.z <= 131072,
    ;
    assert((q.w as int) * (q.w as int) <= 131072 * 131072) by (nonlinear_arith)
        requires
            -131072 <= q.w <= 131072,
    ;
    assert(cx <= 4 * s && cy <= 4 * s && cz <= 4 * s && cw <= 4 * s) by (nonlinear_arith)
        requires
            cx * s <= (q.x as int) * (q.x as int),
            cy * s <= (q.y as int) * (q.y as int),
            cz * s <= (q.z as int) * (q.z as int),
            cw * s <= (q.w as int) * (q.w as int),
            (q.x as int) * (q.x as int) <= 131072 * 131072,
            (q.y as int) * (q.y as int) <= 131072 * 131072,
            (q.z as int) * (q.z as int) <= 131072 * 131072,
            (q.w as int) * (q.w as int) <= 131072 * 131072,
            s == 65536,
    ;
    assert(n2 <= 16 * s);
    crate::math3d::lemma_isqrt_exists((n2 * s) as nat);
    let r = fx_sqrt_spec(n2);
    assert(r == crate::math3d::isqrt_spec((n2 * s) as nat) as int);
    assert(r * r <= n2 * s && (r + 1) * (r + 1) > n2 * s);
    assert(r >= 32768) by (nonlinear_arith)
        requires
            (r + 1) * (r + 1) > n2 * s,
            n2 >= 16384,
            s == 65536,
            r >= 0,
    ;
    assert(r <= 262144) by (nonlinear_arith)
        requires
            r * r <= n2 * s,
            n2 <= 16 * s,
            s == 65536,
            r >= 0,
    ;
    lemma_fx_div_by_root(q.x as int, r);
    lemma_fx_div_by_root(q.y as int, r);
    lemma_fx_div_by_root(q.z as int, r);
    lemma_fx_div_by_root(q.w as int, r);
    let yx = fx_div_spec(q.x as int, r);
    let yy = fx_div_spec(q.y as int, r);
    let yz = fx_div_spec(q.z as int, r);
    let yw = fx_div_spec(q.w as int, r);
    let fx_ = abs_int(yx);
    let fy_ = abs_int(yy);
    let fz_ = abs_int(yz);
    let fw_ = abs_int(yw);
    let ax = abs_int(q.x as int);
    let ay = abs_int(q.y as int);
    let az = abs_int(q.z as int);
    let aw = abs_int(q.w as int);
    let out = quat_normalize_spec(q);
    assert(out.x as int == yx && out.y as int == yy && out.z as int == yz && out.w as int == yw);
    lemma_fx_square(yx);
    lemma_fx_square(yy);
    lemma_fx_square(yz);
    lemma_fx_square(yw);
    let m = qdot_spec(out, out);
    assert(m == fx_mul_spec(yx, yx) + fx_mul_spec(yy, yy) + fx_mul_spec(yz, yz) + fx_mul_spec(
        yw,
        yw,
    ));
    let f2 = fx_ * fx_ + fy_ * fy_ + fz_ * fz_ + fw_ * fw_;
    assert(m * s <= f2 < m * s + 4 * s) by (nonlinear_arith)
        requires
            fx_mul_spec(yx, yx) * s <= yx * yx < fx_mul_spec(yx, yx) * s + s,
            fx_mul_spec(yy, yy) * s <= yy * yy < fx_mul_spec(yy, yy) * s + s,
            fx_mul_spec(yz, yz) * s <= yz * yz < fx_mul_spec(yz, yz) * s + s,
            fx_mul_spec(yw, yw) * s <= yw * yw < fx_mul_spec(yw, yw) * s + s,
            yx * yx == fx_ * fx_,
            yy * yy == fy_ * fy_,
            yz * yz == fz_ * fz_,
            yw * yw == fw_ * fw_,
            m == fx_mul_spec(yx, yx) + fx_mul_spec(yy, yy) + fx_mul_spec(yz, yz) + fx_mul_spec(
                yw,
                yw,
            ),
            f2 == fx_ * fx_ + fy_ * fy_ + fz_ * fz_ + fw_ * fw_,
    ;
    let f1 = fx_ + fy_ + fz_ + fw_;
    assert(f1 <= 16 * s) by (nonlinear_arith)
        requires
            fx_ * r <= ax * s,
            fy_ * r <= ay * s,
            fz_ * r <= az * s,
            fw_ * r <= aw * s,
            ax <= 2 * s && ay <= 2 * s && az <= 2 * s && aw <= 2 * s,
            r >= 32768,
            fx_ >= 0 && fy_ >= 0 && fz_ >= 0 && fw_ >= 0,
            f1 == fx_ + fy_ + fz_ + fw_,
            s == 65536,
    ;
    // squared-magnitude comparison, one component at a time
    assert(fx_ * fx_ * (r * r) <= ax * ax * (s * s)) by (nonlinear_arith)
        requires
            fx_ * r <= ax * s,
            fx_ >= 0 && ax >= 0 && r >= 0 && s >= 0,
    ;
    assert(fy_ * fy_ * (r * r) <= ay * ay * (s * s)) by (nonlinear_arith)
        requires
            fy_ * r <= ay * s,
            fy_ >= 0 && ay >= 0 && r >= 0 && s >= 0,
    ;
    assert(fz_ * fz_ * (r * r) <= az * az * (s * s)) by (nonlinear_arith)
        requires
            fz_ * r <= az * s,
            fz_ >= 0 && az >= 0 && r >= 0 && s >= 0,
    ;
    assert(fw_ * fw_ * (r * r) <= aw * aw * (s * s)) by (nonlinear_arith)
        requires
            fw_ * r <= aw * s,
            fw_ >= 0 && aw >= 0 && r >= 0 && s >= 0,
    ;
    assert(f2 * (r * r) <= nn * (s * s)) by (nonlinear_arith)
        requires
            fx_ * fx_ * (r * r) <= ax * ax * (s * s),
            fy_ * fy_ * (r * r) <= ay * ay * (s * s),
            fz_ * fz_ * (r * r) <= az * az * (s * s),
            fw_ * fw_ * (r * r) <= aw * aw * (s * s),
            ax * ax == (q.x as int) * (q.x as int),
            ay * ay == (q.y as int) * (q.y as int),
            az * az == (q.z as int) * (q.z as int),
            aw * aw == (q.w as int) * (q.w as int),
            f2 == fx_ * fx_ + fy_ * fy_ + fz_ * fz_ + fw_ * fw_,
            nn == (q.x as int) * (q.x as int) + (q.y as int) * (q.y as int) + (q.z as int) * (
            q.z as int) + (q.w as int) * (q.w as int),
    ;
    assert(ax * ax * (s * s) < (fx_ + 1) * (fx_ + 1) * (r * r)) by (nonlinear_arith)
        requires
            ax * s < (fx_ + 1) * r,
            fx_ >= 0 && ax >= 0 && r >= 0 && s >= 0,
    ;
    assert(ay * ay * (s * s) < (fy_ + 1) * (fy_ + 1) * (r * r)) by (nonlinear_arith)
        requires
            ay * s < (fy_ + 1) * r,
            fy_ >= 0 && ay >= 0 && r >= 0 && s >= 0,
    ;
    assert(az * az * (s * s) < (fz_ + 1) * (fz_ + 1) * (r * r)) by (nonlinear_arith)
        requires
            az * s < (fz_ + 1) * r,
            fz_ >= 0 && az >= 0 && r >= 0 && s >= 0,
    ;
    assert(aw * aw * (s * s) < (fw_ + 1) * (fw_ + 1) * (r * r)) by (nonlinear_arith)
        requires
            aw * s < (fw_ + 1) * r,
            fw_ >= 0 && aw >= 0 && r >= 0 && s >= 0,
    ;
    assert(nn * (s * s) < (f2 + 2 * f1 + 4) * (r * r)) by (nonlinear_arith)
        requires
            ax * ax * (s * s) < (fx_ + 1) * (fx_ + 1) * (r * r),
            ay * ay * (s * s) < (fy_ + 1) * (fy_ + 1) * (r * r),
            az * az * (s * s) < (fz_ + 1) * (fz_ + 1) * (r * r),
            aw * aw * (s * s) < (fw_ + 1) * (fw_ + 1) * (r * r),
            ax * ax == (q.x as int) * (q.x as int),
            ay * ay == (q.y as int) * (q.y as int),
            az * az == (q.z as int) * (q.z as int),
            aw * aw == (q.w as int) * (q.w as int),
            f1 == fx_ + fy_ + fz_ + fw_,
            f2 == fx_ * fx_ + fy_ * fy_ + fz_ * fz_ + fw_ * fw_,
            nn == (q.x as int) * (q.x as int) + (q.y as int) * (q.y as int) + (q.z as int) * (
            q.z as int) + (q.w as int) * (q.w as int),
    ;
    // upper bound
    assert(m <= s + 64) by (nonlinear_arith)
        requires
            m * s <= f2,
            f2 * (r * r) <= nn * (s * s),
            nn < n2 * s + 4 * s,
            n2 * s < (r + 1) * (r + 1),
            32768 <= r <= 262144,
            s == 65536,
            m >= 0,
    ;
    // lower bound
    assert(m >= s - 64) by (nonlinear_arith)
        requires
            f2 < m * s + 4 * s,
            nn * (s * s) < (f2 + 2 * f1 + 4) * (r * r),
            f1 <= 16 * s,
            r * r <= n2 * s,
            n2 * s <= nn,
            32768 <= r <= 262144,
            s == 65536,
    ;
}

/// A fixed-point product of a unit-bounded scalar and a unit-bounded
/// weight stays unit-bounded.
proof fn lemma_fx_mul_weight_bounded(x: int, w: int)
    requires
        -65536 <= x <= 65536,
        0 <= w <= 65536,
    ensures
        -65536 <= fx_mul_spec(x, w) <= 65536,
{
    let s = SCALE as int;
    let p = x * w;
    assert(-65536 * 65536 <= p <= 65536 * 65536) by (nonlinear_arith)
        requires
            p == x * w,
            -65536 <= x <= 65536,
            0 <= w <= 65536,
    ;
    if p >= 0 {
        assert(abs_int(p) == p);
        vstd::arithmetic::div_mod::lemma_div_is_ordered(p, 65536int * 65536, s);
        vstd::arithmetic::div_mod::lemma_div_is_ordered(0, p, s);
        assert((65536int * 65536) / s == 65536);
    } else {
        assert(abs_int(p) == -p);
        vstd::arithmetic::div_mod::lemma_div_is_ordered(-p, 65536int * 65536, s);
        vstd::arithmetic::div_mod::lemma_div_is_ordered(0, -p, s);
        assert((65536int * 65536) / s == 65536);
    }
}

/// Blending two unit-bounded quaternions by weights in `[0, 1]` yields a
/// unit quaternion within tolerance, provided the weighted sum retains at
/// least a quarter of the squared norm (which holds whenever the blend
/// does not cancel itself, e.g. on the same hemisphere with weights that
/// do not both vanish).
pub proof fn lemma_blend_unit_norm(a: Quat, b: Quat, w0: i64, w1: i64)
    requires
        -65536 <= a.x <= 65536 && -65536 <= a.y <= 65536 && -65536 <= a.z <= 65536 && -65536
            <= a.w <= 65536,
        -65536 <= b.x <= 65536 && -65536 <= b.y <= 65536 && -65536 <= b.z <= 65536 && -65536
            <= b.w <= 65536,
        0 <= w0 <= SCALE,
        0 <= w1 <= SCALE,
        ({
            let v = Quat {
                x: fx_add_spec(
                    fx_mul_spec(a.x as int, w0 as int),
                    fx_mul_spec(b.x as int, w1 as int),
                ) as i64,
                y: fx_add_spec(
                    fx_mul_spec(a.y as int, w0 as int),
                    fx_mul_spec(b.y as int, w1 as int),
                ) as i64,
                z: fx_add_spec(
                    fx_mul_spec(a.z as int, w0 as int),
                    fx_mul_spec(b.z as int, w1 as int),
                ) as i64,
                w: fx_add_spec(
                    fx_mul_spec(a.w as int, w0 as int),
                    fx_mul_spec(b.w as int, w1 as int),
                ) as i64,
            };
            qdot_spec(v, v) >= 16384
        }),
    ensures
        ({
            let r = quat_blend_spec(a, b, w0 as int, w1 as int);
            (SCALE as int) - 64 <= qdot_spec(r, r) <= (SCALE as int) + 64
        }),
{
    lemma_fx_mul_weight_bounded(a.x as int, w0 as int);
    lemma_fx_mul_weight_bounded(a.y as int, w0 as int);
    lemma_fx_mul_weight_bounded(a.z as int, w0 as int);
    lemma_fx_mul_weight_bounded(a.w as int, w0 as int);
    lemma_fx_mul_weight_bounded(b.x as int, w1 as int);
    lemma_fx_mul_weight_bounded(b.y as int, w1 as int);
    lemma_fx_mul_weight_bounded(b.z as int, w1 as int);
    lemma_fx_mul_weight_bounded(b.w as int, w1 as int);
    let v = Quat {
        x: fx_add_spec(fx_mul_spec(a.x as int, w0 as int), fx_mul_spec(b.x as int, w1 as int)) as i64,
        y: fx_add_spec(fx_mul_spec(a.y as int, w0 as int), fx_mul_spec(b.y as int, w1 as int)) as i64,
        z: fx_add_spec(fx_mul_spec(a.z as int, w0 as int), fx_mul_spec(b.z as int, w1 as int)) as i64,
        w: fx_add_spec(fx_mul_spec(a.w as int, w0 as int), fx_mul_spec(b.w as int, w1 as int)) as i64,
    };
    assert(-131072 <= v.x <= 131072 && -131072 <= v.y <= 131072 && -131072 <= v.z <= 131072
        && -131072 <= v.w <= 131072);
    lemma_normalize_unit_norm(v);
    assert(quat_blend_spec(a, b, w0 as int, w1 as int) == quat_normalize_spec(v));
}

/// Scaling by a factor in `[0, 1]` keeps a value between zero and
/// itself.
proof fn lemma_fx_mul_unit_range(a: int, b: int)
    requires
        0 <= a <= SCALE as int,
        -4294967296 <= b <= 4294967296,
    ensures
        b >= 0 ==> 0 <= fx_mul_spec(a, b) <= b,
        b < 0 ==> b <= fx_mul_spec(a, b) <= 0,
{
    let s = SCALE as int;
    if b >= 0 {
        assert(0 <= a * b <= s * b) by (nonlinear_arith)
            requires
                0 <= a <= s,
                b >= 0,
        ;
        assert(abs_int(a * b) == a * b);
        vstd::arithmetic::div_mod::lemma_div_is_ordered(0, a * b, s);
        vstd::arithmetic::div_mod::lemma_div_is_ordered(a * b, s * b, s);
        assert((s * b) / s == b) by {
            vstd::arithmetic::div_mod::lemma_div_multiples_vanish(b, s);
        }
    } else {
        assert(0 <= a * (-b) <= s * (-b)) by (nonlinear_arith)
            requires
                0 <= a <= s,
                b < 0,
        ;
        assert(abs_int(a * b) == a * (-b)) by (nonlinear_arith)
            requires
                b < 0,
                a >= 0,
        ;
        vstd::arithmetic::div_mod::lemma_div_is_ordered(0, a * (-b), s);
        vstd::arithmetic::div_mod::lemma_div_is_ordered(a * (-b), s * (-b), s);
        assert((s * (-b)) / s == -b) by {
            vstd::arithmetic::div_mod::lemma_div_multiples_vanish(-b, s);
        }
        if a * b == 0 {
            assert(a * (-b) == 0);
            assert(tdiv(a * b, s) == 0);
        } else {
            assert(a * b < 0) by (nonlinear_arith)
                requires
                    a * b != 0,
                    a >= 0,
                    b < 0,
            ;
            assert(tdiv(a * b, s) == -((a * (-b)) / s));
        }
    }
}

/// The arccosine approximation stays within a quarter turn for inputs
/// in `[0, 1]`.
proof fn lemma_fx_acos_range(x: int)
    requires
        0 <= x <= SCALE as int,
    ensures
        0 <= fx_acos_spec(x) <= 102940,
{
    let s = SCALE as int;
    lemma_fx_mul_unit_range(x, -1227);
    let i2 = fx_add_spec(4867, fx_mul_spec(x, -1227));
    assert(3640 <= i2 <= 4867);
    lemma_fx_mul_unit_range(x, i2);
    let i1 = fx_add_spec(-13903, fx_mul_spec(x, i2));
    assert(-13903 <= i1 <= -9036);
    lemma_fx_mul_unit_range(x, i1);
    let poly = fx_add_spec(102940, fx_mul_spec(x, i1));
    assert(89037 <= poly <= 102940);
    let root = fx_sqrt_spec(fx_sub_spec(s, x));
    assert(0 <= fx_sub_spec(s, x) <= s);
    crate::math3d::lemma_isqrt_exists((fx_sub_spec(s, x) * s) as nat);
    assert(0 <= root <= s) by (nonlinear_arith)
        requires
            root >= 0,
            root * root <= fx_sub_spec(s, x) * s,
            0 <= fx_sub_spec(s, x) <= s,
            s == 65536,
    ;
    lemma_fx_mul_unit_range(root, poly);
}

/// The sine approximation is non-negative and monotone on the first
/// quarter turn.
proof fn lemma_fx_sin_monotone(x1: int, x2: int)
    requires
        0 <= x1 <= x2 <= 102940,
    ensures
        0 <= fx_sin_spec(x1) <= fx_sin_spec(x2),
{
    let s = SCALE as int;
    let pi = FX_PI as int;
    // products with the supplement, before rescaling
    let r1 = x1 * (pi - x1);
    let r2 = x2 * (pi - x2);
    assert(0 <= r1 && 0 <= r2 && r1 <= r2 && r2 <= 102940 * 205887) by (nonlinear_arith)
        requires
            r1 == x1 * (pi - x1),
            r2 == x2 * (pi - x2),
            0 <= x1 <= x2 <= 102940,
            pi == 205887,
    ;
    let p1 = fx_mul_spec(x1, fx_sub_spec(pi, x1));
    let p2 = fx_mul_spec(x2, fx_sub_spec(pi, x2));
    assert(p1 == r1 / s && p2 == r2 / s) by {
        assert(fx_sub_spec(pi, x1) == pi - x1 && fx_sub_spec(pi, x2) == pi - x2);
        assert(abs_int(r1) == r1 && abs_int(r2) == r2);
    }
    vstd::arithmetic::div_mod::lemma_div_is_ordered(0, r1, s);
    vstd::arithmetic::div_mod::lemma_div_is_ordered(r1, r2, s);
    vstd::arithmetic::div_mod::lemma_div_is_ordered(r2, 102940int * 205887, s);
    assert((102940int * 205887) / s == 323394);
    assert(0 <= p1 <= p2 <= 323394);
    // numerators: sixteen times the product, exactly
    let n1 = fx_mul_spec(1048576, p1);
    let n2 = fx_mul_spec(1048576, p2);
    assert(n1 == 16 * p1 && n2 == 16 * p2) by {
        assert(abs_int(1048576 * p1) == 1048576 * p1 && abs_int(1048576 * p2) == 1048576 * p2)
            by (nonlinear_arith)
            requires
                p1 >= 0,
                p2 >= 0,
        ;
        assert((1048576 * p1) / s == 16 * p1 && (1048576 * p2) / s == 16 * p2) by {
            vstd::arithmetic::div_mod::lemma_div_multiples_vanish(16 * p1, s);
            vstd::arithmetic::div_mod::lemma_div_multiples_vanish(16 * p2, s);
            assert(1048576 * p1 == s * (16 * p1) && 1048576 * p2 == s * (16 * p2))
                by (nonlinear_arith)
                requires
                    s == 65536,
            ;
        }
    }
    // the constant term and the denominators, exactly
    let pp = fx_mul_spec(pi, pi);
    assert(pp == (205887int * 205887) / s) by {
        assert(abs_int(pi * pi) == pi * pi) by (nonlinear_arith);
    }
    assert(pp == 646811);
    let c = fx_mul_spec(327680, pp);
    assert(c == 5 * pp) by {
        assert(abs_int(327680 * pp) == 327680 * pp) by (nonlinear_arith)
            requires
                pp >= 0,
        ;
        vstd::arithmetic::div_mod::lemma_div_multiples_vanish(5 * pp, s);
        assert(327680 * pp == s * (5 * pp)) by (nonlinear_arith)
            requires
                s == 65536,
        ;
    }
    let q1 = fx_mul_spec(262144, p1);
    let q2 = fx_mul_spec(262144, p2);
    assert(q1 == 4 * p1 && q2 == 4 * p2) by {
        assert(abs_int(262144 * p1) == 262144 * p1 && abs_int(262144 * p2) == 262144 * p2)
            by (nonlinear_arith)
            requires
                p1 >= 0,
                p2 >= 0,
        ;
        vstd::arithmetic::div_mod::lemma_div_multiples_vanish(4 * p1, s);
        vstd::arithmetic::div_mod::lemma_div_multiples_vanish(4 * p2, s);
        assert(262144 * p1 == s * (4 * p1) && 262144 * p2 == s * (4 * p2)) by (nonlinear_arith)
            requires
                s == 65536,
        ;
    }
    let d1 = fx_sub_spec(c, q1);
    let d2 = fx_sub_spec(c, q2);
    assert(d1 == 5 * 646811 - 4 * p1 && d2 == 5 * 646811 - 4 * p2);
    assert(d1 >= d2 > 0);
    // the sine is the rescaled quotient; same shape on both sides
    assert(fx_sin_spec(x1) == (n1 * s) / d1 && fx_sin_spec(x2) == (n2 * s) / d2) by {
        assert(abs_int(n1 * s) == n1 * s && abs_int(n2 * s) == n2 * s) by (nonlinear_arith)
            requires
                n1 >= 0,
                n2 >= 0,
                s > 0,
        ;
    }
    vstd::arithmetic::div_mod::lemma_div_is_ordered(0, n1 * s, d1);
    // cross-divisor monotonicity: numerator up, denominator down
    let w1 = (n1 * s) / d1;
    let w2 = (n2 * s) / d2;
    vstd::arithmetic::div_mod::lemma_fundamental_div_mod(n1 * s, d1);
    vstd::arithmetic::div_mod::lemma_fundamental_div_mod(n2 * s, d2);
    assert(w1 * d2 <= w1 * d1) by (nonlinear_arith)
        requires
            w1 >= 0,
            0 < d2 <= d1,
    ;
    assert(w1 * d1 <= n1 * s) by (nonlinear_arith)
        requires
            n1 * s == d1 * w1 + (n1 * s) % d1,
            0 <= (n1 * s) % d1,
    ;
    assert(n1 * s <= n2 * s) by (nonlinear_arith)
        requires
            n1 <= n2,
            s > 0,
    ;
    assert(w1 <= w2) by (nonlinear_arith)
        requires
            w1 * d2 <= n2 * s,
            n2 * s == d2 * w2 + (n2 * s) % d2,
            0 <= (n2 * s) % d2 < d2,
            d2 > 0,
    ;
}

/// A sine ratio against a wider angle is a weight in `[0, 1]`.
proof fn lemma_trig_weight_bounded(x: int, theta: int)
    requires
        0 <= x <= theta <= 102940,
        fx_sin_spec(theta) != 0,
    ensures
        0 <= fx_div_spec(fx_sin_spec(x), fx_sin_spec(theta)) <= SCALE as int,
{
    let s = SCALE as int;
    lemma_fx_sin_monotone(x, theta);
    lemma_fx_sin_monotone(theta, theta);
    let sx = fx_sin_spec(x);
    let st = fx_sin_spec(theta);
    assert(0 <= sx <= st && st > 0);
    assert(abs_int(sx * s) == sx * s) by (nonlinear_arith)
        requires
            sx >= 0,
            s > 0,
    ;
    assert(sx * s <= st * s) by (nonlinear_arith)
        requires
            sx <= st,
            s > 0,
    ;
    vstd::arithmetic::div_mod::lemma_div_is_ordered(0, sx * s, st);
    vstd::arithmetic::div_mod::lemma_div_is_ordered(sx * s, st * s, st);
    assert((st * s) / st == s) by {
        vstd::arithmetic::div_mod::lemma_div_multiples_vanish(s, st);
        assert(st * s == s * st) by (nonlinear_arith);
    }
}

/// Away from its endpoints, interpolation always produces a
/// normalization of some blend of the start rotation and the (possibly
/// hemisphere-folded) end rotation by weights in `[0, 1]` — in the
/// nearly-identical fallback and in the general trigonometric branch
/// alike. Together with the blend lemma this pins the unit-norm
/// behaviour of every interior result.
pub proof fn lemma_slerp_interior_is_bounded_blend(a: Quat, b: Quat, t: i64)
    requires
        -65536 <= a.x <= 65536 && -65536 <= a.y <= 65536 && -65536 <= a.z <= 65536 && -65536
            <= a.w <= 65536,
        -65536 <= b.x <= 65536 && -65536 <= b.y <= 65536 && -65536 <= b.z <= 65536 && -65536
            <= b.w <= 65536,
        0 < t < SCALE,
    ensures
        qdot_spec(a, b) >= 0 ==> exists|w0: int, w1: int|
            0 <= w0 <= SCALE as int && 0 <= w1 <= SCALE as int && slerp_quat_spec(a, b, t)
                == #[trigger] quat_blend_spec(a, b, w0, w1),
        qdot_spec(a, b) < 0 ==> exists|w0: int, w1: int|
            0 <= w0 <= SCALE as int && 0 <= w1 <= SCALE as int && slerp_quat_spec(a, b, t)
                == #[trigger] quat_blend_spec(a, qneg_quat_spec(b), w0, w1),
{
    let s = SCALE as int;
    lemma_qdot_neg(a, b);
    let dot0 = qdot_spec(a, b);
    let b2 = if dot0 < 0 {
        qneg_quat_spec(b)
    } else {
        b
    };
    let dot = if dot0 < 0 {
        fx_neg_spec(dot0)
    } else {
        dot0
    };
    assert(dot == abs_int(dot0));
    let pair: (int, int) = if dot > NLERP_THRESHOLD as int {
        (fx_sub_spec(s, t as int), t as int)
    } else {
        lemma_fx_acos_range(dot);
        let theta = fx_acos_spec(dot);
        let sin_theta = fx_sin_spec(theta);
        if sin_theta == 0 {
            (fx_sub_spec(s, t as int), t as int)
        } else {
            lemma_fx_mul_unit_range(fx_sub_spec(s, t as int), theta);
            lemma_fx_mul_unit_range(t as int, theta);
            let x0 = fx_mul_spec(fx_sub_spec(s, t as int), theta);
            let x1 = fx_mul_spec(t as int, theta);
            lemma_trig_weight_bounded(x0, theta);
            lemma_trig_weight_bounded(x1, theta);
            (fx_div_spec(fx_sin_spec(x0), sin_theta), fx_div_spec(fx_sin_spec(x1), sin_theta))
        }
    };
    assert(0 <= pair.0 <= s && 0 <= pair.1 <= s);
    assert(slerp_quat_spec(a, b, t) == quat_blend_spec(a, b2, pair.0, pair.1));
    if dot0 < 0 {
        assert(exists|w0: int, w1: int|
            0 <= w0 <= SCALE as int && 0 <= w1 <= SCALE as int && slerp_quat_spec(a, b, t)
                == #[trigger] quat_blend_spec(a, qneg_quat_spec(b), w0, w1)) by {
            assert(0 <= pair.0 <= SCALE as int && 0 <= pair.1 <= SCALE as int
                && slerp_quat_spec(a, b, t) == quat_blend_spec(
                a,
                qneg_quat_spec(b),
                pair.0,
                pair.1,
            ));
        }
    } else {
        assert(exists|w0: int, w1: int|
            0 <= w0 <= SCALE as int && 0 <= w1 <= SCALE as int && slerp_quat_spec(a, b, t)
                == #[trigger] quat_blend_spec(a, b, w0, w1)) by {
            assert(0 <= pair.0 <= SCALE as int && 0 <= pair.1 <= SCALE as int
                && slerp_quat_spec(a, b, t) == quat_blend_spec(a, b, pair.0, pair.1));
        }
    }
}

/// Negating one factor of a bounded fixed-point product negates the
/// product.
proof fn lemma_fx_mul_neg(x: int, y: int)
    requires
        -131072 <= x <= 131072,
        -131072 <= y <= 131072,
    ensures
        fx_mul_spec(x, fx_neg_spec(y)) == -fx_mul_spec(x, y),
        -262144 <= fx_mul_spec(x, y) <= 262144,
{
    let s = SCALE as int;
    let p = x * y;
    assert(x * (-y) == -p) by (nonlinear_arith)
        requires
            p == x * y,
    ;
    assert(-131072 * 131072 <= p <= 131072 * 131072) by (nonlinear_arith)
        requires
            p == x * y,
            -131072 <= x <= 131072,
            -131072 <= y <= 131072,
    ;
    assert(abs_int(-p) == abs_int(p));
    vstd::arithmetic::div_mod::lemma_div_is_ordered(abs_int(p), 131072int * 131072, s);
    vstd::arithmetic::div_mod::lemma_div_is_ordered(0, abs_int(p), s);
    assert((131072int * 131072) / s == 262144);
}

/// The dot product with the opposite-hemisphere representative is the
/// negated dot product, for bounded components.
proof fn lemma_qdot_neg(a: Quat, b: Quat)
    requires
        -131072 <= a.x <= 131072 && -131072 <= a.y <= 131072 && -131072 <= a.z <= 131072
            && -131072 <= a.w <= 131072,
        -131072 <= b.x <= 131072 && -131072 <= b.y <= 131072 && -131072 <= b.z <= 131072
            && -131072 <= b.w <= 131072,
    ensures
        qdot_spec(a, qneg_quat_spec(b)) == -qdot_spec(a, b),
        -1048576 <= qdot_spec(a, b) <= 1048576,
{
    lemma_fx_mul_neg(a.x as int, b.x as int);
    lemma_fx_mul_neg(a.y as int, b.y as int);
    lemma_fx_mul_neg(a.z as int, b.z as int);
    lemma_fx_mul_neg(a.w as int, b.w as int);
}

/// Shortest-path folding: when the inputs sit on opposite hemispheres,
/// interpolating towards `b` is exactly interpolating towards its
/// negated twin, which represents the same rotation on `a`'s side.
pub proof fn lemma_slerp_hemisphere_fold(a: Quat, b: Quat, t: i64)
    requires
        -131072 <= a.x <= 131072 && -131072 <= a.y <= 131072 && -131072 <= a.z <= 131072
            && -131072 <= a.w <= 131072,
        -131072 <= b.x <= 131072 && -131072 <= b.y <= 131072 && -131072 <= b.z <= 131072
            && -131072 <= b.w <= 131072,
        qdot_spec(a, b) < 0,
    ensures
        slerp_quat_spec(a, b, t) == slerp_quat_spec(a, qneg_quat_spec(b), t),
{
    lemma_qdot_neg(a, b);
    let nb = qneg_quat_spec(b);
    assert(qdot_spec(a, nb) == -qdot_spec(a, b));
    assert(qdot_spec(a, nb) > 0);
    assert(fx_neg_spec(qdot_spec(a, b)) == -qdot_spec(a, b));
}

/// Binomial expansion of a squared weighted sum, one reassociation at
/// a time.
proof fn lemma_weighted_square(a: int, b: int, g0: int, g1: int)
    ensures
        (a * g0 + b * g1) * (a * g0 + b * g1) == g0 * g0 * (a * a) + 2 * g0 * g1 * (a * b) + g1
            * g1 * (b * b),
{
    let u = a * g0;
    let v = b * g1;
    vstd::arithmetic::mul::lemma_mul_is_distributive_add_other_way(u + v, u, v);
    vstd::arithmetic::mul::lemma_mul_is_distributive_add(u, u, v);
    vstd::arithmetic::mul::lemma_mul_is_distributive_add(v, u, v);
    assert(u * u == g0 * g0 * (a * a)) by (nonlinear_arith)
        requires
            u == a * g0,
    ;
    assert(u * v == g0 * g1 * (a * b)) by (nonlinear_arith)
        requires
            u == a * g0,
            v == b * g1,
    ;
    assert(v * u == g0 * g1 * (a * b)) by (nonlinear_arith)
        requires
            u == a * g0,
            v == b * g1,
    ;
    assert(v * v == g1 * g1 * (b * b)) by (nonlinear_arith)
        requires
            v == b * g1,
    ;
    assert(2 * g0 * g1 * (a * b) == g0 * g1 * (a * b) + g0 * g1 * (a * b)) by (nonlinear_arith);
}

/// Truncating division by the scale loses less than one unit.
proof fn lemma_trunc_err(x: int)
    ensures
        abs_int(tdiv(x, SCALE as int) * (SCALE as int) - x) < SCALE as int,
{
    let s = SCALE as int;
    if x >= 0 {
        vstd::arithmetic::div_mod::lemma_fundamental_div_mod(x, s);
        assert(s * (x / s) == (x / s) * s) by (nonlinear_arith);
    } else {
        vstd::arithmetic::div_mod::lemma_fundamental_div_mod(-x, s);
        assert(s * ((-x) / s) == ((-x) / s) * s) by (nonlinear_arith);
    }
}

/// One blended component stays close to the exact weighted sum.
proof fn lemma_blend_component_err(a: int, b: int, g0: int, g1: int)
    requires
        -65536 <= a <= 65536,
        -65536 <= b <= 65536,
        0 <= g0 <= 65536,
        0 <= g1 <= 65536,
    ensures
        abs_int(
            fx_add_spec(fx_mul_spec(a, g0), fx_mul_spec(b, g1)) * (SCALE as int) - (a * g0 + b
                * g1),
        ) < 2 * (SCALE as int),
        -131072 <= fx_add_spec(fx_mul_spec(a, g0), fx_mul_spec(b, g1)) <= 131072,
{
    let s = SCALE as int;
    lemma_fx_mul_weight_bounded(a, g0);
    lemma_fx_mul_weight_bounded(b, g1);
    lemma_trunc_err(a * g0);
    lemma_trunc_err(b * g1);
    assert(-65536 * 65536 <= a * g0 <= 65536 * 65536) by (nonlinear_arith)
        requires
            -65536 <= a <= 65536,
            0 <= g0 <= 65536,
    ;
    assert(-65536 * 65536 <= b * g1 <= 65536 * 65536) by (nonlinear_arith)
        requires
            -65536 <= b <= 65536,
            0 <= g1 <= 65536,
    ;
    let p = fx_mul_spec(a, g0);
    let q = fx_mul_spec(b, g1);
    assert(p == tdiv(a * g0, s) && q == tdiv(b * g1, s));
    assert((p + q) * s == p * s + q * s) by (nonlinear_arith);
}

/// Complementary weights cannot cancel near-unit inputs on the same
/// hemisphere: the blended vector keeps at least a quarter of the
/// squared norm. Nearness and hemisphere are measured on the exact
/// component sums.
pub proof fn lemma_complementary_blend_norm(a: Quat, b: Quat, w0: i64, w1: i64)
    requires
        -65536 <= a.x <= 65536 && -65536 <= a.y <= 65536 && -65536 <= a.z <= 65536 && -65536
            <= a.w <= 65536,
        -65536 <= b.x <= 65536 && -65536 <= b.y <= 65536 && -65536 <= b.z <= 65536 && -65536
            <= b.w <= 65536,
        0 <= w0 && 0 <= w1,
        w0 + w1 == SCALE,
        (a.x as int) * (a.x as int) + (a.y as int) * (a.y as int) + (a.z as int) * (a.z as int)
            + (a.w as int) * (a.w as int) >= 3 * 65536 * 65536 / 4,
        (b.x as int) * (b.x as int) + (b.y as int) * (b.y as int) + (b.z as int) * (b.z as int)
            + (b.w as int) * (b.w as int) >= 3 * 65536 * 65536 / 4,
        (a.x as int) * (b.x as int) + (a.y as int) * (b.y as int) + (a.z as int) * (b.z as int)
            + (a.w as int) * (b.w as int) >= 0,
    ensures
        ({
            let v = Quat {
                x: fx_add_spec(
                    fx_mul_spec(a.x as int, w0 as int),
                    fx_mul_spec(b.x as int, w1 as int),
                ) as i64,
                y: fx_add_spec(
                    fx_mul_spec(a.y as int, w0 as int),
                    fx_mul_spec(b.y as int, w1 as int),
                ) as i64,
                z: fx_add_spec(
                    fx_mul_spec(a.z as int, w0 as int),
                    fx_mul_spec(b.z as int, w1 as int),
                ) as i64,
                w: fx_add_spec(
                    fx_mul_spec(a.w as int, w0 as int),
                    fx_mul_spec(b.w as int, w1 as int),
                ) as i64,
            };
            qdot_spec(v, v) >= 16384
        }),
{
    let s = SCALE as int;
    let ax = a.x as int;
    let ay = a.y as int;
    let az = a.z as int;
    let aw = a.w as int;
    let bx = b.x as int;
    let by = b.y as int;
    let bz = b.z as int;
    let bw = b.w as int;
    let g0 = w0 as int;
    let g1 = w1 as int;
    lemma_blend_component_err(ax, bx, g0, g1);
    lemma_blend_component_err(ay, by, g0, g1);
    lemma_blend_component_err(az, bz, g0, g1);
    lemma_blend_component_err(aw, bw, g0, g1);
    let vx = fx_add_spec(fx_mul_spec(ax, g0), fx_mul_spec(bx, g1));
    let vy = fx_add_spec(fx_mul_spec(ay, g0), fx_mul_spec(by, g1));
    let vz = fx_add_spec(fx_mul_spec(az, g0), fx_mul_spec(bz, g1));
    let vw = fx_add_spec(fx_mul_spec(aw, g0), fx_mul_spec(bw, g1));
    let ex = ax * g0 + bx * g1;
    let ey = ay * g0 + by * g1;
    let ez = az * g0 + bz * g1;
    let ew = aw * g0 + bw * g1;
    // each exact component is bounded by the scale squared
    assert(abs_int(ax * g0 + bx * g1) <= s * s) by (nonlinear_arith)
        requires
            -65536 <= ax <= 65536 && -65536 <= bx <= 65536,
            0 <= g0 && 0 <= g1 && g0 + g1 == s,
            s == 65536,
    ;
    assert(abs_int(ay * g0 + by * g1) <= s * s) by (nonlinear_arith)
        requires
            -65536 <= ay <= 65536 && -65536 <= by <= 65536,
            0 <= g0 && 0 <= g1 && g0 + g1 == s,
            s == 65536,
    ;
    assert(abs_int(az * g0 + bz * g1) <= s * s) by (nonlinear_arith)
        requires
            -65536 <= az <= 65536 && -65536 <= bz <= 65536,
            0 <= g0 && 0 <= g1 && g0 + g1 == s,
            s == 65536,
    ;
    assert(abs_int(aw * g0 + bw * g1) <= s * s) by (nonlinear_arith)
        requires
            -65536 <= aw <= 65536 && -65536 <= bw <= 65536,
            0 <= g0 && 0 <= g1 && g0 + g1 == s,
            s == 65536,
    ;
    // each squared component dominates the exact square up to the error
    assert(vx * vx * (s * s) >= ex * ex - 4 * s * abs_int(ex)) by (nonlinear_arith)
        requires
            abs_int(vx * s - ex) < 2 * s,
            s > 0,
    ;
    assert(vy * vy * (s * s) >= ey * ey - 4 * s * abs_int(ey)) by (nonlinear_arith)
        requires
            abs_int(vy * s - ey) < 2 * s,
            s > 0,
    ;
    assert(vz * vz * (s * s) >= ez * ez - 4 * s * abs_int(ez)) by (nonlinear_arith)
        requires
            abs_int(vz * s - ez) < 2 * s,
            s > 0,
    ;
    assert(vw * vw * (s * s) >= ew * ew - 4 * s * abs_int(ew)) by (nonlinear_arith)
        requires
            abs_int(vw * s - ew) < 2 * s,
            s > 0,
    ;
    let na = ax * ax + ay * ay + az * az + aw * aw;
    let nb = bx * bx + by * by + bz * bz + bw * bw;
    let d = ax * bx + ay * by + az * bz + aw * bw;
    let ee = ex * ex + ey * ey + ez * ez + ew * ew;
    // expand the squared norm of the exact weighted sum
    lemma_weighted_square(ax, bx, g0, g1);
    lemma_weighted_square(ay, by, g0, g1);
    lemma_weighted_square(az, bz, g0, g1);
    lemma_weighted_square(aw, bw, g0, g1);
    assert(g0 * g0 * na == g0 * g0 * (ax * ax) + g0 * g0 * (ay * ay) + g0 * g0 * (az * az) + g0
        * g0 * (aw * aw)) by (nonlinear_arith)
        requires
            na == ax * ax + ay * ay + az * az + aw * aw,
    ;
    assert(g1 * g1 * nb == g1 * g1 * (bx * bx) + g1 * g1 * (by * by) + g1 * g1 * (bz * bz) + g1
        * g1 * (bw * bw)) by (nonlinear_arith)
        requires
            nb == bx * bx + by * by + bz * bz + bw * bw,
    ;
    assert(2 * g0 * g1 * d == 2 * g0 * g1 * (ax * bx) + 2 * g0 * g1 * (ay * by) + 2 * g0 * g1
        * (az * bz) + 2 * g0 * g1 * (aw * bw)) by (nonlinear_arith)
        requires
            d == ax * bx + ay * by + az * bz + aw * bw,
    ;
    assert(ee == g0 * g0 * na + 2 * g0 * g1 * d + g1 * g1 * nb);
    // complementary weights cannot cancel near-unit inputs
    assert(ee >= 3 * s * s * s * s / 8) by (nonlinear_arith)
        requires
            ee == g0 * g0 * na + 2 * g0 * g1 * d + g1 * g1 * nb,
            na >= 3 * 65536 * 65536 / 4,
            nb >= 3 * 65536 * 65536 / 4,
            d >= 0,
            0 <= g0 && 0 <= g1,
            g0 + g1 == s,
            s == 65536,
    ;
    // transfer to the rounded components
    let sv = vx * vx + vy * vy + vz * vz + vw * vw;
    assert(sv * (s * s) == vx * vx * (s * s) + vy * vy * (s * s) + vz * vz * (s * s) + vw * vw
        * (s * s)) by (nonlinear_arith)
        requires
            sv == vx * vx + vy * vy + vz * vz + vw * vw,
    ;
    assert(4 * s * (abs_int(ex) + abs_int(ey) + abs_int(ez) + abs_int(ew)) == 4 * s * abs_int(
        ex,
    ) + 4 * s * abs_int(ey) + 4 * s * abs_int(ez) + 4 * s * abs_int(ew)) by (nonlinear_arith)
        requires
            s == 65536,
    ;
    assert(sv * (s * s) >= ee - 4 * s * (abs_int(ex) + abs_int(ey) + abs_int(ez) + abs_int(ew)));
    assert(sv >= s * s / 4 + 4 * s) by (nonlinear_arith)
        requires
            sv * (s * s) >= ee - 4 * s * (abs_int(ex) + abs_int(ey) + abs_int(ez) + abs_int(ew)),
            ee >= 3 * s * s * s * s / 8,
            abs_int(ex) <= s * s && abs_int(ey) <= s * s && abs_int(ez) <= s * s && abs_int(ew)
                <= s * s,
            abs_int(ex) >= 0 && abs_int(ey) >= 0 && abs_int(ez) >= 0 && abs_int(ew) >= 0,
            s == 65536,
    ;
    // the fixed-point squared norm keeps the slack
    let v = Quat { x: vx as i64, y: vy as i64, z: vz as i64, w: vw as i64 };
    lemma_fx_square(vx);
    lemma_fx_square(vy);
    lemma_fx_square(vz);
    lemma_fx_square(vw);
    assert(qdot_spec(v, v) * s > sv - 4 * s) by (nonlinear_arith)
        requires
            fx_mul_spec(vx, vx) * s > vx * vx - s,
            fx_mul_spec(vy, vy) * s > vy * vy - s,
            fx_mul_spec(vz, vz) * s > vz * vz - s,
            fx_mul_spec(vw, vw) * s > vw * vw - s,
            qdot_spec(v, v) == fx_mul_spec(vx, vx) + fx_mul_spec(vy, vy) + fx_mul_spec(vz, vz)
                + fx_mul_spec(vw, vw),
            sv == vx * vx + vy * vy + vz * vz + vw * vw,
    ;
    assert(qdot_spec(v, v) >= 16384) by (nonlinear_arith)
        requires
            qdot_spec(v, v) * s > sv - 4 * s,
            sv >= s * s / 4 + 4 * s,
            s == 65536,
    ;
}

/// For near-unit inputs on the same hemisphere, a complementary-weight
/// blend is unit-norm within tolerance, with no further hypothesis:
/// this covers the normalized-linear fallback of the interpolation.
pub proof fn lemma_complementary_blend_unit_norm(a: Quat, b: Quat, w0: i64, w1: i64)
    requires
        -65536 <= a.x <= 65536 && -65536 <= a.y <= 65536 && -65536 <= a.z <= 65536 && -65536
            <= a.w <= 65536,
        -65536 <= b.x <= 65536 && -65536 <= b.y <= 65536 && -65536 <= b.z <= 65536 && -65536
            <= b.w <= 65536,
        0 <= w0 && 0 <= w1,
        w0 + w1 == SCALE,
        (a.x as int) * (a.x as int) + (a.y as int) * (a.y as int) + (a.z as int) * (a.z as int)
            + (a.w as int) * (a.w as int) >= 3 * 65536 * 65536 / 4,
        (b.x as int) * (b.x as int) + (b.y as int) * (b.y as int) + (b.z as int) * (b.z as int)
            + (b.w as int) * (b.w as int) >= 3 * 65536 * 65536 / 4,
        (a.x as int) * (b.x as int) + (a.y as int) * (b.y as int) + (a.z as int) * (b.z as int)
            + (a.w as int) * (b.w as int) >= 0,
    ensures
        ({
            let r = quat_blend_spec(a, b, w0 as int, w1 as int);
            (SCALE as int) - 64 <= qdot_spec(r, r) <= (SCALE as int) + 64
        }),
{
    lemma_complementary_blend_norm(a, b, w0, w1);
    lemma_blend_unit_norm(a, b, w0, w1);
}

/// The fixed-point dot product sits within four units of the exact
/// component sum, scaled.
proof fn lemma_qdot_close_to_exact(a: Quat, b: Quat)
    requires
        -65536 <= a.x <= 65536 && -65536 <= a.y <= 65536 && -65536 <= a.z <= 65536 && -65536
            <= a.w <= 65536,
        -65536 <= b.x <= 65536 && -65536 <= b.y <= 65536 && -65536 <= b.z <= 65536 && -65536
            <= b.w <= 65536,
    ensures
        (a.x as int) * (b.x as int) + (a.y as int) * (b.y as int) + (a.z as int) * (b.z as int)
            + (a.w as int) * (b.w as int) > (SCALE as int) * qdot_spec(a, b) - 4 * (
        SCALE as int),
{
    let s = SCALE as int;
    lemma_fx_mul_neg(a.x as int, b.x as int);
    lemma_fx_mul_neg(a.y as int, b.y as int);
    lemma_fx_mul_neg(a.z as int, b.z as int);
    lemma_fx_mul_neg(a.w as int, b.w as int);
    lemma_trunc_err((a.x as int) * (b.x as int));
    lemma_trunc_err((a.y as int) * (b.y as int));
    lemma_trunc_err((a.z as int) * (b.z as int));
    lemma_trunc_err((a.w as int) * (b.w as int));
    let cx = fx_mul_spec(a.x as int, b.x as int);
    let cy = fx_mul_spec(a.y as int, b.y as int);
    let cz = fx_mul_spec(a.z as int, b.z as int);
    let cw = fx_mul_spec(a.w as int, b.w as int);
    assert(cx == tdiv((a.x as int) * (b.x as int), s));
    assert(cy == tdiv((a.y as int) * (b.y as int), s));
    assert(cz == tdiv((a.z as int) * (b.z as int), s));
    assert(cw == tdiv((a.w as int) * (b.w as int), s));
    assert(qdot_spec(a, b) == cx + cy + cz + cw);
    assert((cx + cy + cz + cw) * s == cx * s + cy * s + cz * s + cw * s) by (nonlinear_arith);
}

/// In the nearly-identical branch, interpolation between near-unit
/// rotations is unit-norm within tolerance, with no hypothesis on the
/// blend: the strong alignment forces the exact inner product positive,
/// so the complementary weights cannot cancel.
pub proof fn lemma_slerp_fallback_unit_norm(a: Quat, b: Quat, t: i64)
    requires
        -65536 <= a.x <= 65536 && -65536 <= a.y <= 65536 && -65536 <= a.z <= 65536 && -65536
            <= a.w <= 65536,
        -65536 <= b.x <= 65536 && -65536 <= b.y <= 65536 && -65536 <= b.z <= 65536 && -65536
            <= b.w <= 65536,
        0 < t < SCALE,
        (a.x as int) * (a.x as int) + (a.y as int) * (a.y as int) + (a.z as int) * (a.z as int)
            + (a.w as int) * (a.w as int) >= 3 * 65536 * 65536 / 4,
        (b.x as int) * (b.x as int) + (b.y as int) * (b.y as int) + (b.z as int) * (b.z as int)
            + (b.w as int) * (b.w as int) >= 3 * 65536 * 65536 / 4,
        abs_int(qdot_spec(a, b)) > NLERP_THRESHOLD as int,
    ensures
        ({
            let r = slerp_quat_spec(a, b, t);
            (SCALE as int) - 64 <= qdot_spec(r, r) <= (SCALE as int) + 64
        }),
{
    let s = SCALE as int;
    let dot0 = qdot_spec(a, b);
    lemma_qdot_neg(a, b);
    if dot0 >= 0 {
        lemma_qdot_close_to_exact(a, b);
        assert(slerp_quat_spec(a, b, t) == quat_blend_spec(
            a,
            b,
            fx_sub_spec(s, t as int),
            t as int,
        ));
        assert((a.x as int) * (b.x as int) + (a.y as int) * (b.y as int) + (a.z as int) * (
        b.z as int) + (a.w as int) * (b.w as int) >= 0) by (nonlinear_arith)
            requires
                (a.x as int) * (b.x as int) + (a.y as int) * (b.y as int) + (a.z as int) * (
                b.z as int) + (a.w as int) * (b.w as int) > (SCALE as int) * dot0 - 4 * (
                SCALE as int),
                dot0 > NLERP_THRESHOLD as int,
                SCALE == 65536,
                NLERP_THRESHOLD == 65503,
        ;
        lemma_complementary_blend_unit_norm(a, b, (s - t as int) as i64, t);
    } else {
        let nb = qneg_quat_spec(b);
        lemma_slerp_hemisphere_fold(a, b, t);
        assert(qdot_spec(a, nb) == -dot0 > NLERP_THRESHOLD as int);
        lemma_qdot_close_to_exact(a, nb);
        assert(nb.x as int == -(b.x as int) && nb.y as int == -(b.y as int) && nb.z as int == -(
        b.z as int) && nb.w as int == -(b.w as int));
        assert((nb.x as int) * (nb.x as int) + (nb.y as int) * (nb.y as int) + (nb.z as int) * (
        nb.z as int) + (nb.w as int) * (nb.w as int) >= 3 * 65536 * 65536 / 4) by (nonlinear_arith)
            requires
                nb.x as int == -(b.x as int) && nb.y as int == -(b.y as int) && nb.z as int == -(
                b.z as int) && nb.w as int == -(b.w as int),
                (b.x as int) * (b.x as int) + (b.y as int) * (b.y as int) + (b.z as int) * (
                b.z as int) + (b.w as int) * (b.w as int) >= 3 * 65536 * 65536 / 4,
        ;
        assert(slerp_quat_spec(a, nb, t) == quat_blend_spec(
            a,
            nb,
            fx_sub_spec(s, t as int),
            t as int,
        ));
        assert((a.x as int) * (nb.x as int) + (a.y as int) * (nb.y as int) + (a.z as int) * (
        nb.z as int) + (a.w as int) * (nb.w as int) >= 0) by (nonlinear_arith)
            requires
                (a.x as int) * (nb.x as int) + (a.y as int) * (nb.y as int) + (a.z as int) * (
                nb.z as int) + (a.w as int) * (nb.w as int) > (SCALE as int) * qdot_spec(a, nb)
                    - 4 * (SCALE as int),
                qdot_spec(a, nb) > NLERP_THRESHOLD as int,
                SCALE == 65536,
                NLERP_THRESHOLD == 65503,
        ;
        lemma_complementary_blend_unit_norm(a, nb, (s - t as int) as i64, t);
    }
}

/// At its endpoints the interpolation reproduces its inputs exactly --
/// the start rotation at factor zero, and at factor one the end
/// rotation, negated onto the start's hemisphere when the shortest path
/// crosses hemispheres -- so a unit-norm rotation stays unit-norm there.
pub proof fn lemma_slerp_endpoints(a: Quat, b: Quat)
    ensures
        slerp_quat_spec(a, b, 0) == a,
        qdot_spec(a, b) >= 0 ==> slerp_quat_spec(a, b, SCALE) == b,
        qdot_spec(a, b) < 0 ==> slerp_quat_spec(a, b, SCALE) == qneg_quat_spec(b),
{
}

/// The interval the binary search narrows `[lo, hi]` down to: invariantly
/// `times[lo] <= time < times[hi]` on a sorted timeline.
pub open spec fn search_spec(times: Seq<i64>, time: i64, lo: int, hi: int) -> (int, int)
    decreases hi - lo,
{
    if lo < hi - 1 {
        let mid = (lo + hi) / 2;
        if times[mid] <= time {
            search_spec(times, time, mid, hi)
        } else {
            search_spec(times, time, lo, mid)
        }
    } else {
        (lo, hi)
    }
}

/// What `find_keyframe_index` returns on a non-empty timeline.
pub open spec fn find_spec(times: Seq<i64>, time: i64) -> (int, int, int) {
    let n = times.len() as int;
    if n == 1 {
        (0, 0, 0)
    } else if time <= times[0] {
        (0, 0, 0)
    } else if time >= times[n - 1] {
        (n - 1, n - 1, 0)
    } else {
        let lohi = search_spec(times, time, 0, n - 1);
        let d = fx_sub_spec(times[lohi.1] as int, times[lohi.0] as int);
        let f = if d == 0 {
            0
        } else {
            fx_div_spec(fx_sub_spec(time as int, times[lohi.0] as int), d)
        };
        (lohi.0, lohi.1, f)
    }
}

/// Binary search for the keyframe interval containing `time`.
///
/// On a strictly increasing timeline the result brackets the query:
/// `times[i0] <= time < times[i1]` strictly inside the range, the nearest
/// endpoint with factor zero outside it, and the interpolation factor
/// always lies in `[0, 1]`.
pub fn find_keyframe_index(times: &Vec<i64>, time: i64) -> (r: Option<(usize, usize, i64)>)
    ensures
        (r is Some) == (times@.len() > 0),
        r matches Some(v) ==> {
            &&& (v.0 as int, v.1 as int, v.2 as int) == find_spec(times@, time)
            &&& v.0 <= v.1 < times@.len()
        },
        ({
            forall|i: int, j: int| 0 <= i < j < times@.len() ==> times@[i] < times@[j]
        }) ==> (r matches Some(v) ==> {
            &&& 0 <= v.2 <= SCALE
            &&& (time <= times@[0] ==> v.0 == 0 && v.1 == 0 && v.2 == 0)
            &&& (time >= times@[times@.len() - 1] ==> v.0 == times@.len() - 1 && v.1
                == times@.len() - 1 && v.2 == 0)
            &&& (times@[0] < time < times@[times@.len() - 1] ==> {
                &&& v.1 == v.0 + 1
                &&& times@[v.0 as int] <= time < times@[v.1 as int]
            })
        }),
{
    let n = times.len();
    if n == 0 {
        return None;
    }
    if n == 1 {
        return Some((0, 0, 0));
    }
    if time <= times[0] {
        return Some((0, 0, 0));
    }
    if time >= times[n - 1] {
        return Some((n - 1, n - 1, 0));
    }
    let ghost sorted = forall|i: int, j: int| 0 <= i < j < times@.len() ==> times@[i] < times@[j];
    let mut lo: usize = 0;
    let mut hi: usize = n - 1;
    while lo < hi - 1
        invariant
            n == times@.len(),
            n >= 2,
            lo < hi,
            hi <= n - 1,
            times@[0] < time < times@[n - 1],
            search_spec(times@, time, 0, n as int - 1) == search_spec(
                times@,
                time,
                lo as int,
                hi as int,
            ),
            sorted ==> (forall|i: int, j: int|
                0 <= i < j < times@.len() ==> times@[i] < times@[j]),
            sorted ==> times@[lo as int] <= time,
            sorted ==> time < times@[hi as int],
        decreases hi - lo,
    {
        let mid = lo + (hi - lo) / 2;
        proof {
            assert(mid == (lo + hi) / 2);
        }
        if times[mid] <= time {
            lo = mid;
        } else {
            hi = mid;
        }
    }
    let t0 = times[lo];
    let t1 = times[hi];
    let d = fx_sub(t1, t0);
    let factor = if d == 0 {
        0
    } else {
        fx_div(fx_sub(time, t0), d)
    };
    proof {
        if sorted {
            assert(hi == lo + 1);
            assert(times@[lo as int] <= time < times@[lo as int + 1]);
            if d != 0 {
                let a = fx_sub_spec(time as int, t0 as int);
                assert(0 <= a <= d);
                assert(0 <= a * (SCALE as int) <= d * (SCALE as int)) by (nonlinear_arith)
                    requires
                        0 <= a <= d,
                ;
                vstd::arithmetic::div_mod::lemma_div_is_ordered(
                    a * (SCALE as int),
                    d * (SCALE as int),
                    d as int,
                );
                assert((d * (SCALE as int)) / (d as int) == SCALE as int) by (nonlinear_arith)
                    requires
                        d > 0,
                ;
                assert(0 <= (a * (SCALE as int)) / (d as int)) by {
                    vstd::arithmetic::div_mod::lemma_div_is_ordered(
                        0,
                        a * (SCALE as int),
                        d as int,
                    );
                }
                assert(fx_div_spec(a, d as int) == (a * (SCALE as int)) / (d as int));
            }
        }
    }
    Some((lo, hi, factor))
}

/// Three consecutive scalars of a flat value buffer, as a vector.
pub open spec fn vec3_at_spec(values: Seq<i64>, index: int) -> Vec3 {
    Vec3 { x: values[index * 3], y: values[index * 3 + 1], z: values[index * 3 + 2] }
}

/// Read keyframe `index` of a vector channel's value buffer.
pub fn get_vec3(values: &Vec<i64>, index: usize) -> (r: Vec3)
    requires
        (index as int) * 3 + 2 < values@.len(),
    ensures
        r == vec3_at_spec(values@, index as int),
{
    let n = values.len();
    let i = index * 3;
    Vec3 { x: values[i], y: values[i + 1], z: values[i + 2] }
}

/// Four consecutive scalars of a flat value buffer, stored w-x-y-z, as a
/// quaternion.
pub open spec fn quat_at_spec(values: Seq<i64>, index: int) -> Quat {
    Quat {
        x: values[index * 4 + 1],
        y: values[index * 4 + 2],
        z: values[index * 4 + 3],
        w: values[index * 4],
    }
}

/// Read keyframe `index` of a rotation channel's value buffer.
pub fn get_quat(values: &Vec<i64>, index: usize) -> (r: Quat)
    requires
        (index as int) * 4 + 3 < values@.len(),
    ensures
        r == quat_at_spec(values@, index as int),
{
    let n = values.len();
    let i = index * 4;
    Quat { x: values[i + 1], y: values[i + 2], z: values[i + 3], w: values[i] }
}

/// Effect of sampling one channel at one time on the entity array: the
/// interpolated value lands in the target's transform and marks it
/// dirty; a missing target, an empty timeline or a short value buffer
/// leaves the array unchanged.
pub open spec fn apply_channel_spec(entities: Seq<Entity>, ch: AnimationChannel, time: i64) -> Seq<
    Entity,
> {
    let target = ch.target_entity_index as int;
    if target >= entities.len() || ch.times@.len() == 0 {
        entities
    } else {
        let fr = find_spec(ch.times@, time);
        let i1 = fr.1;
        let step = ch.interpolation == InterpolationMode::Step;
        match ch.target_property {
            TargetProperty::Position => {
                if ch.values@.len() / 3 > i1 && 0 <= fr.0 <= i1 {
                    let v0 = vec3_at_spec(ch.values@, fr.0);
                    let v1 = vec3_at_spec(ch.values@, i1);
                    let v = if step {
                        v0
                    } else {
                        lerp_vec3_spec(v0, v1, fr.2)
                    };
                    let e = entities[target];
                    entities.update(
                        target,
                        Entity {
                            transform: crate::scene::TransformState {
                                position: v,
                                dirty: true,
                                ..e.transform
                            },
                            ..e
                        },
                    )
                } else {
                    entities
                }
            },
            TargetProperty::Rotation => {
                if ch.values@.len() / 4 > i1 && 0 <= fr.0 <= i1 {
                    let q0 = quat_at_spec(ch.values@, fr.0);
                    let q1 = quat_at_spec(ch.values@, i1);
                    let q = if step {
                        q0
                    } else {
                        slerp_quat_spec(q0, q1, fr.2 as i64)
                    };
                    let e = entities[target];
                    entities.update(
                        target,
                        Entity {
                            transform: crate::scene::TransformState {
                                rotation: q,
                                dirty: true,
                                ..e.transform
                            },
                            ..e
                        },
                    )
                } else {
                    entities
                }
            },
            TargetProperty::Scale => {
                if ch.values@.len() / 3 > i1 && 0 <= fr.0 <= i1 {
                    let v0 = vec3_at_spec(ch.values@, fr.0);
                    let v1 = vec3_at_spec(ch.values@, i1);
                    let v = if step {
                        v0
                    } else {
                        lerp_vec3_spec(v0, v1, fr.2)
                    };
                    let e = entities[target];
                    entities.update(
                        target,
                        Entity {
                            transform: crate::scene::TransformState {
                                scale: v,
                                dirty: true,
                                ..e.transform
                            },
                            ..e
                        },
                    )
                } else {
                    entities
                }
            },
        }
    }
}

/// Sample one channel and write the result into the target transform.
pub fn apply_channel(entities: &mut Vec<Entity>, ch: &AnimationChannel, time: i64)
    ensures
        final(entities)@ == apply_channel_spec(old(entities)@, *ch, time),
{
    let target = ch.target_entity_index;
    if target >= entities.len() {
        return ;
    }
    let found = find_keyframe_index(&ch.times, time);
    let (i0, i1, f) = match found {
        Some(v) => v,
        None => { return ; },
    };
    match ch.target_property {
        TargetProperty::Position => {
            if ch.values.len() / 3 > i1 {
                let v0 = get_vec3(&ch.values, i0);
                let v1 = get_vec3(&ch.values, i1);
                let v = if matches!(ch.interpolation, InterpolationMode::Step) {
                    v0
                } else {
                    lerp_vec3(v0, v1, f)
                };
                let e = &mut entities[target];
                e.transform.position = v;
                e.transform.dirty = true;
            }
        },
        TargetProperty::Rotation => {
            if ch.values.len() / 4 > i1 {
                let q0 = get_quat(&ch.values, i0);
                let q1 = get_quat(&ch.values, i1);
                let q = if matches!(ch.interpolation, InterpolationMode::Step) {
                    q0
                } else {
                    slerp_quat(q0, q1, f)
                };
                let e = &mut entities[target];
                e.transform.rotation = q;
                e.transform.dirty = true;
            }
        },
        TargetProperty::Scale => {
            if ch.values.len() / 3 > i1 {
                let v0 = get_vec3(&ch.values, i0);
                let v1 = get_vec3(&ch.values, i1);
                let v = if matches!(ch.interpolation, InterpolationMode::Step) {
                    v0
                } else {
                    lerp_vec3(v0, v1, f)
                };
                let e = &mut entities[target];
                e.transform.scale = v;
                e.transform.dirty = true;
            }
        },
    }
    proof {
        assert(entities@ =~= apply_channel_spec(old(entities)@, *ch, time));
    }
}

/// Effect of sampling the first `k` channels of a clip, in order.
pub open spec fn apply_channels_spec(
    entities: Seq<Entity>,
    channels: Seq<AnimationChannel>,
    time: i64,
    k: int,
) -> Seq<Entity>
    decreases k,
{
    if k <= 0 {
        entities
    } else {
        apply_channel_spec(apply_channels_spec(entities, channels, time, k - 1), channels[k - 1], time)
    }
}

/// Positive wrap of an overrun clock into `[0, duration)`; a clip of
/// non-positive duration wraps to zero.
pub open spec fn wrap_time_spec(t: int, duration: int) -> int {
    if duration >= 1 && t >= 0 {
        t % duration
    } else {
        0
    }
}

/// New clock and playing flag after advancing a playback state by `dt`:
/// the clock gains `dt * speed`; past the clip's end it wraps when
/// looping, else clamps to the end and stops.
pub open spec fn advance_time_spec(st: AnimationState, duration: i64, dt: i64) -> (int, bool) {
    let t = fx_add_spec(st.current_time as int, fx_mul_spec(dt as int, st.speed as int));
    if t > duration {
        if st.looping {
            (wrap_time_spec(t, duration as int), true)
        } else {
            (duration as int, false)
        }
    } else {
        (t, true)
    }
}

/// Effect of one playback state on the scene: a stopped state or one
/// without a valid active clip changes nothing; otherwise the clock
/// advances and every channel of the active clip is sampled at the new
/// clock, in order.
pub open spec fn step_state_spec(entities: Seq<Entity>, st: AnimationState, dt: i64) -> (
    Seq<Entity>,
    AnimationState,
) {
    if !st.playing {
        (entities, st)
    } else if st.active_clip < 0 || st.active_clip as int >= st.clips@.len() {
        (entities, st)
    } else {
        let clip = st.clips@[st.active_clip as int];
        let adv = advance_time_spec(st, clip.duration, dt);
        let st2 = AnimationState {
            current_time: adv.0 as i64,
            playing: adv.1,
            ..st
        };
        let e2 = apply_channels_spec(entities, clip.channels@, adv.0 as i64, clip.channels@.len() as int);
        (e2, st2)
    }
}

/// Effect of the first `k` playback states, applied in order.
pub open spec fn run_states_spec(
    entities: Seq<Entity>,
    states: Seq<AnimationState>,
    dt: i64,
    k: int,
) -> (Seq<Entity>, Seq<AnimationState>)
    decreases k,
{
    if k <= 0 {
        (entities, states)
    } else {
        let prev = run_states_spec(entities, states, dt, k - 1);
        let stepped = step_state_spec(prev.0, states[k - 1], dt);
        (stepped.0, prev.1.update(k - 1, stepped.1))
    }
}

/// Advance every playback state by `dt` and write the sampled values
/// into the entities' transforms, exactly as `run_states_spec` folds the
/// per-state effects.
pub fn update_animations(scene: &mut LoadedScene, dt: i64)
    ensures
        final(scene).entities@ == run_states_spec(
            old(scene).entities@,
            old(scene).animations@,
            dt,
            old(scene).animations@.len() as int,
        ).0,
        final(scene).animations@ == run_states_spec(
            old(scene).entities@,
            old(scene).animations@,
            dt,
            old(scene).animations@.len() as int,
        ).1,
        final(scene).meshes@ == old(scene).meshes@,
        final(scene).materials@ == old(scene).materials@,
        final(scene).textures@ == old(scene).textures@,
        final(scene).skeletons@ == old(scene).skeletons@,
        final(scene).point_lights@ == old(scene).point_lights@,
        final(scene).dir_lights@ == old(scene).dir_lights@,
        final(scene).cameras@ == old(scene).cameras@,
        final(scene).entities@.len() == old(scene).entities@.len(),
        old(scene).wf() ==> final(scene).wf(),
{
    let num_states = scene.animations.len();
    let mut k: usize = 0;
    while k < num_states
        invariant
            num_states == old(scene).animations@.len(),
            scene.animations@.len() == num_states,
            k <= num_states,
            scene.entities@ == run_states_spec(
                old(scene).entities@,
                old(scene).animations@,
                dt,
                k as int,
            ).0,
            scene.animations@ == run_states_spec(
                old(scene).entities@,
                old(scene).animations@,
                dt,
                k as int,
            ).1,
            forall|j: int|
                k <= j < num_states ==> #[trigger] scene.animations@[j] == old(
                    scene,
                ).animations@[j],
            scene.meshes@ == old(scene).meshes@,
            scene.materials@ == old(scene).materials@,
            scene.textures@ == old(scene).textures@,
            scene.skeletons@ == old(scene).skeletons@,
            scene.point_lights@ == old(scene).point_lights@,
            scene.dir_lights@ == old(scene).dir_lights@,
            scene.cameras@ == old(scene).cameras@,
        decreases num_states - k,
    {
        let ghost entities_before = scene.entities@;
        let ghost st_before = scene.animations@[k as int];
        let playing = scene.animations[k].playing;
        if playing {
            let active = scene.animations[k].active_clip;
            let nclips = scene.animations[k].clips.len();
            if active >= 0 && (active as usize) < nclips {
                let clip_idx = active as usize;
                let duration = scene.animations[k].clips[clip_idx].duration;
                let speed = scene.animations[k].speed;
                let t0 = scene.animations[k].current_time;
                let advanced = fx_add(t0, fx_mul(dt, speed));
                let mut new_time: i64 = advanced;
                if advanced > duration {
                    if scene.animations[k].looping {
                        new_time = wrap_time(advanced, duration);
                    } else {
                        new_time = duration;
                        let st = &mut scene.animations[k];
                        st.playing = false;
                    }
                }
                let st = &mut scene.animations[k];
                st.current_time = new_time;
                proof {
                    assert(scene.animations@[k as int] == step_state_spec(
                        entities_before,
                        st_before,
                        dt,
                    ).1);
                }
                let ghost anims_now = scene.animations@;
                let num_channels = scene.animations[k].clips[clip_idx].channels.len();
                let mut c: usize = 0;
                while c < num_channels
                    invariant
                        k < scene.animations@.len(),
                        clip_idx < scene.animations@[k as int].clips@.len(),
                        num_channels == scene.animations@[k as int].clips@[
                            clip_idx as int
                        ].channels@.len(),
                        c <= num_channels,
                        scene.animations@ == anims_now,
                        scene.animations@[k as int].clips@[clip_idx as int] == st_before.clips@[
                            clip_idx as int
                        ],
                        scene.entities@ == apply_channels_spec(
                            entities_before,
                            st_before.clips@[clip_idx as int].channels@,
                            new_time,
                            c as int,
                        ),
                        scene.meshes@ == old(scene).meshes@,
                        scene.materials@ == old(scene).materials@,
                        scene.textures@ == old(scene).textures@,
                        scene.skeletons@ == old(scene).skeletons@,
                        scene.point_lights@ == old(scene).point_lights@,
                        scene.dir_lights@ == old(scene).dir_lights@,
                        scene.cameras@ == old(scene).cameras@,
                    decreases num_channels - c,
                {
                    apply_channel(
                        &mut scene.entities,
                        &scene.animations[k].clips[clip_idx].channels[c],
                        new_time,
                    );
                    c = c + 1;
                }
                proof {
                    let prev = run_states_spec(
                        old(scene).entities@,
                        old(scene).animations@,
                        dt,
                        k as int,
                    );
                    let stepped = step_state_spec(prev.0, old(scene).animations@[k as int], dt);
                    assert(scene.entities@ == stepped.0);
                    assert(scene.animations@ =~= prev.1.update(k as int, stepped.1));
                }
            } else {
                proof {
                    let prev = run_states_spec(
                        old(scene).entities@,
                        old(scene).animations@,
                        dt,
                        k as int,
                    );
                    assert(step_state_spec(prev.0, old(scene).animations@[k as int], dt).0
                        == prev.0);
                    assert(scene.animations@ =~= prev.1.update(
                        k as int,
                        step_state_spec(prev.0, old(scene).animations@[k as int], dt).1,
                    ));
                }
            }
        } else {
            proof {
                let prev = run_states_spec(
                    old(scene).entities@,
                    old(scene).animations@,
                    dt,
                    k as int,
                );
                assert(step_state_spec(prev.0, old(scene).animations@[k as int], dt).0 == prev.0);
                assert(scene.animations@ =~= prev.1.update(
                    k as int,
                    step_state_spec(prev.0, old(scene).animations@[k as int], dt).1,
                ));
            }
        }
        k = k + 1;
    }
    proof {
        lemma_run_states_preserves(
            old(scene).entities@,
            old(scene).animations@,
            dt,
            num_states as int,
        );
    }
}

/// Sampling a channel changes only the target's transform: identity,
/// hierarchy, cached world matrices and component references survive.
pub proof fn lemma_apply_channel_preserves(entities: Seq<Entity>, ch: AnimationChannel, time: i64)
    ensures
        apply_channel_spec(entities, ch, time).len() == entities.len(),
        forall|i: int|
            0 <= i < entities.len() ==> {
                let e2 = #[trigger] apply_channel_spec(entities, ch, time)[i];
                &&& e2.id == entities[i].id
                &&& e2.parent_index == entities[i].parent_index
                &&& e2.world_transform == entities[i].world_transform
                &&& e2.mesh_index == entities[i].mesh_index
                &&& e2.material_index == entities[i].material_index
                &&& e2.mask == entities[i].mask
            },
{
}

/// Sampling any prefix of a clip's channels preserves the same fields.
pub proof fn lemma_apply_channels_preserves(
    entities: Seq<Entity>,
    channels: Seq<AnimationChannel>,
    time: i64,
    k: int,
)
    ensures
        apply_channels_spec(entities, channels, time, k).len() == entities.len(),
        forall|i: int|
            0 <= i < entities.len() ==> {
                let e2 = #[trigger] apply_channels_spec(entities, channels, time, k)[i];
                &&& e2.id == entities[i].id
                &&& e2.parent_index == entities[i].parent_index
                &&& e2.world_transform == entities[i].world_transform
                &&& e2.mesh_index == entities[i].mesh_index
                &&& e2.material_index == entities[i].material_index
                &&& e2.mask == entities[i].mask
            },
    decreases k,
{
    if k > 0 {
        lemma_apply_channels_preserves(entities, channels, time, k - 1);
        lemma_apply_channel_preserves(
            apply_channels_spec(entities, channels, time, k - 1),
            channels[k - 1],
            time,
        );
    }
}

/// Running any prefix of the playback states preserves the same fields
/// of every entity.
pub proof fn lemma_run_states_preserves(
    entities: Seq<Entity>,
    states: Seq<AnimationState>,
    dt: i64,
    k: int,
)
    requires
        k <= states.len(),
    ensures
        run_states_spec(entities, states, dt, k).0.len() == entities.len(),
        run_states_spec(entities, states, dt, k).1.len() == states.len(),
        forall|i: int|
            0 <= i < entities.len() ==> {
                let e2 = #[trigger] run_states_spec(entities, states, dt, k).0[i];
                &&& e2.id == entities[i].id
                &&& e2.parent_index == entities[i].parent_index
                &&& e2.world_transform == entities[i].world_transform
                &&& e2.mesh_index == entities[i].mesh_index
                &&& e2.material_index == entities[i].material_index
                &&& e2.mask == entities[i].mask
            },
    decreases k,
{
    if k > 0 {
        lemma_run_states_preserves(entities, states, dt, k - 1);
        let prev = run_states_spec(entities, states, dt, k - 1);
        let st = states[k - 1];
        if st.playing && 0 <= st.active_clip && (st.active_clip as int) < st.clips@.len() {
            let clip = st.clips@[st.active_clip as int];
            let adv = advance_time_spec(st, clip.duration, dt);
            lemma_apply_channels_preserves(
                prev.0,
                clip.channels@,
                adv.0 as i64,
                clip.channels@.len() as int,
            );
        }
    }
}

/// Positive wrap of an overrun clock into `[0, duration)`.
pub fn wrap_time(t: i64, duration: i64) -> (r: i64)
    ensures
        r == wrap_time_spec(t as int, duration as int),
{
    if duration >= 1 && t >= 0 {
        ((t as u64) % (duration as u64)) as i64
    } else {
        0
    }
}

} // verus!
