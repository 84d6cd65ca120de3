//! Ancillary render math: frustum planes and sphere culling, cascaded
//! shadow-map split placement, and the Cook-Torrance BRDF terms, all in
//! 16.16 fixed point.
use vstd::prelude::*;

use crate::animation::FX_PI;
use crate::fixed::{
    fx_add, fx_add_spec, fx_clamp, fx_div, fx_div_spec, fx_from_int, fx_mul, fx_mul_spec,
    fx_neg, fx_neg_spec, fx_sub, fx_sub_spec, sat64, tdiv, SCALE,
};
use crate::math3d::{fx_sqrt, fx_sqrt_spec, Mat4, Vec3};

verus! {

/// One frustum plane in Hessian normal form: `a x + b y + c z + d = 0`.
#[derive(Debug, Clone, Copy, PartialEq, Eq, Structural)]
pub struct Plane {
    pub a: i64,
    pub b: i64,
    pub c: i64,
    pub d: i64,
}

/// The plane before normalization: sums and differences of the fourth
/// matrix row with the other rows (the Gribb-Hartmann extraction).
pub open spec fn raw_plane_spec(m: Seq<i64>, k: int) -> (int, int, int, int) {
    let r0 = (m[3] as int, m[7] as int, m[11] as int, m[15] as int);
    let r1 = if k == 0 || k == 1 {
        (m[0] as int, m[4] as int, m[8] as int, m[12] as int)
    } else if k == 2 || k == 3 {
        (m[1] as int, m[5] as int, m[9] as int, m[13] as int)
    } else {
        (m[2] as int, m[6] as int, m[10] as int, m[14] as int)
    };
    if k == 0 || k == 2 || k == 4 {
        (
            fx_add_spec(r0.0, r1.0),
            fx_add_spec(r0.1, r1.1),
            fx_add_spec(r0.2, r1.2),
            fx_add_spec(r0.3, r1.3),
        )
    } else {
        (
            fx_sub_spec(r0.0, r1.0),
            fx_sub_spec(r0.1, r1.1),
            fx_sub_spec(r0.2, r1.2),
            fx_sub_spec(r0.3, r1.3),
        )
    }
}

/// A plane scaled so its normal has unit length; a degenerate normal is
/// left as it is.
pub open spec fn normalize_plane_spec(p: (int, int, int, int)) -> (int, int, int, int) {
    let n2 = fx_add_spec(
        fx_add_spec(fx_mul_spec(p.0, p.0), fx_mul_spec(p.1, p.1)),
        fx_mul_spec(p.2, p.2),
    );
    let len = fx_sqrt_spec(n2);
    if len == 0 {
        p
    } else {
        (
            fx_div_spec(p.0, len),
            fx_div_spec(p.1, len),
            fx_div_spec(p.2, len),
            fx_div_spec(p.3, len),
        )
    }
}

fn normalize_plane(a: i64, b: i64, c: i64, d: i64) -> (r: Plane)
    ensures
        (r.a as int, r.b as int, r.c as int, r.d as int) == normalize_plane_spec(
            (a as int, b as int, c as int, d as int),
        ),
{
    let n2 = fx_add(fx_add(fx_mul(a, a), fx_mul(b, b)), fx_mul(c, c));
    let len = fx_sqrt(n2);
    if len == 0 {
        Plane { a, b, c, d }
    } else {
        Plane { a: fx_div(a, len), b: fx_div(b, len), c: fx_div(c, len), d: fx_div(d, len) }
    }
}

/// Extract the six frustum planes (left, right, bottom, top, near, far)
/// from a view-projection matrix, each normalized.
pub fn extract_frustum_planes(vp: &Mat4) -> (r: Vec<Plane>)
    requires
        vp.wf(),
    ensures
        r@.len() == 6,
        forall|k: int|
            0 <= k < 6 ==> ((#[trigger] r@[k]).a as int, r@[k].b as int, r@[k].c as int, r@[k].d as int)
                == normalize_plane_spec(raw_plane_spec(vp.m@, k)),
{
    let mut planes: Vec<Plane> = Vec::new();
    let m0 = vp.get(0);
    let m1 = vp.get(1);
    let m2 = vp.get(2);
    let m3 = vp.get(3);
    let m4 = vp.get(4);
    let m5 = vp.get(5);
    let m6 = vp.get(6);
    let m7 = vp.get(7);
    let m8 = vp.get(8);
    let m9 = vp.get(9);
    let m10 = vp.get(10);
    let m11 = vp.get(11);
    let m12 = vp.get(12);
    let m13 = vp.get(13);
    let m14 = vp.get(14);
    let m15 = vp.get(15);
    planes.push(
        normalize_plane(fx_add(m3, m0), fx_add(m7, m4), fx_add(m11, m8), fx_add(m15, m12)),
    );
    planes.push(
        normalize_plane(fx_sub(m3, m0), fx_sub(m7, m4), fx_sub(m11, m8), fx_sub(m15, m12)),
    );
    planes.push(
        normalize_plane(fx_add(m3, m1), fx_add(m7, m5), fx_add(m11, m9), fx_add(m15, m13)),
    );
    planes.push(
        normalize_plane(fx_sub(m3, m1), fx_sub(m7, m5), fx_sub(m11, m9), fx_sub(m15, m13)),
    );
    planes.push(
        normalize_plane(fx_add(m3, m2), fx_add(m7, m6), fx_add(m11, m10), fx_add(m15, m14)),
    );
    planes.push(
        normalize_plane(fx_sub(m3, m2), fx_sub(m7, m6), fx_sub(m11, m10), fx_sub(m15, m14)),
    );
    planes
}

/// Signed distance of a point from a plane.
pub open spec fn plane_dist_spec(p: Plane, c: Vec3) -> int {
    fx_add_spec(
        fx_add_spec(
            fx_add_spec(fx_mul_spec(p.a as int, c.x as int), fx_mul_spec(p.b as int, c.y as int)),
            fx_mul_spec(p.c as int, c.z as int),
        ),
        p.d as int,
    )
}

/// Whether a bounding sphere is inside or intersects the frustum: it is
/// rejected exactly when it lies fully behind some plane.
pub fn sphere_in_frustum(planes: &Vec<Plane>, center: Vec3, radius: i64) -> (r: bool)
    ensures
        r == (forall|k: int|
            0 <= k < planes@.len() ==> plane_dist_spec(#[trigger] planes@[k], center)
                >= fx_neg_spec(radius as int)),
{
    let n = planes.len();
    let neg_radius = fx_neg(radius);
    let mut k: usize = 0;
    while k < n
        invariant
            n == planes@.len(),
            k <= n,
            neg_radius == fx_neg_spec(radius as int),
            forall|j: int|
                0 <= j < k ==> plane_dist_spec(#[trigger] planes@[j], center) >= fx_neg_spec(
                    radius as int,
                ),
        decreases n - k,
    {
        let p = planes[k];
        let dist = fx_add(
            fx_add(fx_add(fx_mul(p.a, center.x), fx_mul(p.b, center.y)), fx_mul(p.c, center.z)),
            p.d,
        );
        if dist < neg_radius {
            return false;
        }
        k = k + 1;
    }
    true
}

/// Base-two logarithm of a fixed-point scalar at least one: halve until
/// the mantissa is below two, counting whole octaves, then interpolate
/// linearly within the final octave.
pub open spec fn fx_log2_spec(x: int) -> int
    decreases x,
{
    if x < 2 * (SCALE as int) {
        x - SCALE as int
    } else {
        SCALE as int + fx_log2_spec(x / 2)
    }
}

/// The logarithm approximation is non-negative and loses at least one
/// unit against its argument.
pub proof fn lemma_fx_log2_bounds(x: int)
    requires
        x >= SCALE as int,
    ensures
        0 <= fx_log2_spec(x) <= x - SCALE as int,
    decreases x,
{
    if x >= 2 * (SCALE as int) {
        lemma_fx_log2_bounds(x / 2);
    }
}

/// Fixed-point base-two logarithm, for scalars at least one.
pub fn fx_log2(x: i64) -> (r: i64)
    requires
        x >= SCALE,
    ensures
        r == fx_log2_spec(x as int),
        0 <= r,
{
    let mut acc: i64 = 0;
    let mut v: i64 = x;
    while v >= 2 * SCALE
        invariant
            v >= SCALE,
            acc >= 0,
            fx_log2_spec(x as int) == acc + fx_log2_spec(v as int),
            acc + (v as int) <= x as int,
        decreases v,
    {
        proof {
            lemma_fx_log2_bounds(v as int);
            lemma_fx_log2_bounds((v as int) / 2);
        }
        v = ((v as u64) / 2) as i64;
        acc = acc + SCALE;
    }
    proof {
        lemma_fx_log2_bounds(v as int);
    }
    acc + (v - SCALE)
}

/// Base-two power of a non-negative fixed-point exponent: interpolate
/// linearly within the first octave, then double (saturating) once per
/// whole octave.
pub open spec fn fx_exp2_spec(e: int) -> int
    decreases e,
{
    if e < SCALE as int {
        SCALE as int + e
    } else {
        sat64(2 * fx_exp2_spec(e - SCALE as int))
    }
}

/// The power approximation is at least one for non-negative exponents.
pub proof fn lemma_fx_exp2_pos(e: int)
    requires
        e >= 0,
    ensures
        fx_exp2_spec(e) >= SCALE as int,
    decreases e,
{
    if e >= SCALE as int {
        lemma_fx_exp2_pos(e - SCALE as int);
    }
}

/// Fixed-point base-two power, for non-negative exponents.
pub fn fx_exp2(e: i64) -> (r: i64)
    requires
        e >= 0,
    ensures
        r == fx_exp2_spec(e as int),
        r >= 0,
{
    let q: u64 = (e as u64) / (SCALE as u64);
    let f: i64 = ((e as u64) % (SCALE as u64)) as i64;
    let mut r: i64 = SCALE + f;
    let mut k: u64 = 0;
    proof {
        vstd::arithmetic::div_mod::lemma_fundamental_div_mod(e as int, SCALE as int);
    }
    while k < q
        invariant
            0 <= f < SCALE,
            (e as int) == (f as int) + (q as int) * (SCALE as int),
            k <= q,
            r as int == fx_exp2_spec((f as int) + (k as int) * (SCALE as int)),
            r >= 0,
        decreases q - k,
    {
        proof {
            assert((f as int) + ((k + 1) as int) * (SCALE as int) - SCALE as int == (f as int) + (
            k as int) * (SCALE as int)) by (nonlinear_arith);
            assert((f as int) + ((k + 1) as int) * (SCALE as int) >= SCALE as int)
                by (nonlinear_arith)
                requires
                    f >= 0,
                    k >= 0,
            ;
        }
        r = fx_add(r, r);
        k = k + 1;
    }
    proof {
        assert((f as int) + (q as int) * (SCALE as int) == e as int);
    }
    r
}

/// One value of the cascade split sequence: the first is `near`, the
/// last is `far`, and each interior value blends the logarithmic and
/// linear placements by `lambda`, clamped to stay strictly between its
/// neighbours.
pub open spec fn cascade_split_spec(near: i64, far: i64, n: int, lambda: i64, i: int) -> int
    decreases i,
{
    if i <= 0 {
        near as int
    } else if i >= n {
        far as int
    } else {
        let prev = cascade_split_spec(near, far, n, lambda, i - 1);
        let ratio = fx_div_spec(far as int, near as int);
        let p = fx_div_spec(sat64((i as int) * (SCALE as int)), sat64(n * (SCALE as int)));
        let c_log = fx_mul_spec(near as int, fx_exp2_spec(fx_mul_spec(p, fx_log2_spec(ratio))));
        let c_lin = fx_add_spec(near as int, fx_mul_spec(fx_sub_spec(far as int, near as int), p));
        let raw = fx_add_spec(c_lin, fx_mul_spec(lambda as int, fx_sub_spec(c_log, c_lin)));
        let lo = prev + 1;
        let hi = (far as int) - (n - i);
        if raw < lo {
            lo
        } else if raw > hi {
            hi
        } else {
            raw
        }
    }
}

/// Interior splits stay far enough below `far` to leave room for the
/// splits after them.
proof fn lemma_cascade_split_room(near: i64, far: i64, n: int, lambda: i64, i: int)
    requires
        1 <= n,
        (far as int) - (near as int) >= n,
        0 <= i < n,
    ensures
        cascade_split_spec(near, far, n, lambda, i) <= (far as int) - (n - i),
    decreases i,
{
    if i > 0 {
        lemma_cascade_split_room(near, far, n, lambda, i - 1);
    }
}

/// Cascade split boundaries start at `near`, end at `far`, and increase
/// strictly at every step.
pub proof fn lemma_cascade_splits_monotone(near: i64, far: i64, n: int, lambda: i64, i: int)
    requires
        1 <= n,
        (far as int) - (near as int) >= n,
        0 <= i < n,
    ensures
        cascade_split_spec(near, far, n, lambda, 0) == near as int,
        cascade_split_spec(near, far, n, lambda, n) == far as int,
        cascade_split_spec(near, far, n, lambda, i) < cascade_split_spec(
            near,
            far,
            n,
            lambda,
            i + 1,
        ),
{
    lemma_cascade_split_room(near, far, n, lambda, i);
}

/// Compute the cascade split distances: `num_cascades + 1` boundaries
/// from `near` to `far`, blending logarithmic and linear placement by
/// `lambda`. The logarithmic term uses a piecewise-linear base-two
/// power approximation; interior splits are clamped so the sequence is
/// strictly increasing whatever the rounding does.
pub fn compute_cascade_splits(near: i64, far: i64, num_cascades: usize, lambda: i64) -> (r: Vec<
    i64,
>)
    requires
        1 <= near,
        (near as int) + (num_cascades as int) <= far as int,
        1 <= num_cascades < usize::MAX,
    ensures
        r@.len() == num_cascades + 1,
        forall|i: int|
            0 <= i <= num_cascades ==> #[trigger] r@[i] == cascade_split_spec(
                near,
                far,
                num_cascades as int,
                lambda,
                i,
            ),
        r@[0] == near,
        r@[num_cascades as int] == far,
{
    let n = num_cascades;
    let mut splits: Vec<i64> = Vec::new();
    splits.push(near);
    let ratio = fx_div(far, near);
    proof {
        assert(ratio >= SCALE) by {
            let t = tdiv((far as int) * (SCALE as int), near as int);
            assert((far as int) * (SCALE as int) >= (near as int) * (SCALE as int))
                by (nonlinear_arith)
                requires
                    far >= near,
                    SCALE > 0,
            ;
            vstd::arithmetic::div_mod::lemma_div_is_ordered(
                (near as int) * (SCALE as int),
                (far as int) * (SCALE as int),
                near as int,
            );
            assert(((near as int) * (SCALE as int)) / (near as int) == SCALE as int)
                by (nonlinear_arith)
                requires
                    near > 0,
            ;
            assert(t == ((far as int) * (SCALE as int)) / (near as int)) by {
                assert((far as int) * (SCALE as int) >= 0) by (nonlinear_arith)
                    requires
                        far > 0,
                ;
            }
            assert(t >= SCALE as int);
            assert(sat64(t) >= SCALE as int);
        }
    }
    let log_ratio = fx_log2(ratio);
    let mut prev = near;
    let mut i: usize = 1;
    while i <= n
        invariant
            1 <= n < usize::MAX,
            (n as int) <= (far as int) - (near as int),
            1 <= near,
            (near as int) + (n as int) <= far as int,
            log_ratio == fx_log2_spec(fx_div_spec(far as int, near as int)),
            log_ratio >= 0,
            1 <= i <= n + 1,
            splits@.len() == i,
            forall|j: int|
                0 <= j < i ==> #[trigger] splits@[j] == cascade_split_spec(
                    near,
                    far,
                    n as int,
                    lambda,
                    j,
                ),
            prev == cascade_split_spec(near, far, n as int, lambda, i - 1),
            prev as int <= (far as int) - (n as int - (i as int - 1)),
        decreases n + 1 - i,
    {
        if i == n {
            splits.push(far);
            prev = far;
        } else {
            let p = fx_div(fx_from_int(i as i64), fx_from_int(n as i64));
            proof {
                assert(sat64((n as int) * (SCALE as int)) != 0);
            }
            let exponent = fx_mul(p, log_ratio);
            let e2 = if exponent >= 0 {
                fx_exp2(exponent)
            } else {
                SCALE
            };
            proof {
                assert(exponent >= 0) by {
                    assert(fx_mul_spec(p as int, log_ratio as int) >= 0) by {
                        assert(p >= 0) by {
                            crate::fixed::lemma_fx_div_nonneg(
                                sat64((i as int) * (SCALE as int)),
                                sat64((n as int) * (SCALE as int)),
                            );
                        }
                        crate::fixed::lemma_fx_mul_nonneg(p as int, log_ratio as int);
                    }
                }
            }
            let c_log = fx_mul(near, e2);
            let c_lin = fx_add(near, fx_mul(fx_sub(far, near), p));
            let raw = fx_add(c_lin, fx_mul(lambda, fx_sub(c_log, c_lin)));
            let lo = prev + 1;
            let hi = far - ((n - i) as i64);
            let v = fx_clamp(raw, lo, hi);
            splits.push(v);
            prev = v;
        }
        i = i + 1;
    }
    splits
}

/// The Cook-Torrance GGX normal distribution term, non-negative over the
/// whole domain; a vanishing denominator degrades to zero.
pub fn distribution_ggx(n_dot_h: i64, roughness: i64) -> (r: i64)
    ensures
        r == ggx_spec(n_dot_h as int, roughness as int),
        r >= 0,
{
    let a = fx_mul(roughness, roughness);
    let a2 = fx_mul(a, a);
    let denom = fx_add(fx_mul(fx_mul(n_dot_h, n_dot_h), fx_sub(a2, SCALE)), SCALE);
    let divisor = fx_mul(FX_PI, fx_mul(denom, denom));
    proof {
        crate::fixed::lemma_fx_mul_square_nonneg(roughness as int);
        crate::fixed::lemma_fx_mul_square_nonneg(a as int);
        crate::fixed::lemma_fx_mul_square_nonneg(denom as int);
        crate::fixed::lemma_fx_mul_nonneg(FX_PI as int, fx_mul_spec(denom as int, denom as int));
    }
    if divisor == 0 {
        0
    } else {
        let r = fx_div(a2, divisor);
        proof {
            crate::fixed::lemma_fx_div_nonneg(a2 as int, divisor as int);
        }
        r
    }
}

/// What `distribution_ggx` returns.
pub open spec fn ggx_spec(n_dot_h: int, roughness: int) -> int {
    let a = fx_mul_spec(roughness, roughness);
    let a2 = fx_mul_spec(a, a);
    let denom = fx_add_spec(
        fx_mul_spec(fx_mul_spec(n_dot_h, n_dot_h), fx_sub_spec(a2, SCALE as int)),
        SCALE as int,
    );
    let divisor = fx_mul_spec(FX_PI as int, fx_mul_spec(denom, denom));
    if divisor == 0 {
        0
    } else {
        fx_div_spec(a2, divisor)
    }
}

/// What `geometry_schlick_ggx` returns.
pub open spec fn schlick_ggx_spec(n_dot_v: int, roughness: int) -> int {
    let r1 = fx_add_spec(roughness, SCALE as int);
    let k = fx_div_spec(fx_mul_spec(r1, r1), 8 * (SCALE as int));
    let denom = fx_add_spec(fx_mul_spec(n_dot_v, fx_sub_spec(SCALE as int, k)), k);
    if denom == 0 {
        0
    } else {
        fx_div_spec(n_dot_v, denom)
    }
}

/// The Schlick-GGX geometry term; a vanishing denominator degrades to
/// zero.
pub fn geometry_schlick_ggx(n_dot_v: i64, roughness: i64) -> (r: i64)
    ensures
        r == schlick_ggx_spec(n_dot_v as int, roughness as int),
{
    let r1 = fx_add(roughness, SCALE);
    let k = fx_div(fx_mul(r1, r1), 524288);
    let denom = fx_add(fx_mul(n_dot_v, fx_sub(SCALE, k)), k);
    if denom == 0 {
        0
    } else {
        fx_div(n_dot_v, denom)
    }
}

/// Over the physical domain (view angle cosine and roughness both in
/// `[0, 1]`) the geometry term lies in `[0, 1]`.
pub proof fn lemma_schlick_ggx_bounded(n_dot_v: int, roughness: int)
    requires
        0 <= n_dot_v <= SCALE as int,
        0 <= roughness <= SCALE as int,
    ensures
        0 <= schlick_ggx_spec(n_dot_v, roughness) <= SCALE as int,
{
    let s = SCALE as int;
    let r1 = fx_add_spec(roughness, s);
    assert(s <= r1 <= 2 * s);
    let r1sq = fx_mul_spec(r1, r1);
    assert(r1 * r1 >= s * s && r1 * r1 <= 4 * s * s) by (nonlinear_arith)
        requires
            s <= r1 <= 2 * s,
            s > 0,
    ;
    assert(tdiv(r1 * r1, s) == (r1 * r1) / s);
    vstd::arithmetic::div_mod::lemma_div_is_ordered(s * s, r1 * r1, s);
    vstd::arithmetic::div_mod::lemma_div_is_ordered(r1 * r1, 4 * s * s, s);
    assert((s * s) / s == s && (4 * s * s) / s == 4 * s) by (nonlinear_arith)
        requires
            s > 0,
    ;
    assert(r1sq == (r1 * r1) / s);
    assert(s <= r1sq <= 4 * s);
    let k = fx_div_spec(r1sq, 8 * s);
    assert(tdiv(r1sq * s, 8 * s) == (r1sq * s) / (8 * s)) by {
        assert(r1sq * s >= 0) by (nonlinear_arith)
            requires
                r1sq >= 0,
                s > 0,
        ;
    }
    assert((r1sq * s) / (8 * s) == r1sq / 8) by {
        vstd::arithmetic::div_mod::lemma_div_denominator(r1sq * s, s, 8);
        assert((r1sq * s) / s == r1sq) by (nonlinear_arith)
            requires
                s > 0,
        ;
    }
    vstd::arithmetic::div_mod::lemma_div_is_ordered(s, r1sq, 8);
    vstd::arithmetic::div_mod::lemma_div_is_ordered(r1sq, 4 * s, 8);
    assert(s / 8 <= k <= (4 * s) / 8);
    assert(8192 <= k <= s / 2);
    let smk = fx_sub_spec(s, k);
    assert(smk == s - k);
    let prod = fx_mul_spec(n_dot_v, smk);
    assert(n_dot_v * smk >= 0) by (nonlinear_arith)
        requires
            n_dot_v >= 0,
            smk >= 0,
    ;
    assert(prod == (n_dot_v * smk) / s) by {
        assert(tdiv(n_dot_v * smk, s) == (n_dot_v * smk) / s);
        assert(n_dot_v * smk <= s * s) by (nonlinear_arith)
            requires
                0 <= n_dot_v <= s,
                0 <= smk <= s,
        ;
    }
    let denom = fx_add_spec(prod, k);
    vstd::arithmetic::div_mod::lemma_div_is_ordered(0, n_dot_v * smk, s);
    assert(denom >= k);
    // denominator dominates the numerator: n_dot_v <= denom
    assert(n_dot_v * smk >= (n_dot_v - k) * s) by (nonlinear_arith)
        requires
            0 <= n_dot_v <= s,
            k >= 0,
            smk == s - k,
            s > 0,
    ;
    assert((n_dot_v * smk) / s >= n_dot_v - k) by {
        vstd::arithmetic::div_mod::lemma_div_is_ordered((n_dot_v - k) * s, n_dot_v * smk, s);
        vstd::arithmetic::div_mod::lemma_div_multiples_vanish(n_dot_v - k, s);
        assert((s * (n_dot_v - k)) / s == n_dot_v - k);
        assert((n_dot_v - k) * s == s * (n_dot_v - k)) by (nonlinear_arith);
    }
    assert(denom >= n_dot_v);
    assert(denom > 0);
    let g = fx_div_spec(n_dot_v, denom);
    assert(tdiv(n_dot_v * s, denom) == (n_dot_v * s) / denom) by {
        assert(n_dot_v * s >= 0) by (nonlinear_arith)
            requires
                n_dot_v >= 0,
                s > 0,
        ;
    }
    vstd::arithmetic::div_mod::lemma_div_is_ordered(0, n_dot_v * s, denom);
    assert(n_dot_v * s <= denom * s) by (nonlinear_arith)
        requires
            n_dot_v <= denom,
            s > 0,
    ;
    vstd::arithmetic::div_mod::lemma_div_is_ordered(n_dot_v * s, denom * s, denom);
    assert((denom * s) / denom == s) by (nonlinear_arith)
        requires
            denom > 0,
    ;
}

} // verus!
