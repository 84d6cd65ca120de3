//! Signed 16.16 fixed-point scalar arithmetic.
//!
//! A scalar is an `i64` holding the real value times `SCALE` (65536).
//! Every operation saturates to the `i64` range instead of overflowing,
//! and its result is pinned exactly by a spec-level formula, so callers
//! can reason about the arithmetic without reading the bodies.
use vstd::prelude::*;

verus! {

/// One unit (the real number 1.0) in 16.16 fixed point.
pub const SCALE: i64 = 65536;

/// Saturation of a mathematical integer to the `i64` range.
pub open spec fn sat64(x: int) -> int {
    if x > i64::MAX as int {
        i64::MAX as int
    } else if x < i64::MIN as int {
        i64::MIN as int
    } else {
        x
    }
}

/// Absolute value of a mathematical integer.
pub open spec fn abs_int(x: int) -> int {
    if x >= 0 {
        x
    } else {
        -x
    }
}

/// Division rounding toward zero, as Rust's `/` computes it.
pub open spec fn tdiv(n: int, d: int) -> int {
    if (n >= 0) == (d >= 0) {
        abs_int(n) / abs_int(d)
    } else {
        -(abs_int(n) / abs_int(d))
    }
}

/// What `fx_add` returns.
pub open spec fn fx_add_spec(a: int, b: int) -> int {
    sat64(a + b)
}

/// What `fx_sub` returns.
pub open spec fn fx_sub_spec(a: int, b: int) -> int {
    sat64(a - b)
}

/// What `fx_mul` returns: the product rescaled by `SCALE`, toward zero.
pub open spec fn fx_mul_spec(a: int, b: int) -> int {
    sat64(tdiv(a * b, SCALE as int))
}

/// What `fx_div` returns: the quotient prescaled by `SCALE`, toward zero.
pub open spec fn fx_div_spec(a: int, b: int) -> int {
    sat64(tdiv(a * (SCALE as int), b))
}

/// What `fx_neg` returns.
pub open spec fn fx_neg_spec(a: int) -> int {
    sat64(-a)
}

/// Saturating fixed-point addition.
pub fn fx_add(a: i64, b: i64) -> (r: i64)
    ensures
        r == fx_add_spec(a as int, b as int),
{
    let s: i128 = a as i128 + b as i128;
    if s > i64::MAX as i128 {
        i64::MAX
    } else if s < i64::MIN as i128 {
        i64::MIN
    } else {
        s as i64
    }
}

/// Saturating fixed-point subtraction.
pub fn fx_sub(a: i64, b: i64) -> (r: i64)
    ensures
        r == fx_sub_spec(a as int, b as int),
{
    let s: i128 = a as i128 - b as i128;
    if s > i64::MAX as i128 {
        i64::MAX
    } else if s < i64::MIN as i128 {
        i64::MIN
    } else {
        s as i64
    }
}

/// Saturating negation (the lone asymmetric case is `i64::MIN`).
pub fn fx_neg(a: i64) -> (r: i64)
    ensures
        r == fx_neg_spec(a as int),
{
    if a == i64::MIN {
        i64::MAX
    } else {
        -a
    }
}

/// Magnitude of an `i64` as a `u128`.
fn mag64(a: i64) -> (r: u128)
    ensures
        r == abs_int(a as int),
{
    if a < 0 {
        (-(a as i128)) as u128
    } else {
        a as u128
    }
}

/// Clamp a non-negative magnitude to `i64`, reapplying the sign.
fn sign_clamp(neg: bool, mag: u128) -> (r: i64)
    ensures
        r == sat64(if neg { -(mag as int) } else { mag as int }),
{
    if neg {
        if mag >= 9223372036854775808u128 {
            i64::MIN
        } else {
            -(mag as i64)
        }
    } else {
        if mag > i64::MAX as u128 {
            i64::MAX
        } else {
            mag as i64
        }
    }
}

/// Saturating fixed-point multiplication.
pub fn fx_mul(a: i64, b: i64) -> (r: i64)
    ensures
        r == fx_mul_spec(a as int, b as int),
{
    let ma = mag64(a);
    let mb = mag64(b);
    proof {
        assert(ma * mb <= 0x8000000000000000u128 * 0x8000000000000000u128) by (nonlinear_arith)
            requires
                ma <= 0x8000000000000000u128,
                mb <= 0x8000000000000000u128,
        ;
    }
    let p: u128 = ma * mb;
    let q: u128 = p / (SCALE as u128);
    let neg = (a < 0) != (b < 0);
    proof {
        assert(abs_int(a as int) * abs_int(b as int) == abs_int((a as int) * (b as int)))
            by (nonlinear_arith);
        if neg {
            assert((a as int) * (b as int) <= 0) by (nonlinear_arith)
                requires
                    (a < 0) != (b < 0),
            ;
        } else {
            assert((a as int) * (b as int) >= 0) by (nonlinear_arith)
                requires
                    (a < 0) == (b < 0),
            ;
        }
    }
    sign_clamp(neg, q)
}

/// Saturating fixed-point division; the divisor must be nonzero.
pub fn fx_div(a: i64, b: i64) -> (r: i64)
    requires
        b != 0,
    ensures
        r == fx_div_spec(a as int, b as int),
{
    let ma = mag64(a);
    let mb = mag64(b);
    proof {
        assert(ma * (SCALE as u128) <= 0x8000000000000000u128 * (SCALE as u128))
            by (nonlinear_arith)
            requires
                ma <= 0x8000000000000000u128,
        ;
    }
    let p: u128 = ma * (SCALE as u128);
    let q: u128 = p / mb;
    let neg = (a < 0) != (b < 0);
    proof {
        assert(abs_int(a as int) * (SCALE as int) == abs_int((a as int) * (SCALE as int)))
            by (nonlinear_arith);
        if neg {
            assert((a as int) * (SCALE as int) * (b as int) <= 0
                || ((a as int) * (SCALE as int) >= 0) != ((b as int) >= 0)) by (nonlinear_arith)
                requires
                    (a < 0) != (b < 0),
                    b != 0,
            ;
        }
    }
    sign_clamp(neg, q)
}

/// Clamp into a closed interval; callers must order the bounds.
pub fn fx_clamp(x: i64, lo: i64, hi: i64) -> (r: i64)
    requires
        lo <= hi,
    ensures
        r == if x < lo {
            lo as int
        } else if x > hi {
            hi as int
        } else {
            x as int
        },
        lo <= r <= hi,
{
    if x < lo {
        lo
    } else if x > hi {
        hi
    } else {
        x
    }
}

/// The whole number `n` as a fixed-point scalar, saturated.
pub fn fx_from_int(n: i64) -> (r: i64)
    ensures
        r == sat64((n as int) * (SCALE as int)),
{
    let neg = n < 0;
    let m = mag64(n);
    proof {
        assert(m * (SCALE as u128) <= 0x8000000000000000u128 * (SCALE as u128))
            by (nonlinear_arith)
            requires
                m <= 0x8000000000000000u128,
        ;
        assert(abs_int(n as int) * (SCALE as int) == abs_int((n as int) * (SCALE as int)))
            by (nonlinear_arith);
        if neg {
            assert((n as int) * (SCALE as int) <= 0) by (nonlinear_arith)
                requires
                    n < 0,
            ;
        } else {
            assert((n as int) * (SCALE as int) >= 0) by (nonlinear_arith)
                requires
                    n >= 0,
            ;
        }
    }
    sign_clamp(neg, m * (SCALE as u128))
}

/// A product of non-negative scalars is non-negative.
pub proof fn lemma_fx_mul_nonneg(a: int, b: int)
    requires
        a >= 0,
        b >= 0,
    ensures
        fx_mul_spec(a, b) >= 0,
{
    assert(a * b >= 0) by (nonlinear_arith)
        requires
            a >= 0,
            b >= 0,
    ;
    vstd::arithmetic::div_mod::lemma_div_is_ordered(0, a * b, SCALE as int);
}

/// A square is non-negative.
pub proof fn lemma_fx_mul_square_nonneg(x: int)
    ensures
        fx_mul_spec(x, x) >= 0,
{
    assert(x * x >= 0) by (nonlinear_arith);
    vstd::arithmetic::div_mod::lemma_div_is_ordered(0, x * x, SCALE as int);
}

/// A quotient of a non-negative scalar by a positive one is
/// non-negative.
pub proof fn lemma_fx_div_nonneg(a: int, b: int)
    requires
        a >= 0,
        b > 0,
    ensures
        fx_div_spec(a, b) >= 0,
{
    assert(a * (SCALE as int) >= 0) by (nonlinear_arith)
        requires
            a >= 0,
    ;
    vstd::arithmetic::div_mod::lemma_div_is_ordered(0, a * (SCALE as int), b);
}

/// Integer square root: the greatest `r` with `r * r <= n`.
pub fn isqrt_u128(n: u128) -> (r: u128)
    ensures
        r * r <= n,
        (r + 1) * (r + 1) > n,
        r < 0x10000000000000000u128,
{
    if n == 0 {
        return 0;
    }
    let mut lo: u128 = 0;
    let mut hi: u128 = 0x10000000000000000u128;
    proof {
        assert(hi * hi > n) by (nonlinear_arith)
            requires
                hi == 0x10000000000000000u128,
                n <= u128::MAX,
        ;
    }
    while hi - lo > 1
        invariant
            lo < hi,
            lo * lo <= n,
            hi * hi > n,
            hi <= 0x10000000000000000u128,
        decreases hi - lo,
    {
        let mid = lo + (hi - lo) / 2;
        proof {
            assert(mid * mid < 0x10000000000000000u128 * 0x10000000000000000u128)
                by (nonlinear_arith)
                requires
                    mid < 0x10000000000000000u128,
            ;
        }
        if mid * mid <= n {
            lo = mid;
        } else {
            hi = mid;
        }
    }
    lo
}

} // verus!
