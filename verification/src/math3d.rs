//! Vectors, quaternions and 4x4 matrices over 16.16 fixed-point scalars.
//!
//! Matrices are stored column-major in a 16-element vector, translation in
//! the last column, as a renderer expects them. Every operation's result
//! is pinned component-by-component by spec formulas over the saturating
//! scalar arithmetic of `fixed`.
use vstd::prelude::*;

use crate::fixed::{
    fx_add, fx_add_spec, fx_div, fx_div_spec, fx_mul, fx_mul_spec, fx_neg, fx_neg_spec,
    fx_sub, fx_sub_spec, isqrt_u128, SCALE,
};

verus! {

#[derive(Debug, Clone, Copy, PartialEq, Eq, Structural)]
pub struct Vec3 {
    pub x: i64,
    pub y: i64,
    pub z: i64,
}

#[derive(Debug, Clone, Copy, PartialEq, Eq, Structural)]
pub struct Quat {
    pub x: i64,
    pub y: i64,
    pub z: i64,
    pub w: i64,
}

/// Componentwise difference.
pub open spec fn vsub_spec(a: Vec3, b: Vec3) -> (int, int, int) {
    (fx_sub_spec(a.x as int, b.x as int), fx_sub_spec(a.y as int, b.y as int), fx_sub_spec(
        a.z as int,
        b.z as int,
    ))
}

pub fn vsub(a: Vec3, b: Vec3) -> (r: Vec3)
    ensures
        (r.x as int, r.y as int, r.z as int) == vsub_spec(a, b),
{
    Vec3 { x: fx_sub(a.x, b.x), y: fx_sub(a.y, b.y), z: fx_sub(a.z, b.z) }
}

/// Dot product, accumulated with saturating additions.
pub open spec fn vdot_spec(a: Vec3, b: Vec3) -> int {
    fx_add_spec(
        fx_add_spec(fx_mul_spec(a.x as int, b.x as int), fx_mul_spec(a.y as int, b.y as int)),
        fx_mul_spec(a.z as int, b.z as int),
    )
}

pub fn vdot(a: Vec3, b: Vec3) -> (r: i64)
    ensures
        r == vdot_spec(a, b),
{
    fx_add(fx_add(fx_mul(a.x, b.x), fx_mul(a.y, b.y)), fx_mul(a.z, b.z))
}

/// Squared distance between two points.
pub open spec fn vdist_sq_spec(a: Vec3, b: Vec3) -> int {
    let d = vsub_spec(a, b);
    let dv = Vec3 { x: d.0 as i64, y: d.1 as i64, z: d.2 as i64 };
    vdot_spec(dv, dv)
}

pub fn vdist_sq(a: Vec3, b: Vec3) -> (r: i64)
    ensures
        r == vdist_sq_spec(a, b),
{
    let d = vsub(a, b);
    vdot(d, d)
}

impl Quat {
    pub fn identity() -> (r: Quat)
        ensures
            r == (Quat { x: 0i64, y: 0i64, z: 0i64, w: SCALE }),
    {
        Quat { x: 0, y: 0, z: 0, w: SCALE }
    }
}

/// Four-component dot product of two quaternions.
pub open spec fn qdot_spec(a: Quat, b: Quat) -> int {
    fx_add_spec(
        fx_add_spec(
            fx_add_spec(fx_mul_spec(a.x as int, b.x as int), fx_mul_spec(a.y as int, b.y as int)),
            fx_mul_spec(a.z as int, b.z as int),
        ),
        fx_mul_spec(a.w as int, b.w as int),
    )
}

pub fn qdot(a: Quat, b: Quat) -> (r: i64)
    ensures
        r == qdot_spec(a, b),
{
    fx_add(fx_add(fx_add(fx_mul(a.x, b.x), fx_mul(a.y, b.y)), fx_mul(a.z, b.z)), fx_mul(a.w, b.w))
}

/// Fixed-point square root of a non-negative scalar: `sqrt(v / S) * S`
/// computed as the integer root of `v * S`.
pub open spec fn fx_sqrt_spec(v: int) -> int {
    if v <= 0 {
        0
    } else {
        isqrt_spec((v * (SCALE as int)) as nat) as int
    }
}

/// The integer square root as a mathematical function.
pub open spec fn isqrt_spec(n: nat) -> nat {
    choose|r: nat| #[trigger] (r * r) <= n && (r + 1) * (r + 1) > n
}

/// Every natural number has an integer square root, so `isqrt_spec`
/// always denotes one.
pub proof fn lemma_isqrt_exists(n: nat)
    ensures
        isqrt_spec(n) * isqrt_spec(n) <= n,
        (isqrt_spec(n) + 1) * (isqrt_spec(n) + 1) > n,
    decreases n,
{
    if n == 0 {
        assert(0nat * 0nat == 0) by (nonlinear_arith);
        assert((0nat + 1) * (0nat + 1) == 1) by (nonlinear_arith);
        assert(exists|r: nat| #[trigger] (r * r) <= n && (r + 1) * (r + 1) > n) by {
            assert((0nat * 0nat) <= n && (0nat + 1) * (0nat + 1) > n);
        }
    } else {
        lemma_isqrt_exists((n - 1) as nat);
        let p = isqrt_spec((n - 1) as nat);
        if (p + 1) * (p + 1) > n {
            assert(exists|r: nat| #[trigger] (r * r) <= n && (r + 1) * (r + 1) > n) by {
                assert((p * p) <= n && (p + 1) * (p + 1) > n);
            }
        } else {
            // n has reached the next perfect square.
            assert(n == (p + 1) * (p + 1));
            assert(((p + 1) + 1) * ((p + 1) + 1) > n) by (nonlinear_arith)
                requires
                    n == (p + 1) * (p + 1),
            ;
            assert(exists|r: nat| #[trigger] (r * r) <= n && (r + 1) * (r + 1) > n) by {
                assert(((p + 1) * (p + 1)) <= n && ((p + 1) + 1) * ((p + 1) + 1) > n);
            }
        }
    }
}

proof fn lemma_isqrt_unique(n: nat, r: nat)
    requires
        r * r <= n,
        (r + 1) * (r + 1) > n,
    ensures
        isqrt_spec(n) == r,
{
    assert(exists|q: nat| #[trigger] (q * q) <= n && (q + 1) * (q + 1) > n) by {
        assert(r * r <= n && (r + 1) * (r + 1) > n);
    }
    let q = isqrt_spec(n);
    if q < r {
        assert((q + 1) * (q + 1) <= r * r) by (nonlinear_arith)
            requires
                q + 1 <= r,
        ;
    }
    if r < q {
        assert((r + 1) * (r + 1) <= q * q) by (nonlinear_arith)
            requires
                r + 1 <= q,
        ;
    }
}

/// Fixed-point square root of a non-negative scalar.
pub fn fx_sqrt(v: i64) -> (r: i64)
    ensures
        r == fx_sqrt_spec(v as int),
        r >= 0,
{
    if v <= 0 {
        return 0;
    }
    proof {
        assert((v as u128) * (SCALE as u128) < 0x8000000000000000u128 * (SCALE as u128))
            by (nonlinear_arith)
            requires
                (v as u128) < 0x8000000000000000u128,
        ;
    }
    let n: u128 = (v as u128) * (SCALE as u128);
    let root = isqrt_u128(n);
    proof {
        lemma_isqrt_unique(n as nat, root as nat);
        assert(root * root <= n);
        assert(root <= 0xffffffffffffu128 * 16u128) by (nonlinear_arith)
            requires
                root * root <= n,
                n < 0x8000000000000000u128 * (SCALE as u128),
        ;
    }
    root as i64
}

/// A 4x4 matrix of fixed-point scalars, stored column-major with the
/// translation in the last column.
#[derive(Debug, Clone, PartialEq, Eq)]
pub struct Mat4 {
    pub m: Vec<i64>,
}

/// Entry `(col, row)` of the product of two column-major matrices.
#[verifier::opaque]
pub open spec fn mat_mul_entry_spec(a: Seq<i64>, b: Seq<i64>, col: int, row: int) -> int {
    fx_add_spec(
        fx_add_spec(
            fx_add_spec(
                fx_mul_spec(a[0 * 4 + row] as int, b[col * 4 + 0] as int),
                fx_mul_spec(a[1 * 4 + row] as int, b[col * 4 + 1] as int),
            ),
            fx_mul_spec(a[2 * 4 + row] as int, b[col * 4 + 2] as int),
        ),
        fx_mul_spec(a[3 * 4 + row] as int, b[col * 4 + 3] as int),
    )
}

/// The identity matrix, as a sequence of entries.
pub open spec fn mat_identity_spec() -> Seq<int> {
    seq![
        SCALE as int, 0, 0, 0,
        0, SCALE as int, 0, 0,
        0, 0, SCALE as int, 0,
        0, 0, 0, SCALE as int,
    ]
}

impl Mat4 {
    /// A matrix holds exactly 16 entries.
    pub open spec fn wf(&self) -> bool {
        self.m@.len() == 16
    }

    pub fn identity() -> (r: Mat4)
        ensures
            r.wf(),
            forall|i: int| 0 <= i < 16 ==> r.m@[i] as int == mat_identity_spec()[i],
    {
        let mut m: Vec<i64> = Vec::new();
        let mut i: usize = 0;
        while i < 16
            invariant
                i <= 16,
                m@.len() == i,
                forall|j: int| 0 <= j < i ==> m@[j] as int == mat_identity_spec()[j],
            decreases 16 - i,
        {
            if i == 0 || i == 5 || i == 10 || i == 15 {
                m.push(SCALE);
            } else {
                m.push(0);
            }
            i = i + 1;
        }
        Mat4 { m }
    }

    /// Read one entry; `i` indexes column-major storage.
    pub fn get(&self, i: usize) -> (r: i64)
        requires
            self.wf(),
            i < 16,
        ensures
            r == self.m@[i as int],
    {
        self.m[i]
    }

    /// Build a matrix from 16 column-major entries.
    pub fn from_entries(entries: Vec<i64>) -> (r: Mat4)
        requires
            entries@.len() == 16,
        ensures
            r.wf(),
            r.m@ == entries@,
    {
        Mat4 { m: entries }
    }

    /// Matrix product `self * other`, entry by entry.
    pub fn mul(&self, other: &Mat4) -> (r: Mat4)
        requires
            self.wf(),
            other.wf(),
        ensures
            r.wf(),
            forall|col: int, row: int|
                0 <= col < 4 && 0 <= row < 4 ==> r.m@[col * 4 + row] as int == mat_mul_entry_spec(
                    self.m@,
                    other.m@,
                    col,
                    row,
                ),
    {
        proof {
            reveal(mat_mul_entry_spec);
        }
        let mut m: Vec<i64> = Vec::new();
        let mut col: usize = 0;
        while col < 4
            invariant
                self.wf(),
                other.wf(),
                col <= 4,
                m@.len() == col * 4,
                forall|c: int, row: int|
                    0 <= c < col && 0 <= row < 4 ==> m@[c * 4 + row] as int == mat_mul_entry_spec(
                        self.m@,
                        other.m@,
                        c,
                        row,
                    ),
            decreases 4 - col,
        {
            let mut row: usize = 0;
            while row < 4
                invariant
                    self.wf(),
                    other.wf(),
                    col < 4,
                    row <= 4,
                    m@.len() == col * 4 + row,
                    forall|c: int, rw: int|
                        0 <= c < col && 0 <= rw < 4 ==> m@[c * 4 + rw] as int == mat_mul_entry_spec(
                            self.m@,
                            other.m@,
                            c,
                            rw,
                        ),
                    forall|rw: int|
                        0 <= rw < row ==> m@[col * 4 + rw] as int == mat_mul_entry_spec(
                            self.m@,
                            other.m@,
                            col as int,
                            rw,
                        ),
                decreases 4 - row,
            {
                proof {
                    reveal(mat_mul_entry_spec);
                }
                let e = fx_add(
                    fx_add(
                        fx_add(
                            fx_mul(self.m[0 * 4 + row], other.m[col * 4 + 0]),
                            fx_mul(self.m[1 * 4 + row], other.m[col * 4 + 1]),
                        ),
                        fx_mul(self.m[2 * 4 + row], other.m[col * 4 + 2]),
                    ),
                    fx_mul(self.m[3 * 4 + row], other.m[col * 4 + 3]),
                );
                m.push(e);
                row = row + 1;
            }
            col = col + 1;
        }
        Mat4 { m }
    }
}

/// Determinant of the upper-left 3x3 block of a column-major matrix.
pub open spec fn mat3_det_spec(m: Seq<i64>) -> int {
    let a = m[0] as int;
    let d = m[1] as int;
    let g = m[2] as int;
    let b = m[4] as int;
    let e = m[5] as int;
    let h = m[6] as int;
    let c = m[8] as int;
    let f = m[9] as int;
    let i = m[10] as int;
    fx_add_spec(
        fx_sub_spec(
            fx_mul_spec(a, fx_sub_spec(fx_mul_spec(e, i), fx_mul_spec(f, h))),
            fx_mul_spec(b, fx_sub_spec(fx_mul_spec(d, i), fx_mul_spec(f, g))),
        ),
        fx_mul_spec(c, fx_sub_spec(fx_mul_spec(d, h), fx_mul_spec(e, g))),
    )
}

/// Inverse of an affine matrix (rotation-scale block plus translation),
/// by the 3x3 adjugate over the determinant; a singular block degrades
/// to the identity.
pub open spec fn mat_inverse_affine_spec(m: Seq<i64>) -> Seq<i64> {
    let det = mat3_det_spec(m);
    if det == 0 {
        Seq::new(16, |i: int| mat_identity_spec()[i] as i64)
    } else {
        let a = m[0] as int;
        let d = m[1] as int;
        let g = m[2] as int;
        let b = m[4] as int;
        let e = m[5] as int;
        let h = m[6] as int;
        let c = m[8] as int;
        let f = m[9] as int;
        let i = m[10] as int;
        let i00 = fx_div_spec(fx_sub_spec(fx_mul_spec(e, i), fx_mul_spec(f, h)), det);
        let i01 = fx_div_spec(fx_sub_spec(fx_mul_spec(c, h), fx_mul_spec(b, i)), det);
        let i02 = fx_div_spec(fx_sub_spec(fx_mul_spec(b, f), fx_mul_spec(c, e)), det);
        let i10 = fx_div_spec(fx_sub_spec(fx_mul_spec(f, g), fx_mul_spec(d, i)), det);
        let i11 = fx_div_spec(fx_sub_spec(fx_mul_spec(a, i), fx_mul_spec(c, g)), det);
        let i12 = fx_div_spec(fx_sub_spec(fx_mul_spec(c, d), fx_mul_spec(a, f)), det);
        let i20 = fx_div_spec(fx_sub_spec(fx_mul_spec(d, h), fx_mul_spec(e, g)), det);
        let i21 = fx_div_spec(fx_sub_spec(fx_mul_spec(b, g), fx_mul_spec(a, h)), det);
        let i22 = fx_div_spec(fx_sub_spec(fx_mul_spec(a, e), fx_mul_spec(b, d)), det);
        let tx = m[12] as int;
        let ty = m[13] as int;
        let tz = m[14] as int;
        let ntx = fx_neg_spec(
            fx_add_spec(
                fx_add_spec(fx_mul_spec(i00, tx), fx_mul_spec(i01, ty)),
                fx_mul_spec(i02, tz),
            ),
        );
        let nty = fx_neg_spec(
            fx_add_spec(
                fx_add_spec(fx_mul_spec(i10, tx), fx_mul_spec(i11, ty)),
                fx_mul_spec(i12, tz),
            ),
        );
        let ntz = fx_neg_spec(
            fx_add_spec(
                fx_add_spec(fx_mul_spec(i20, tx), fx_mul_spec(i21, ty)),
                fx_mul_spec(i22, tz),
            ),
        );
        seq![
            i00 as i64, i10 as i64, i20 as i64, 0i64,
            i01 as i64, i11 as i64, i21 as i64, 0i64,
            i02 as i64, i12 as i64, i22 as i64, 0i64,
            ntx as i64, nty as i64, ntz as i64, SCALE,
        ]
    }
}

impl Mat4 {
    /// Inverse of this matrix taken as affine (the world matrices the
    /// resolver produces are affine by construction); singular matrices
    /// degrade to the identity.
    pub fn inverse_affine(&self) -> (r: Mat4)
        requires
            self.wf(),
        ensures
            r.wf(),
            r.m@ == mat_inverse_affine_spec(self.m@),
    {
        let a = self.m[0];
        let d = self.m[1];
        let g = self.m[2];
        let b = self.m[4];
        let e = self.m[5];
        let h = self.m[6];
        let c = self.m[8];
        let f = self.m[9];
        let i = self.m[10];
        let det = fx_add(
            fx_sub(
                fx_mul(a, fx_sub(fx_mul(e, i), fx_mul(f, h))),
                fx_mul(b, fx_sub(fx_mul(d, i), fx_mul(f, g))),
            ),
            fx_mul(c, fx_sub(fx_mul(d, h), fx_mul(e, g))),
        );
        if det == 0 {
            let ident = Mat4::identity();
            proof {
                assert(ident.m@ =~= mat_inverse_affine_spec(self.m@));
            }
            return ident;
        }
        let i00 = fx_div(fx_sub(fx_mul(e, i), fx_mul(f, h)), det);
        let i01 = fx_div(fx_sub(fx_mul(c, h), fx_mul(b, i)), det);
        let i02 = fx_div(fx_sub(fx_mul(b, f), fx_mul(c, e)), det);
        let i10 = fx_div(fx_sub(fx_mul(f, g), fx_mul(d, i)), det);
        let i11 = fx_div(fx_sub(fx_mul(a, i), fx_mul(c, g)), det);
        let i12 = fx_div(fx_sub(fx_mul(c, d), fx_mul(a, f)), det);
        let i20 = fx_div(fx_sub(fx_mul(d, h), fx_mul(e, g)), det);
        let i21 = fx_div(fx_sub(fx_mul(b, g), fx_mul(a, h)), det);
        let i22 = fx_div(fx_sub(fx_mul(a, e), fx_mul(b, d)), det);
        let tx = self.m[12];
        let ty = self.m[13];
        let tz = self.m[14];
        let ntx = fx_neg(fx_add(fx_add(fx_mul(i00, tx), fx_mul(i01, ty)), fx_mul(i02, tz)));
        let nty = fx_neg(fx_add(fx_add(fx_mul(i10, tx), fx_mul(i11, ty)), fx_mul(i12, tz)));
        let ntz = fx_neg(fx_add(fx_add(fx_mul(i20, tx), fx_mul(i21, ty)), fx_mul(i22, tz)));
        let mut m: Vec<i64> = Vec::new();
        m.push(i00);
        m.push(i10);
        m.push(i20);
        m.push(0);
        m.push(i01);
        m.push(i11);
        m.push(i21);
        m.push(0);
        m.push(i02);
        m.push(i12);
        m.push(i22);
        m.push(0);
        m.push(ntx);
        m.push(nty);
        m.push(ntz);
        m.push(SCALE);
        proof {
            assert(m@ =~= mat_inverse_affine_spec(self.m@));
        }
        Mat4 { m }
    }
}

} // verus!
