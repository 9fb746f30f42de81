//! Small linear algebra: two-component vectors and 2x2 matrices in
//! column-basis form, used both as general transforms and as covariance
//! matrices.
//!
//! Every operation divides once by the fixed-point scale per entry, and
//! its contract states the resulting integer exactly.

use vstd::prelude::*;

verus! {

use crate::fixed::{Fix, FX_SCALE, FX_PI, FX_HALF_PI, FX_LIM, tdiv, tdiv_i128, isqrt_u128,
    fx_sqrt, sqrt_floor, lemma_tdiv_mag, lemma_tdiv_mul_err, lemma_sqrt_floor_unique};
use crate::kernels::{sin_fx, cos_fx, atan2_fx, sin_spec, cos_spec, atan2_spec};

/// Magnitude bound on the scalars the matrix operations accept: products
/// of two in-range entries, summed and rescaled, stay well inside `i64`.
pub const FX_MAT_LIM: i64 = 0x10_0000_0000;

/// A scalar small enough for the matrix and vector operations.
pub open spec fn fix_ok(x: Fix) -> bool {
    -FX_MAT_LIM <= x.raw <= FX_MAT_LIM
}

/// A two-component fixed-point vector.
#[derive(Clone, Copy, PartialEq, Eq, Structural, Debug)]
pub struct Vec2 {
    pub x: Fix,
    pub y: Fix,
}

/// Both components in operating range.
pub open spec fn vec2_ok(v: Vec2) -> bool {
    fix_ok(v.x) && fix_ok(v.y)
}

/// Products of two in-range entries stay below `2^72`.
proof fn lemma_entry_product_bound(a: int, b: int)
    by (nonlinear_arith)
    requires
        -FX_MAT_LIM <= a <= FX_MAT_LIM,
        -FX_MAT_LIM <= b <= FX_MAT_LIM,
    ensures
        -(FX_MAT_LIM as int) * (FX_MAT_LIM as int) <= a * b <= (FX_MAT_LIM as int) * (
        FX_MAT_LIM as int),
{
}

impl Vec2 {
    /// A vector from its components.
    pub fn new(x: Fix, y: Fix) -> (r: Vec2)
        ensures
            r.x == x && r.y == y,
    {
        Vec2 { x, y }
    }

    /// The zero vector.
    pub fn zero() -> (r: Vec2)
        ensures
            r.x.raw == 0 && r.y.raw == 0,
    {
        Vec2 { x: Fix { raw: 0 }, y: Fix { raw: 0 } }
    }

    /// Componentwise sum.
    pub fn plus(self, o: Vec2) -> (r: Vec2)
        requires
            -FX_LIM <= self.x.raw + o.x.raw <= FX_LIM,
            -FX_LIM <= self.y.raw + o.y.raw <= FX_LIM,
        ensures
            r.x.raw == self.x.raw + o.x.raw,
            r.y.raw == self.y.raw + o.y.raw,
    {
        Vec2 { x: Fix { raw: self.x.raw + o.x.raw }, y: Fix { raw: self.y.raw + o.y.raw } }
    }

    /// Componentwise difference.
    pub fn minus(self, o: Vec2) -> (r: Vec2)
        requires
            -FX_LIM <= self.x.raw - o.x.raw <= FX_LIM,
            -FX_LIM <= self.y.raw - o.y.raw <= FX_LIM,
        ensures
            r.x.raw == self.x.raw - o.x.raw,
            r.y.raw == self.y.raw - o.y.raw,
    {
        Vec2 { x: Fix { raw: self.x.raw - o.x.raw }, y: Fix { raw: self.y.raw - o.y.raw } }
    }

    /// Scalar product of two vectors.
    pub fn dot(self, o: Vec2) -> (r: Fix)
        requires
            vec2_ok(self),
            vec2_ok(o),
        ensures
            r.raw == tdiv(
                self.x.raw * o.x.raw + self.y.raw * o.y.raw,
                FX_SCALE as int,
            ),
    {
        proof {
            lemma_entry_product_bound(self.x.raw as int, o.x.raw as int);
            lemma_entry_product_bound(self.y.raw as int, o.y.raw as int);
            lemma_tdiv_mag(
                self.x.raw * o.x.raw + self.y.raw * o.y.raw,
                FX_SCALE as int,
            );
        }
        let p: i128 = (self.x.raw as i128) * (o.x.raw as i128) + (self.y.raw as i128) * (
        o.y.raw as i128);
        Fix { raw: tdiv_i128(p, FX_SCALE as u64) }
    }

    /// Euclidean norm: the floor square root of the summed squared
    /// components.
    pub fn length(self) -> (r: Fix)
        requires
            vec2_ok(self),
        ensures
            r.raw == sqrt_floor((self.x.raw * self.x.raw + self.y.raw * self.y.raw) as nat),
            0 <= r.raw,
            r.raw * r.raw <= self.x.raw * self.x.raw + self.y.raw * self.y.raw,
    {
        proof {
            lemma_entry_product_bound(self.x.raw as int, self.x.raw as int);
            lemma_entry_product_bound(self.y.raw as int, self.y.raw as int);
            assert(self.x.raw as int * self.x.raw as int >= 0 && self.y.raw as int
                * self.y.raw as int >= 0) by (nonlinear_arith);
        }
        let px: i128 = (self.x.raw as i128) * (self.x.raw as i128);
        let py: i128 = (self.y.raw as i128) * (self.y.raw as i128);
        let n: u128 = (px + py) as u128;
        let s = isqrt_u128(n);
        proof {
            assert((s as int) <= FX_MAT_LIM * 2) by (nonlinear_arith)
                requires
                    (s as int) * (s as int) <= (n as int),
                    (n as int) <= 2 * (FX_MAT_LIM as int) * (FX_MAT_LIM as int),
            ;
        }
        Fix { raw: s as i64 }
    }
}

/// Errors of the covariance factorization.
#[derive(Clone, Copy, PartialEq, Eq, Structural, Debug)]
pub enum MatrixError {
    /// The off-diagonal entries disagree beyond the accepted tolerance.
    NotSymmetric,
    /// The matrix is not numerically positive definite.
    NotPositiveDefinite,
}

/// A 2x2 fixed-point matrix in basis-vector (column) form.
#[derive(Clone, Copy, PartialEq, Eq, Structural, Debug)]
pub struct Matrix2 {
    pub a: Vec2,
    pub b: Vec2,
}

/// All four entries in operating range.
pub open spec fn mat_ok(m: Matrix2) -> bool {
    vec2_ok(m.a) && vec2_ok(m.b)
}

/// One entry of a matrix product: a row-column scalar product rescaled
/// once.
pub open spec fn dot_entry(p: int, q: int, r: int, s: int) -> int {
    tdiv(p * q + r * s, FX_SCALE as int)
}

impl Matrix2 {
    /// A matrix from its two basis columns.
    pub fn from_basis(a: Vec2, b: Vec2) -> (r: Matrix2)
        ensures
            r.a == a && r.b == b,
    {
        Matrix2 { a, b }
    }

    /// The zero matrix.
    pub fn zero() -> (r: Matrix2)
        ensures
            r.a.x.raw == 0 && r.a.y.raw == 0 && r.b.x.raw == 0 && r.b.y.raw == 0,
    {
        Matrix2 { a: Vec2::zero(), b: Vec2::zero() }
    }

    /// The identity matrix.
    pub fn identity() -> (r: Matrix2)
        ensures
            r.a.x.raw == FX_SCALE && r.a.y.raw == 0 && r.b.x.raw == 0 && r.b.y.raw
                == FX_SCALE,
    {
        Matrix2 {
            a: Vec2 { x: Fix { raw: FX_SCALE }, y: Fix { raw: 0 } },
            b: Vec2 { x: Fix { raw: 0 }, y: Fix { raw: FX_SCALE } },
        }
    }

    /// The rotation matrix of an angle: first column `(cos, sin)`,
    /// second column `(-sin, cos)`.
    pub fn from_rotation(rotation: Fix) -> (r: Matrix2)
        requires
            -FX_LIM <= rotation.raw + FX_HALF_PI <= FX_LIM,
            -FX_LIM <= rotation.raw <= FX_LIM,
        ensures
            r.a.x.raw == cos_spec(rotation.raw as int),
            r.a.y.raw == sin_spec(rotation.raw as int),
            r.b.x.raw == -r.a.y.raw,
            r.b.y.raw == r.a.x.raw,
            mat_ok(r),
    {
        let cos_r = cos_fx(rotation);
        let sin_r = sin_fx(rotation);
        Matrix2 {
            a: Vec2 { x: cos_r, y: sin_r },
            b: Vec2 { x: Fix { raw: -sin_r.raw }, y: cos_r },
        }
    }

    /// The transpose: rows become columns.
    pub fn transposed(&self) -> (r: Matrix2)
        ensures
            r.a.x == self.a.x,
            r.a.y == self.b.x,
            r.b.x == self.a.y,
            r.b.y == self.b.y,
    {
        Matrix2 {
            a: Vec2 { x: self.a.x, y: self.b.x },
            b: Vec2 { x: self.a.y, y: self.b.y },
        }
    }

    /// Matrix product `self * rhs`, entry by entry.
    pub fn dot(&self, rhs: &Matrix2) -> (r: Matrix2)
        requires
            mat_ok(*self),
            mat_ok(*rhs),
        ensures
            r.a.x.raw == dot_entry(
                self.a.x.raw as int,
                rhs.a.x.raw as int,
                self.b.x.raw as int,
                rhs.a.y.raw as int,
            ),
            r.a.y.raw == dot_entry(
                self.a.y.raw as int,
                rhs.a.x.raw as int,
                self.b.y.raw as int,
                rhs.a.y.raw as int,
            ),
            r.b.x.raw == dot_entry(
                self.a.x.raw as int,
                rhs.b.x.raw as int,
                self.b.x.raw as int,
                rhs.b.y.raw as int,
            ),
            r.b.y.raw == dot_entry(
                self.a.y.raw as int,
                rhs.b.x.raw as int,
                self.b.y.raw as int,
                rhs.b.y.raw as int,
            ),
    {
        let ax = mat_entry(self.a.x, rhs.a.x, self.b.x, rhs.a.y);
        let ay = mat_entry(self.a.y, rhs.a.x, self.b.y, rhs.a.y);
        let bx = mat_entry(self.a.x, rhs.b.x, self.b.x, rhs.b.y);
        let by = mat_entry(self.a.y, rhs.b.x, self.b.y, rhs.b.y);
        Matrix2 { a: Vec2 { x: ax, y: ay }, b: Vec2 { x: bx, y: by } }
    }

    /// This matrix rotated: the rotation of the angle composed on the
    /// left.
    pub fn rotated(&self, rotation: Fix) -> (r: Matrix2)
        requires
            mat_ok(*self),
            -FX_LIM <= rotation.raw + FX_HALF_PI <= FX_LIM,
            -FX_LIM <= rotation.raw <= FX_LIM,
        ensures
            ({
                let c = cos_spec(rotation.raw as int);
                let s = sin_spec(rotation.raw as int);
                r.a.x.raw == dot_entry(c, self.a.x.raw as int, -s, self.a.y.raw as int)
                    && r.a.y.raw == dot_entry(s, self.a.x.raw as int, c, self.a.y.raw as int)
                    && r.b.x.raw == dot_entry(c, self.b.x.raw as int, -s, self.b.y.raw as int)
                    && r.b.y.raw == dot_entry(s, self.b.x.raw as int, c, self.b.y.raw as int)
            }),
    {
        Matrix2::from_rotation(rotation).dot(self)
    }

    /// Rows scaled componentwise: the first row by `scale.x`, the second
    /// by `scale.y`.
    pub fn scaled(&self, scale: Vec2) -> (r: Matrix2)
        requires
            mat_ok(*self),
            vec2_ok(scale),
        ensures
            r.a.x.raw == crate::fixed::fx_mul_spec(self.a.x.raw as int, scale.x.raw as int),
            r.a.y.raw == crate::fixed::fx_mul_spec(self.a.y.raw as int, scale.y.raw as int),
            r.b.x.raw == crate::fixed::fx_mul_spec(self.b.x.raw as int, scale.x.raw as int),
            r.b.y.raw == crate::fixed::fx_mul_spec(self.b.y.raw as int, scale.y.raw as int),
    {
        let ax = scale_entry(self.a.x, scale.x);
        let ay = scale_entry(self.a.y, scale.y);
        let bx = scale_entry(self.b.x, scale.x);
        let by = scale_entry(self.b.y, scale.y);
        Matrix2 { a: Vec2 { x: ax, y: ay }, b: Vec2 { x: bx, y: by } }
    }

    /// The rotation matrix of the angle, its rows then scaled.
    pub fn from_rotation_scale(rotation: Fix, scale: Vec2) -> (r: Matrix2)
        requires
            vec2_ok(scale),
            -FX_LIM <= rotation.raw + FX_HALF_PI <= FX_LIM,
            -FX_LIM <= rotation.raw <= FX_LIM,
        ensures
            ({
                let c = cos_spec(rotation.raw as int);
                let s = sin_spec(rotation.raw as int);
                &&& r.a.x.raw == crate::fixed::fx_mul_spec(c, scale.x.raw as int)
                &&& r.a.y.raw == crate::fixed::fx_mul_spec(s, scale.y.raw as int)
                &&& r.b.x.raw == crate::fixed::fx_mul_spec(-s, scale.x.raw as int)
                &&& r.b.y.raw == crate::fixed::fx_mul_spec(c, scale.y.raw as int)
            }),
    {
        Matrix2::from_rotation(rotation).scaled(scale)
    }

    /// The heading of the first basis column.
    pub fn rotation(&self) -> (r: Fix)
        requires
            mat_ok(*self),
        ensures
            r.raw == atan2_spec(self.a.y.raw as int, self.a.x.raw as int),
            -FX_PI <= r.raw <= FX_PI,
    {
        atan2_fx(self.a.y, self.a.x)
    }

    /// The column norms, the second signed by the determinant's sign.
    pub fn scale(&self) -> (r: Vec2)
        requires
            mat_ok(*self),
        ensures
            r.x.raw == sqrt_floor((self.a.x.raw * self.a.x.raw + self.a.y.raw
                * self.a.y.raw) as nat),
            ({
                let len_b = sqrt_floor((self.b.x.raw * self.b.x.raw + self.b.y.raw
                    * self.b.y.raw) as nat) as int;
                r.y.raw == if tdiv(
                    self.a.x.raw * self.b.y.raw - self.a.y.raw * self.b.x.raw,
                    FX_SCALE as int,
                ) >= 0 {
                    len_b
                } else {
                    -len_b
                }
            }),
    {
        let det = self.determinant();
        let len_a = self.a.length();
        let len_b = self.b.length();
        let y = if det.raw >= 0 {
            len_b
        } else {
            Fix { raw: -len_b.raw }
        };
        Vec2 { x: len_a, y }
    }

    /// The matrix applied to a vector.
    pub fn xform(&self, u: Vec2) -> (r: Vec2)
        requires
            mat_ok(*self),
            vec2_ok(u),
        ensures
            r.x.raw == dot_entry(
                self.a.x.raw as int,
                u.x.raw as int,
                self.b.x.raw as int,
                u.y.raw as int,
            ),
            r.y.raw == dot_entry(
                self.a.y.raw as int,
                u.x.raw as int,
                self.b.y.raw as int,
                u.y.raw as int,
            ),
    {
        let x = mat_entry(self.a.x, u.x, self.b.x, u.y);
        let y = mat_entry(self.a.y, u.x, self.b.y, u.y);
        Vec2 { x, y }
    }

    /// The transpose applied to a vector: the inverse transform of an
    /// orthonormal basis.
    pub fn xform_inv(&self, u: Vec2) -> (r: Vec2)
        requires
            mat_ok(*self),
            vec2_ok(u),
        ensures
            r.x.raw == dot_entry(
                self.a.x.raw as int,
                u.x.raw as int,
                self.a.y.raw as int,
                u.y.raw as int,
            ),
            r.y.raw == dot_entry(
                self.b.x.raw as int,
                u.x.raw as int,
                self.b.y.raw as int,
                u.y.raw as int,
            ),
    {
        let x = mat_entry(self.a.x, u.x, self.a.y, u.y);
        let y = mat_entry(self.b.x, u.x, self.b.y, u.y);
        Vec2 { x, y }
    }

    /// The determinant, rescaled once.
    pub fn determinant(&self) -> (r: Fix)
        requires
            mat_ok(*self),
        ensures
            r.raw == tdiv(
                self.a.x.raw * self.b.y.raw - self.a.y.raw * self.b.x.raw,
                FX_SCALE as int,
            ),
    {
        proof {
            lemma_entry_product_bound(self.a.x.raw as int, self.b.y.raw as int);
            lemma_entry_product_bound(self.a.y.raw as int, self.b.x.raw as int);
            lemma_tdiv_mag(
                self.a.x.raw * self.b.y.raw - self.a.y.raw * self.b.x.raw,
                FX_SCALE as int,
            );
        }
        let p: i128 = (self.a.x.raw as i128) * (self.b.y.raw as i128) - (self.a.y.raw as i128)
            * (self.b.x.raw as i128);
        Fix { raw: tdiv_i128(p, FX_SCALE as u64) }
    }

    /// Whether the off-diagonal entries agree to within one raw unit,
    /// the resolution of this representation.
    pub fn is_symmetric(&self) -> (r: bool)
        requires
            mat_ok(*self),
        ensures
            r == sym_spec(*self),
    {
        let d = self.a.y.raw - self.b.x.raw;
        -1 <= d && d <= 1
    }

    /// Scalar multiple of the matrix.
    pub fn mul_scalar(&self, k: Fix) -> (r: Matrix2)
        requires
            mat_ok(*self),
            fix_ok(k),
        ensures
            r.a.x.raw == crate::fixed::fx_mul_spec(self.a.x.raw as int, k.raw as int),
            r.a.y.raw == crate::fixed::fx_mul_spec(self.a.y.raw as int, k.raw as int),
            r.b.x.raw == crate::fixed::fx_mul_spec(self.b.x.raw as int, k.raw as int),
            r.b.y.raw == crate::fixed::fx_mul_spec(self.b.y.raw as int, k.raw as int),
    {
        let ax = scale_entry(self.a.x, k);
        let ay = scale_entry(self.a.y, k);
        let bx = scale_entry(self.b.x, k);
        let by = scale_entry(self.b.y, k);
        Matrix2 { a: Vec2 { x: ax, y: ay }, b: Vec2 { x: bx, y: by } }
    }

    /// Entrywise sum.
    pub fn added(&self, o: &Matrix2) -> (r: Matrix2)
        requires
            mat_ok(*self),
            mat_ok(*o),
        ensures
            r.a.x.raw == self.a.x.raw + o.a.x.raw,
            r.a.y.raw == self.a.y.raw + o.a.y.raw,
            r.b.x.raw == self.b.x.raw + o.b.x.raw,
            r.b.y.raw == self.b.y.raw + o.b.y.raw,
    {
        Matrix2 {
            a: Vec2 {
                x: Fix { raw: self.a.x.raw + o.a.x.raw },
                y: Fix { raw: self.a.y.raw + o.a.y.raw },
            },
            b: Vec2 {
                x: Fix { raw: self.b.x.raw + o.b.x.raw },
                y: Fix { raw: self.b.y.raw + o.b.y.raw },
            },
        }
    }

    /// Entrywise difference.
    pub fn subbed(&self, o: &Matrix2) -> (r: Matrix2)
        requires
            mat_ok(*self),
            mat_ok(*o),
        ensures
            r.a.x.raw == self.a.x.raw - o.a.x.raw,
            r.a.y.raw == self.a.y.raw - o.a.y.raw,
            r.b.x.raw == self.b.x.raw - o.b.x.raw,
            r.b.y.raw == self.b.y.raw - o.b.y.raw,
    {
        Matrix2 {
            a: Vec2 {
                x: Fix { raw: self.a.x.raw - o.a.x.raw },
                y: Fix { raw: self.a.y.raw - o.a.y.raw },
            },
            b: Vec2 {
                x: Fix { raw: self.b.x.raw - o.b.x.raw },
                y: Fix { raw: self.b.y.raw - o.b.y.raw },
            },
        }
    }
}

/// Off-diagonal agreement to within one raw unit.
pub open spec fn sym_spec(m: Matrix2) -> bool {
    -1 <= m.a.y.raw - m.b.x.raw <= 1
}

/// Magnitude guard on the computed subdiagonal factor entry, so that the
/// factor stays in the operating range of the matrix operations.
pub const CHOL_LB_LIM: i64 = 0x10_0000_0000;

/// First diagonal entry of the factor: the fixed-point square root of the
/// leading entry.
pub open spec fn chol_la(m: Matrix2) -> int {
    sqrt_floor((m.a.x.raw * FX_SCALE) as nat) as int
}

/// Subdiagonal entry of the factor: the off-diagonal entry divided by the
/// first diagonal entry.
pub open spec fn chol_lb(m: Matrix2) -> int {
    tdiv(m.a.y.raw * FX_SCALE, chol_la(m))
}

/// What remains of the trailing entry after removing the subdiagonal
/// entry's square.
pub open spec fn chol_disc(m: Matrix2) -> int {
    m.b.y.raw - tdiv(chol_lb(m) * chol_lb(m), FX_SCALE as int)
}

/// Second diagonal entry of the factor.
pub open spec fn chol_lc(m: Matrix2) -> int {
    sqrt_floor((chol_disc(m) * FX_SCALE) as nat) as int
}

/// When the factorization succeeds: the matrix is symmetric to tolerance
/// and numerically positive definite (positive leading entry, in-range
/// subdiagonal factor, non-negative remaining diagonal).
pub open spec fn cholesky_ok(m: Matrix2) -> bool {
    &&& sym_spec(m)
    &&& m.a.x.raw > 0
    &&& -CHOL_LB_LIM <= chol_lb(m) <= CHOL_LB_LIM
    &&& chol_disc(m) >= 0
}

impl Matrix2 {
    /// The lower-triangular Cholesky factor `L` with `L * transpose(L)`
    /// equal to this matrix up to fixed-point truncation.  Defined for
    /// symmetric, numerically positive-definite matrices; anything else
    /// is rejected rather than factored into garbage.
    pub fn cholesky(&self) -> (r: Result<Matrix2, MatrixError>)
        requires
            mat_ok(*self),
        ensures
            r is Ok <==> cholesky_ok(*self),
            !sym_spec(*self) ==> r == Result::<Matrix2, MatrixError>::Err(
                MatrixError::NotSymmetric,
            ),
            sym_spec(*self) && !cholesky_ok(*self) ==> r == Result::<Matrix2, MatrixError>::Err(
                MatrixError::NotPositiveDefinite,
            ),
            r matches Ok(l) ==> l.a.x.raw == chol_la(*self) && l.a.y.raw == chol_lb(*self)
                && l.b.x.raw == 0 && l.b.y.raw == chol_lc(*self),
    {
        if !self.is_symmetric() {
            return Err(MatrixError::NotSymmetric);
        }
        if self.a.x.raw <= 0 {
            return Err(MatrixError::NotPositiveDefinite);
        }
        let la = fx_sqrt(self.a.x);
        proof {
            assert(la.raw >= 1) by (nonlinear_arith)
                requires
                    (la.raw + 1) * (la.raw + 1) > self.a.x.raw * 65536,
                    self.a.x.raw >= 1,
                    la.raw >= 0,
            ;
            lemma_tdiv_mag(self.a.y.raw * FX_SCALE, la.raw as int);
        }
        let pb: i128 = (self.a.y.raw as i128) * (FX_SCALE as i128);
        let lb = tdiv_i128(pb, la.raw as u64);
        if lb > CHOL_LB_LIM || lb < -CHOL_LB_LIM {
            return Err(MatrixError::NotPositiveDefinite);
        }
        proof {
            lemma_tdiv_mag(lb as int * lb as int, FX_SCALE as int);
            assert(0 <= lb as int * lb as int
                <= (CHOL_LB_LIM as int) * (CHOL_LB_LIM as int)) by (nonlinear_arith)
                requires
                    -CHOL_LB_LIM <= lb <= CHOL_LB_LIM,
            ;
        }
        let plb: i128 = (lb as i128) * (lb as i128);
        let t = tdiv_i128(plb, FX_SCALE as u64);
        let d = self.b.y.raw - t;
        if d < 0 {
            return Err(MatrixError::NotPositiveDefinite);
        }
        let lc = fx_sqrt(Fix { raw: d });
        Ok(
            Matrix2 {
                a: Vec2 { x: la, y: Fix { raw: lb } },
                b: Vec2 { x: Fix { raw: 0 }, y: lc },
            },
        )
    }
}

/// The factor rebuilds its matrix: each entry of `L * transpose(L)`,
/// written through the product-entry function over the factor's entries,
/// misses the corresponding input entry by at most a couple of raw units
/// per unit of the factor's diagonal, and the diagonal of the rebuild
/// never overshoots.
pub proof fn lemma_cholesky_reconstruction(m: Matrix2)
    requires
        mat_ok(m),
        cholesky_ok(m),
    ensures
        ({
            let la = chol_la(m);
            let lb = chol_lb(m);
            let lc = chol_lc(m);
            &&& m.a.x.raw - 2 * la / (FX_SCALE as int) - 1 <= dot_entry(la, la, 0, 0)
                <= m.a.x.raw
            &&& m.a.y.raw - la / (FX_SCALE as int) - 1 <= dot_entry(lb, la, lc, 0)
                <= m.a.y.raw + la / (FX_SCALE as int) + 1
            &&& m.b.y.raw - 2 * lc / (FX_SCALE as int) - 1 <= dot_entry(lb, lb, lc, lc)
                <= m.b.y.raw
        }),
{
    let s = FX_SCALE as int;
    let la = chol_la(m);
    let lb = chol_lb(m);
    let lc = chol_lc(m);
    let disc = chol_disc(m);
    let n1 = (m.a.x.raw * FX_SCALE) as nat;
    crate::fixed::lemma_sqrt_floor_bounds(n1);
    let q1 = sqrt_floor(n1);
    assert(la >= 0 && la * la <= m.a.x.raw * s && m.a.x.raw * s - 2 * la <= la * la)
        by (nonlinear_arith)
        requires
            la == q1 as int,
            q1 * q1 <= n1,
            n1 < (q1 + 1) * (q1 + 1),
            n1 == m.a.x.raw * s,
            m.a.x.raw > 0,
            s == 65536,
    ;
    // the leading diagonal entry of the rebuild
    let e1 = dot_entry(la, la, 0, 0);
    assert(la * la + 0 * 0 == la * la);
    lemma_tdiv_mul_err(la * la + 0 * 0, s);
    assert(s * e1 <= m.a.x.raw * s && s * e1 > m.a.x.raw * s - 2 * la - s);
    assert(2 * la == s * (2 * la / s) + 2 * la % s && 0 <= 2 * la % s < s);
    assert(m.a.x.raw - 2 * la / s - 1 <= e1 <= m.a.x.raw) by (nonlinear_arith)
        requires
            s == 65536,
            s * e1 <= m.a.x.raw * s,
            s * e1 > m.a.x.raw * s - 2 * la - s,
            2 * la == s * (2 * la / s) + 2 * la % s,
            0 <= 2 * la % s < s,
    ;
    // the off-diagonal entry of the rebuild
    let e2 = dot_entry(lb, la, lc, 0);
    assert(lb * la + lc * 0 == la * lb) by (nonlinear_arith);
    lemma_tdiv_mul_err(la * lb, s);
    assert(la >= 1) by (nonlinear_arith)
        requires
            la >= 0,
            la * la <= m.a.x.raw * s,
            m.a.x.raw * s - 2 * la <= la * la,
            m.a.x.raw >= 1,
            s == 65536,
    ;
    lemma_tdiv_mul_err(m.a.y.raw * FX_SCALE, la);
    assert(vstd::math::abs(s * e2 - m.a.y.raw * s) < la + s) by {
        assert(la * lb == la * tdiv(m.a.y.raw * FX_SCALE, la));
    }
    assert(la == s * (la / s) + la % s && 0 <= la % s < s);
    assert(m.a.y.raw - la / s - 1 <= e2 <= m.a.y.raw + la / s + 1) by (nonlinear_arith)
        requires
            s == 65536,
            vstd::math::abs(s * e2 - m.a.y.raw * s) < la + s,
            la == s * (la / s) + la % s,
            0 <= la % s < s,
            la >= 0,
    ;
    // the trailing diagonal entry of the rebuild
    let n3 = (disc * FX_SCALE) as nat;
    crate::fixed::lemma_sqrt_floor_bounds(n3);
    let q3 = sqrt_floor(n3);
    assert(lc >= 0 && lc * lc <= disc * s && disc * s - 2 * lc <= lc * lc) by (nonlinear_arith)
        requires
            lc == q3 as int,
            q3 * q3 <= n3,
            n3 < (q3 + 1) * (q3 + 1),
            n3 == disc * s,
            disc >= 0,
            s == 65536,
    ;
    let e3 = dot_entry(lb, lb, lc, lc);
    lemma_tdiv_mul_err(lb * lb + lc * lc, s);
    lemma_tdiv_mul_err(lb * lb, s);
    assert(lb * lb >= 0 && lc * lc >= 0) by (nonlinear_arith);
    assert(disc == m.b.y.raw - tdiv(lb * lb, s));
    assert(s * e3 <= m.b.y.raw * s + s - 1 && s * e3 > m.b.y.raw * s - 2 * lc - s)
        by (nonlinear_arith)
        requires
            s == 65536,
            vstd::math::abs(s * e3 - (lb * lb + lc * lc)) < s,
            s * e3 <= lb * lb + lc * lc,
            lb * lb >= 0,
            lc * lc >= 0,
            lc * lc <= disc * s,
            disc * s - 2 * lc <= lc * lc,
            disc == m.b.y.raw - tdiv(lb * lb, s),
            vstd::math::abs(s * tdiv(lb * lb, s) - lb * lb) < s,
            s * tdiv(lb * lb, s) <= lb * lb,
    ;
    assert(2 * lc == s * (2 * lc / s) + 2 * lc % s && 0 <= 2 * lc % s < s);
    assert(m.b.y.raw - 2 * lc / s - 1 <= e3 <= m.b.y.raw) by (nonlinear_arith)
        requires
            s == 65536,
            s * e3 <= m.b.y.raw * s + s - 1,
            s * e3 > m.b.y.raw * s - 2 * lc - s,
            2 * lc == s * (2 * lc / s) + 2 * lc % s,
            0 <= 2 * lc % s < s,
    ;
}

/// The identity matrix factors into itself: its Cholesky factor has unit
/// diagonal and zero off-diagonal entries.
pub proof fn lemma_cholesky_identity(m: Matrix2)
    requires
        m.a.x.raw == FX_SCALE,
        m.a.y.raw == 0,
        m.b.x.raw == 0,
        m.b.y.raw == FX_SCALE,
    ensures
        cholesky_ok(m),
        chol_la(m) == FX_SCALE,
        chol_lb(m) == 0,
        chol_disc(m) == FX_SCALE,
        chol_lc(m) == FX_SCALE,
{
    assert(65536nat * 65536 <= 4294967296);
    assert(4294967296 < (65536nat + 1) * (65536nat + 1)) by (nonlinear_arith);
    lemma_sqrt_floor_unique(4294967296nat, 65536nat);
    assert(chol_la(m) == FX_SCALE);
    assert(vstd::math::abs(0) == 0nat);
    assert(tdiv(0, 65536) == 0);
    assert(chol_lb(m) == 0);
    assert(chol_disc(m) == FX_SCALE);
    assert(chol_lc(m) == FX_SCALE);
}

/// One product entry of a matrix operation: `(p*q + r*s) / scale`,
/// truncated once.
fn mat_entry(p: Fix, q: Fix, r: Fix, s: Fix) -> (res: Fix)
    requires
        fix_ok(p),
        fix_ok(q),
        fix_ok(r),
        fix_ok(s),
    ensures
        res.raw == dot_entry(p.raw as int, q.raw as int, r.raw as int, s.raw as int),
{
    proof {
        lemma_entry_product_bound(p.raw as int, q.raw as int);
        lemma_entry_product_bound(r.raw as int, s.raw as int);
        lemma_tdiv_mag(p.raw * q.raw + r.raw * s.raw, FX_SCALE as int);
    }
    let v: i128 = (p.raw as i128) * (q.raw as i128) + (r.raw as i128) * (s.raw as i128);
    Fix { raw: tdiv_i128(v, FX_SCALE as u64) }
}

/// One rescaled product of two entries.
fn scale_entry(p: Fix, q: Fix) -> (res: Fix)
    requires
        fix_ok(p),
        fix_ok(q),
    ensures
        res.raw == crate::fixed::fx_mul_spec(p.raw as int, q.raw as int),
{
    proof {
        lemma_entry_product_bound(p.raw as int, q.raw as int);
        lemma_tdiv_mag(p.raw * q.raw, FX_SCALE as int);
    }
    let v: i128 = (p.raw as i128) * (q.raw as i128);
    Fix { raw: tdiv_i128(v, FX_SCALE as u64) }
}

/// A rotation-shaped matrix whose first column is exactly one unit long
/// is orthonormal: its determinant is exactly one unit, and its product
/// with its transpose is exactly the identity, entry by entry.
pub proof fn lemma_rotation_orthonormal(m: Matrix2)
    requires
        m.b.x.raw == -(m.a.y.raw as int),
        m.b.y.raw == m.a.x.raw,
        m.a.x.raw * m.a.x.raw + m.a.y.raw * m.a.y.raw == (FX_SCALE as int) * (FX_SCALE as int),
    ensures
        tdiv(m.a.x.raw * m.b.y.raw - m.a.y.raw * m.b.x.raw, FX_SCALE as int) == FX_SCALE,
        dot_entry(m.a.x.raw as int, m.a.x.raw as int, m.b.x.raw as int, m.b.x.raw as int)
            == FX_SCALE,
        dot_entry(m.a.y.raw as int, m.a.x.raw as int, m.b.y.raw as int, m.b.x.raw as int) == 0,
        dot_entry(m.a.x.raw as int, m.a.y.raw as int, m.b.x.raw as int, m.b.y.raw as int) == 0,
        dot_entry(m.a.y.raw as int, m.a.y.raw as int, m.b.y.raw as int, m.b.y.raw as int)
            == FX_SCALE,
{
    let c = m.a.x.raw as int;
    let s = m.a.y.raw as int;
    let ss = (FX_SCALE as int) * (FX_SCALE as int);
    assert(c * m.b.y.raw - s * m.b.x.raw == ss) by (nonlinear_arith)
        requires
            m.b.x.raw == -s,
            m.b.y.raw == c,
            c * c + s * s == ss,
    ;
    assert(c * c + m.b.x.raw * m.b.x.raw == ss) by (nonlinear_arith)
        requires
            m.b.x.raw == -s,
            c * c + s * s == ss,
    ;
    assert(s * c + m.b.y.raw * m.b.x.raw == 0) by (nonlinear_arith)
        requires
            m.b.x.raw == -s,
            m.b.y.raw == c,
    ;
    assert(c * s + m.b.x.raw * m.b.y.raw == 0) by (nonlinear_arith)
        requires
            m.b.x.raw == -s,
            m.b.y.raw == c,
    ;
    assert(s * s + m.b.y.raw * m.b.y.raw == ss) by (nonlinear_arith)
        requires
            m.b.y.raw == c,
            c * c + s * s == ss,
    ;
    assert(ss == 4294967296);
    assert((65536int * 65536) / 65536 == 65536) by {
        vstd::arithmetic::div_mod::lemma_div_multiples_vanish(65536int, 65536int);
    }
    assert(vstd::math::abs(4294967296) == 4294967296nat);
    assert(tdiv(4294967296, FX_SCALE as int) == FX_SCALE);
    assert(tdiv(0, FX_SCALE as int) == 0);
}

} // verus!
