//! Scalar and bivariate normal distributions: sampling, density
//! evaluation, and precision-weighted fusion of two scalar beliefs.
//!
//! Densities are evaluated in fixed point through the exponential kernel;
//! sampling draws from the approximate standard normal of the randomness
//! module.  The bivariate density inverts its covariance analytically
//! rather than through the orthonormal transpose shortcut, which is only
//! valid for rotations.

use vstd::prelude::*;

use rand::rngs::ThreadRng;

verus! {

use vstd::math::{abs, max};
use crate::fixed::{Fix, FX_SCALE, FX_HALF_PI, FX_LIM, tdiv, tdiv_i128, isqrt_u128, fx_sqrt,
    sqrt_floor, fx_mul_spec, lemma_tdiv_mag, lemma_mul_bound};
use crate::kernels::{exp_neg_fx, exp_neg_spec, EXP_NEG_CUTOFF};
use crate::math::{Vec2, Matrix2, MatrixError, FX_MAT_LIM, vec2_ok, mat_ok, sym_spec,
    dot_entry, cholesky_ok, chol_la, chol_lb, chol_lc, chol_disc};
use crate::rng::std_normal_fx;

/// `sqrt(2 * pi)`, scaled.
pub const SQRT_TWO_PI: i64 = 164274;

/// `2 * pi`, scaled.
pub const FX_TWO_PI: i64 = 411775;

/// Magnitude bound on a scalar distribution's spread.
pub const GAUSS_STD_LIM: i64 = 0x10_0000_0000;

/// Magnitude bound on a scalar distribution's center.
pub const GAUSS_MEAN_LIM: i64 = 0x1000_0000_0000;

/// A scalar normal belief: a center and a non-negative spread.
#[derive(Clone, Copy)]
pub struct Gaussian {
    mean: Fix,
    std_dev: Fix,
}

impl Gaussian {
    /// The center, as the contracts see it.
    pub closed spec fn mean_spec(self) -> int {
        self.mean.raw as int
    }

    /// The spread, as the contracts see it.
    pub closed spec fn std_dev_spec(self) -> int {
        self.std_dev.raw as int
    }

    /// Well-formedness: non-negative spread, both parameters within the
    /// operating range.
    pub open spec fn wf(self) -> bool {
        &&& 0 <= self.std_dev_spec() <= GAUSS_STD_LIM
        &&& -GAUSS_MEAN_LIM <= self.mean_spec() <= GAUSS_MEAN_LIM
    }

    /// A scalar normal belief from its center and spread.  A negative
    /// spread is no distribution and is excluded outright.
    pub fn new(mean: Fix, std_dev: Fix) -> (r: Gaussian)
        requires
            0 <= std_dev.raw <= GAUSS_STD_LIM,
            -GAUSS_MEAN_LIM <= mean.raw <= GAUSS_MEAN_LIM,
        ensures
            r.mean_spec() == mean.raw,
            r.std_dev_spec() == std_dev.raw,
            r.wf(),
    {
        Gaussian { mean, std_dev }
    }

    /// The center.
    pub fn mean(&self) -> (r: Fix)
        ensures
            r.raw == self.mean_spec(),
    {
        self.mean
    }

    /// The spread.
    pub fn std_dev(&self) -> (r: Fix)
        ensures
            r.raw == self.std_dev_spec(),
    {
        self.std_dev
    }

    /// The squared spread.
    pub fn variance(&self) -> (r: Fix)
        requires
            self.wf(),
        ensures
            r.raw == fx_mul_spec(self.std_dev_spec(), self.std_dev_spec()),
            0 <= r.raw <= 0x100_0000_0000_0000,
    {
        proof {
            lemma_std_square_bound(self.std_dev_spec());
            lemma_tdiv_mag(self.std_dev_spec() * self.std_dev_spec(), FX_SCALE as int);
        }
        let p: i128 = (self.std_dev.raw as i128) * (self.std_dev.raw as i128);
        Fix { raw: tdiv_i128(p, FX_SCALE as u64) }
    }

    /// One draw: the center plus the spread times a standard-normal
    /// deviate.  Whatever the draw, it lies within six spreads of the
    /// center.
    pub fn sample(&self, rng: &mut ThreadRng) -> (r: Fix)
        requires
            self.wf(),
        ensures
            sampled_from(*self, r.raw as int),
            self.mean_spec() - 6 * self.std_dev_spec() <= r.raw <= self.mean_spec() + 6
                * self.std_dev_spec(),
    {
        let z = std_normal_fx(rng);
        proof {
            lemma_std_step_bound(self.std_dev_spec(), z.raw as int);
            lemma_tdiv_mag(self.std_dev_spec() * z.raw, FX_SCALE as int);
        }
        let p: i128 = (self.std_dev.raw as i128) * (z.raw as i128);
        let step = tdiv_i128(p, FX_SCALE as u64);
        let r = Fix { raw: self.mean.raw + step };
        proof {
            assert(-6 * FX_SCALE <= z.raw as int <= 6 * FX_SCALE && r.raw == self.mean_spec()
                + fx_mul_spec(self.std_dev_spec(), z.raw as int));
            assert(vstd::math::abs(self.std_dev_spec() * z.raw) <= self.std_dev_spec() * (6
                * FX_SCALE)) by (nonlinear_arith)
                requires
                    0 <= self.std_dev_spec(),
                    -6 * FX_SCALE <= z.raw as int <= 6 * FX_SCALE,
            ;
            vstd::arithmetic::div_mod::lemma_div_is_ordered(
                vstd::math::abs(self.std_dev_spec() * z.raw) as int,
                self.std_dev_spec() * (6 * FX_SCALE),
                FX_SCALE as int,
            );
            assert((self.std_dev_spec() * (6 * FX_SCALE)) / (FX_SCALE as int) == 6
                * self.std_dev_spec()) by {
                vstd::arithmetic::div_mod::lemma_div_multiples_vanish(
                    6 * self.std_dev_spec(),
                    FX_SCALE as int,
                );
                assert(self.std_dev_spec() * (6 * FX_SCALE) == (FX_SCALE as int) * (6
                    * self.std_dev_spec())) by (nonlinear_arith);
            }
        }
        r
    }

    /// The normal density at a point, in fixed point: zero past eight
    /// spreads from the center, otherwise the exponential of half the
    /// squared standardized distance, normalized by the spread.
    pub fn probability_density(&self, x: Fix) -> (r: Fix)
        requires
            self.wf(),
            self.std_dev_spec() > 0,
            -GAUSS_MEAN_LIM <= x.raw <= GAUSS_MEAN_LIM,
        ensures
            r.raw == gauss_pdf_spec(self.mean_spec(), self.std_dev_spec(), x.raw as int),
            0 <= r.raw,
    {
        let sd = self.std_dev.raw;
        let z: i64 = if x.raw >= self.mean.raw {
            x.raw - self.mean.raw
        } else {
            self.mean.raw - x.raw
        };
        if z > 8 * sd {
            return Fix { raw: 0 };
        }
        proof {
            vstd::arithmetic::div_mod::lemma_div_multiples_vanish(8 * FX_SCALE, sd as int);
            vstd::arithmetic::div_mod::lemma_div_is_ordered(
                z * FX_SCALE,
                sd as int * (8 * FX_SCALE),
                sd as int,
            );
            vstd::arithmetic::div_mod::lemma_div_pos_is_pos(z * FX_SCALE, sd as int);
        }
        let za: u64 = (((z as u128) * (FX_SCALE as u128)) / (sd as u128)) as u64;
        proof {
            assert(za <= 8 * (FX_SCALE as u64));
            assert(za as int * za as int <= 274877906944) by (nonlinear_arith)
                requires
                    0 <= za as int <= 524288,
            ;
        }
        let arg: u64 = (za * za) / (2 * (FX_SCALE as u64));
        let e = exp_neg_fx(Fix { raw: arg as i64 });
        let num: u128 = (e.raw as u128) * (FX_SCALE as u128) * (FX_SCALE as u128);
        let den: u128 = (sd as u128) * (SQRT_TWO_PI as u128);
        let q: u128 = num / den;
        Fix { raw: q as i64 }
    }

    /// Precision-weighted fusion of two independent scalar beliefs of
    /// the same quantity: the Bayesian update combining their centers by
    /// inverse variance, with the harmonic-sum variance.
    pub fn fuse(&self, o: &Gaussian) -> (r: Gaussian)
        requires
            self.wf(),
            o.wf(),
            fx_mul_spec(self.std_dev_spec(), self.std_dev_spec()) + fx_mul_spec(
                o.std_dev_spec(),
                o.std_dev_spec(),
            ) > 0,
        ensures
            ({
                let v1 = fx_mul_spec(self.std_dev_spec(), self.std_dev_spec());
                let v2 = fx_mul_spec(o.std_dev_spec(), o.std_dev_spec());
                &&& r.mean_spec() == tdiv(
                    self.mean_spec() * v2 + o.mean_spec() * v1,
                    v1 + v2,
                )
                &&& r.std_dev_spec() == sqrt_floor(
                    (tdiv(v1 * v2, v1 + v2) * FX_SCALE) as nat,
                ) as int
                &&& r.wf()
            }),
    {
        let v1 = self.variance();
        let v2 = o.variance();
        let den: i64 = v1.raw + v2.raw;
        proof {
            lemma_fuse_bounds(
                self.mean_spec(),
                o.mean_spec(),
                v1.raw as int,
                v2.raw as int,
            );
        }
        let pm: i128 = (self.mean.raw as i128) * (v2.raw as i128) + (o.mean.raw as i128) * (
        v1.raw as i128);
        let mean = Fix { raw: tdiv_i128(pm, den as u64) };
        let pv: i128 = (v1.raw as i128) * (v2.raw as i128);
        let var = Fix { raw: tdiv_i128(pv, den as u64) };
        let sd = fx_sqrt(var);
        proof {
            assert(sd.raw <= GAUSS_STD_LIM) by (nonlinear_arith)
                requires
                    0 <= sd.raw,
                    sd.raw as int * sd.raw as int <= var.raw as int * FX_SCALE,
                    var.raw <= 0x100_0000_0000_0000,
            ;
        }
        Gaussian { mean, std_dev: sd }
    }
}

/// The value `v` is one that drawing from `g` can produce: the center
/// plus the spread times some deviate within six units.
pub open spec fn sampled_from(g: Gaussian, v: int) -> bool {
    exists|z: int|
        -6 * FX_SCALE <= z <= 6 * FX_SCALE && v == g.mean_spec() + #[trigger] fx_mul_spec(
            g.std_dev_spec(),
            z,
        )
}

/// The density of a scalar normal belief at a point, as an integer
/// function: zero past eight spreads, otherwise the exponential kernel
/// of half the squared standardized distance over the normalizing
/// constant.
pub open spec fn gauss_pdf_spec(m: int, sd: int, x: int) -> int {
    let z = abs(x - m) as int;
    if z > 8 * sd {
        0
    } else {
        let za = (z * FX_SCALE) / sd;
        let arg = (za * za) / (2 * FX_SCALE);
        (exp_neg_spec(arg) * FX_SCALE * FX_SCALE) / (sd * SQRT_TWO_PI)
    }
}

/// The square of an in-range spread stays in range after rescaling.
proof fn lemma_std_square_bound(sd: int)
    by (nonlinear_arith)
    requires
        0 <= sd <= GAUSS_STD_LIM,
    ensures
        0 <= sd * sd <= (GAUSS_STD_LIM as int) * (GAUSS_STD_LIM as int),
{
}

/// A spread times a bounded deviate stays well inside the scalar range.
proof fn lemma_std_step_bound(sd: int, z: int)
    by (nonlinear_arith)
    requires
        0 <= sd <= GAUSS_STD_LIM,
        -6 * FX_SCALE <= z <= 6 * FX_SCALE,
    ensures
        -(GAUSS_STD_LIM as int) * (6 * FX_SCALE) <= sd * z <= (GAUSS_STD_LIM as int) * (6
            * FX_SCALE),
{
}

/// The fusion intermediates stay computable and bounded: the weighted
/// center sum fits, and both truncating quotients stay within the
/// operating ranges of center and variance.
proof fn lemma_fuse_bounds(m1: int, m2: int, v1: int, v2: int)
    requires
        -GAUSS_MEAN_LIM <= m1 <= GAUSS_MEAN_LIM,
        -GAUSS_MEAN_LIM <= m2 <= GAUSS_MEAN_LIM,
        0 <= v1 <= 0x100_0000_0000_0000,
        0 <= v2 <= 0x100_0000_0000_0000,
        0 < v1 + v2,
    ensures
        -0x10_0000_0000_0000_0000_0000_0000 <= m1 * v2 <= 0x10_0000_0000_0000_0000_0000_0000,
        -0x10_0000_0000_0000_0000_0000_0000 <= m2 * v1 <= 0x10_0000_0000_0000_0000_0000_0000,
        -0x20_0000_0000_0000_0000_0000_0000 <= m1 * v2 + m2 * v1
            <= 0x20_0000_0000_0000_0000_0000_0000,
        0 <= v1 * v2 <= 0x1_0000_0000_0000_0000_0000_0000_0000,
        -GAUSS_MEAN_LIM <= tdiv(m1 * v2 + m2 * v1, v1 + v2) <= GAUSS_MEAN_LIM,
        0 <= tdiv(v1 * v2, v1 + v2) <= 0x100_0000_0000_0000,
{
    let den = v1 + v2;
    assert(-0x10_0000_0000_0000_0000_0000_0000 <= m1 * v2 <= 0x10_0000_0000_0000_0000_0000_0000
        && -0x10_0000_0000_0000_0000_0000_0000 <= m2 * v1
        <= 0x10_0000_0000_0000_0000_0000_0000 && 0 <= v1 * v2
        <= 0x1_0000_0000_0000_0000_0000_0000_0000 && abs(m1 * v2 + m2 * v1) <= GAUSS_MEAN_LIM
        * den && v1 * v2 <= den * 0x100_0000_0000_0000) by (nonlinear_arith)
        requires
            -GAUSS_MEAN_LIM <= m1 <= GAUSS_MEAN_LIM,
            -GAUSS_MEAN_LIM <= m2 <= GAUSS_MEAN_LIM,
            0 <= v1 <= 0x100_0000_0000_0000,
            0 <= v2 <= 0x100_0000_0000_0000,
            den == v1 + v2,
            0 < den,
    ;
    lemma_tdiv_mag(m1 * v2 + m2 * v1, den);
    assert((GAUSS_MEAN_LIM * den) / den == GAUSS_MEAN_LIM) by {
        vstd::arithmetic::div_mod::lemma_div_multiples_vanish(GAUSS_MEAN_LIM as int, den);
        assert(GAUSS_MEAN_LIM * den == den * GAUSS_MEAN_LIM) by (nonlinear_arith);
    }
    vstd::arithmetic::div_mod::lemma_div_is_ordered(
        abs(m1 * v2 + m2 * v1) as int,
        GAUSS_MEAN_LIM * den,
        den,
    );
    lemma_tdiv_mag(v1 * v2, den);
    assert((den * 0x100_0000_0000_0000) / den == 0x100_0000_0000_0000) by {
        vstd::arithmetic::div_mod::lemma_div_multiples_vanish(0x100_0000_0000_0000, den);
    }
    vstd::arithmetic::div_mod::lemma_div_is_ordered(
        abs(v1 * v2) as int,
        den * 0x100_0000_0000_0000,
        den,
    );
}


/// The symmetrized determinant of a covariance: leading entry times
/// trailing entry minus the squared off-diagonal entry `b.x`.
pub open spec fn det_sym_spec(m: Matrix2) -> int {
    m.a.x.raw * m.b.y.raw - m.b.x.raw * m.b.x.raw
}

/// Whether the symmetrized determinant is positive, checked exactly.
pub fn det_sym_positive(m: &Matrix2) -> (r: bool)
    requires
        mat_ok(*m),
    ensures
        r == (det_sym_spec(*m) > 0),
{
    proof {
        lemma_mul_bound(m.a.x.raw as int, m.b.y.raw as int, 0x10_0000_0000, 0x10_0000_0000);
        lemma_mul_bound(m.b.x.raw as int, m.b.x.raw as int, 0x10_0000_0000, 0x10_0000_0000);
    }
    let d: i128 = (m.a.x.raw as i128) * (m.b.y.raw as i128) - (m.b.x.raw as i128) * (
    m.b.x.raw as i128);
    d > 0
}

/// The covariance with one raw unit added to its diagonal, guarding the
/// factorization against a near-singular matrix.
pub open spec fn eps_reg_spec(m: Matrix2) -> Matrix2 {
    Matrix2 {
        a: Vec2 { x: Fix { raw: (m.a.x.raw + 1) as i64 }, y: m.a.y },
        b: Vec2 { x: m.b.x, y: Fix { raw: (m.b.y.raw + 1) as i64 } },
    }
}

/// The density of a bivariate normal belief at a point: the exponential
/// of half the squared Mahalanobis distance, computed through the
/// analytic inverse of the symmetrized covariance, over the normalizing
/// constant.
pub open spec fn gauss2_pdf_spec(mean: Vec2, cv: Matrix2, x: Vec2) -> int {
    let zx = x.x.raw - mean.x.raw;
    let zy = x.y.raw - mean.y.raw;
    let num = max(0, cv.b.y.raw * zx * zx - 2 * cv.b.x.raw * zx * zy + cv.a.x.raw * zy * zy);
    let dets = det_sym_spec(cv);
    let arg = (num / dets) / 2;
    (exp_neg_spec(arg) * FX_SCALE * FX_SCALE) / (FX_TWO_PI * sqrt_floor(dets as nat) as int)
}

/// A bivariate normal belief: a center and a symmetric covariance.
#[derive(Clone, Copy)]
pub struct Gaussian2D {
    mean: Vec2,
    covar: Matrix2,
}

impl Gaussian2D {
    /// The center, as the contracts see it.
    pub closed spec fn mean_spec(self) -> Vec2 {
        self.mean
    }

    /// The covariance, as the contracts see it.
    pub closed spec fn covar_spec(self) -> Matrix2 {
        self.covar
    }

    /// Well-formedness: in-range center, in-range covariance, symmetric
    /// to tolerance.
    pub open spec fn wf(self) -> bool {
        &&& vec2_ok(self.mean_spec())
        &&& mat_ok(self.covar_spec())
        &&& sym_spec(self.covar_spec())
    }

    /// A bivariate belief from its center and covariance; the covariance
    /// must be symmetric to tolerance.
    pub fn new(mean: Vec2, covar: Matrix2) -> (r: Gaussian2D)
        requires
            vec2_ok(mean),
            mat_ok(covar),
            sym_spec(covar),
        ensures
            r.mean_spec() == mean,
            r.covar_spec() == covar,
            r.wf(),
    {
        Gaussian2D { mean, covar }
    }

    /// The center.
    pub fn mean(&self) -> (r: Vec2)
        ensures
            r == self.mean_spec(),
    {
        self.mean
    }

    /// The covariance.
    pub fn covariance(&self) -> (r: Matrix2)
        ensures
            r == self.covar_spec(),
    {
        self.covar
    }

    /// An axis-aligned covariance from independent spreads, rotated:
    /// exactly the closed form of `R * diag(sx^2, sy^2) * transpose(R)`,
    /// evaluated with one truncation per entry so that the result is
    /// exactly symmetric.
    pub fn from_std_dev_rotation(mean: Vec2, std_dev: Vec2, rotation: Fix) -> (r: Gaussian2D)
        requires
            vec2_ok(mean),
            -0x200_0000 <= std_dev.x.raw <= 0x200_0000,
            -0x200_0000 <= std_dev.y.raw <= 0x200_0000,
            -FX_LIM <= rotation.raw + FX_HALF_PI <= FX_LIM,
            -FX_LIM <= rotation.raw <= FX_LIM,
        ensures
            ({
                let c = crate::kernels::cos_spec(rotation.raw as int);
                let s = crate::kernels::sin_spec(rotation.raw as int);
                let vx = fx_mul_spec(std_dev.x.raw as int, std_dev.x.raw as int);
                let vy = fx_mul_spec(std_dev.y.raw as int, std_dev.y.raw as int);
                let ss = (FX_SCALE as int) * (FX_SCALE as int);
                &&& r.mean_spec() == mean
                &&& r.covar_spec().a.x.raw == tdiv(c * c * vx + s * s * vy, ss)
                &&& r.covar_spec().a.y.raw == tdiv(c * s * (vx - vy), ss)
                &&& r.covar_spec().b.x.raw == tdiv(c * s * (vx - vy), ss)
                &&& r.covar_spec().b.y.raw == tdiv(s * s * vx + c * c * vy, ss)
                &&& r.wf()
            }),
    {
        let c = crate::kernels::cos_fx(rotation);
        let s = crate::kernels::sin_fx(rotation);
        proof {
            lemma_var_square_bound(std_dev.x.raw as int);
            lemma_var_square_bound(std_dev.y.raw as int);
            lemma_tdiv_mag(std_dev.x.raw * std_dev.x.raw, FX_SCALE as int);
            lemma_tdiv_mag(std_dev.y.raw * std_dev.y.raw, FX_SCALE as int);
        }
        let vx = tdiv_i128(
            (std_dev.x.raw as i128) * (std_dev.x.raw as i128),
            FX_SCALE as u64,
        );
        let vy = tdiv_i128(
            (std_dev.y.raw as i128) * (std_dev.y.raw as i128),
            FX_SCALE as u64,
        );
        proof {
            lemma_rot_covar_bounds(c.raw as int, s.raw as int, vx as int, vy as int);
            lemma_tdiv_ss_bound(c.raw * c.raw * vx + s.raw * s.raw * vy);
            lemma_tdiv_ss_bound(c.raw * s.raw * (vx - vy));
            lemma_tdiv_ss_bound(s.raw * s.raw * vx + c.raw * c.raw * vy);
        }
        let ss: u64 = (FX_SCALE as u64) * (FX_SCALE as u64);
        let axx = tdiv_i128(
            (c.raw as i128) * (c.raw as i128) * (vx as i128) + (s.raw as i128) * (
            s.raw as i128) * (vy as i128),
            ss,
        );
        let off = tdiv_i128(
            (c.raw as i128) * (s.raw as i128) * ((vx as i128) - (vy as i128)),
            ss,
        );
        let byy = tdiv_i128(
            (s.raw as i128) * (s.raw as i128) * (vx as i128) + (c.raw as i128) * (
            c.raw as i128) * (vy as i128),
            ss,
        );
        let covar = Matrix2 {
            a: Vec2 { x: Fix { raw: axx }, y: Fix { raw: off } },
            b: Vec2 { x: Fix { raw: off }, y: Fix { raw: byy } },
        };
        Gaussian2D { mean, covar }
    }

    /// The density at a point, for a positive-definite covariance.
    pub fn probability_density(&self, x: Vec2) -> (r: Fix)
        requires
            self.wf(),
            vec2_ok(x),
            self.covar_spec().a.x.raw > 0,
            det_sym_spec(self.covar_spec()) > 0,
        ensures
            r.raw == gauss2_pdf_spec(self.mean_spec(), self.covar_spec(), x),
            0 <= r.raw,
    {
        let zx: i64 = x.x.raw - self.mean.x.raw;
        let zy: i64 = x.y.raw - self.mean.y.raw;
        let cv = &self.covar;
        proof {
            lemma_quadform_products(
                cv.a.x.raw as int,
                cv.b.x.raw as int,
                cv.b.y.raw as int,
                zx as int,
                zy as int,
            );
        }
        let t1: i128 = (cv.b.y.raw as i128) * (zx as i128) * (zx as i128);
        let t2: i128 = 2 * (cv.b.x.raw as i128) * (zx as i128) * (zy as i128);
        let t3: i128 = (cv.a.x.raw as i128) * (zy as i128) * (zy as i128);
        let raw_num: i128 = t1 - t2 + t3;
        let num: i128 = if raw_num < 0 {
            0
        } else {
            raw_num
        };
        let dets: i128 = (cv.a.x.raw as i128) * (cv.b.y.raw as i128) - (cv.b.x.raw as i128) * (
        cv.b.x.raw as i128);
        proof {
            assert(num as int == max(
                0,
                cv.b.y.raw * zx * zx - 2 * cv.b.x.raw * zx * zy + cv.a.x.raw * zy * zy,
            )) by (nonlinear_arith)
                requires
                    t1 == cv.b.y.raw as int * zx * zx,
                    t2 == 2 * (cv.b.x.raw as int) * zx * zy,
                    t3 == cv.a.x.raw as int * zy * zy,
                    raw_num == t1 - t2 + t3,
                    num == max(0, raw_num as int),
            ;
        }
        let q: u128 = (num as u128) / (dets as u128);
        let arg: u128 = q / 2;
        let ghost dn: nat = dets as nat;
        proof {
            crate::fixed::lemma_sqrt_floor_bounds(dn);
            assert(sqrt_floor(dn) >= 1) by (nonlinear_arith)
                requires
                    dn >= 1,
                    dn < (sqrt_floor(dn) + 1) * (sqrt_floor(dn) + 1),
            ;
            assert((FX_TWO_PI as int) * (sqrt_floor(dn) as int) >= 411775)
                by (nonlinear_arith)
                requires
                    (FX_TWO_PI as int) == 411775,
                    sqrt_floor(dn) as int >= 1,
            ;
        }
        if arg >= EXP_NEG_CUTOFF as u128 {
            proof {
                lemma_exp_neg_past_cutoff((arg) as int);
                vstd::arithmetic::div_mod::lemma_div_of0(
                    (FX_TWO_PI as int) * (sqrt_floor(dn) as int),
                );
                assert((0int) * FX_SCALE * FX_SCALE == 0);
            }
            return Fix { raw: 0 };
        }
        let e = exp_neg_fx(Fix { raw: arg as i64 });
        let sq = isqrt_u128(dets as u128);
        proof {
            assert(sq as int <= 0x100_0000_0000) by (nonlinear_arith)
                requires
                    (sq as int) * (sq as int) <= dets as int,
                    dets as int <= 0x2000_0000_0000_0000_0000,
            ;
        }
        let numerator: u128 = (e.raw as u128) * (FX_SCALE as u128) * (FX_SCALE as u128);
        let den: u128 = (FX_TWO_PI as u128) * (sq as u128);
        let out: u128 = numerator / den;
        Fix { raw: out as i64 }
    }

    /// One draw: the center displaced by the Cholesky factor of the
    /// diagonal-regularized covariance applied to two independent
    /// standard-normal deviates.  A covariance that resists even the
    /// regularized factorization is reported, never silently sampled.
    pub fn sample(&self, rng: &mut ThreadRng) -> (r: Result<Vec2, MatrixError>)
        requires
            self.wf(),
            self.covar_spec().a.x.raw < FX_MAT_LIM,
            self.covar_spec().b.y.raw < FX_MAT_LIM,
        ensures
            r is Ok <==> cholesky_ok(eps_reg_spec(self.covar_spec())),
            ({
                let sigma = eps_reg_spec(self.covar_spec());
                let la = chol_la(sigma);
                let lb = chol_lb(sigma);
                let lc = chol_lc(sigma);
                match r {
                    Ok(v) => -0x2_0000_0000_0000 <= v.x.raw <= 0x2_0000_0000_0000
                        && -0x2_0000_0000_0000 <= v.y.raw <= 0x2_0000_0000_0000
                        && exists|z1: int, z2: int|
                        -6 * FX_SCALE <= z1 <= 6 * FX_SCALE && -6 * FX_SCALE <= z2 <= 6
                            * FX_SCALE && v.x.raw == self.mean_spec().x.raw + #[trigger] dot_entry(
                            la,
                            z1,
                            0,
                            z2,
                        ) && v.y.raw == self.mean_spec().y.raw + dot_entry(lb, z1, lc, z2),
                    Err(e) => r == Result::<Vec2, MatrixError>::Err(e),
                }
            }),
    {
        let sigma = Matrix2 {
            a: Vec2 { x: Fix { raw: self.covar.a.x.raw + 1 }, y: self.covar.a.y },
            b: Vec2 { x: self.covar.b.x, y: Fix { raw: self.covar.b.y.raw + 1 } },
        };
        let l = match sigma.cholesky() {
            Ok(l) => l,
            Err(e) => {
                return Err(e);
            },
        };
        proof {
            assert(chol_lb(sigma) * chol_lb(sigma) >= 0) by (nonlinear_arith);
            vstd::arithmetic::div_mod::lemma_div_pos_is_pos(
                abs(chol_lb(sigma) * chol_lb(sigma)) as int,
                65536,
            );
            assert(tdiv(chol_lb(sigma) * chol_lb(sigma), FX_SCALE as int) >= 0);
            lemma_factor_in_range(sigma, l);
        }
        let u = Vec2 { x: std_normal_fx(rng), y: std_normal_fx(rng) };
        let step = l.xform(u);
        proof {
            lemma_tdiv_mag(l.a.x.raw * u.x.raw + l.b.x.raw * u.y.raw, FX_SCALE as int);
            lemma_tdiv_mag(l.a.y.raw * u.x.raw + l.b.y.raw * u.y.raw, FX_SCALE as int);
            lemma_step_products(
                l.a.x.raw as int,
                l.a.y.raw as int,
                l.b.x.raw as int,
                l.b.y.raw as int,
                u.x.raw as int,
                u.y.raw as int,
            );
        }
        proof {
            assert(0x1_0000_0000_0000int * 65536 == 0x1_0000_0000_0000_0000)
                by (nonlinear_arith);
            vstd::arithmetic::div_mod::lemma_div_by_multiple(0x1_0000_0000_0000int, 65536);
            vstd::arithmetic::div_mod::lemma_div_is_ordered(
                abs(l.a.x.raw * u.x.raw + l.b.x.raw * u.y.raw) as int,
                0x1_0000_0000_0000_0000,
                65536,
            );
            vstd::arithmetic::div_mod::lemma_div_is_ordered(
                abs(l.a.y.raw * u.x.raw + l.b.y.raw * u.y.raw) as int,
                0x1_0000_0000_0000_0000,
                65536,
            );
        }
        let v = Vec2 {
            x: Fix { raw: self.mean.x.raw + step.x.raw },
            y: Fix { raw: self.mean.y.raw + step.y.raw },
        };
        proof {
            let sigma_s = eps_reg_spec(self.covar_spec());
            assert(sigma == sigma_s);
            assert(-6 * FX_SCALE <= u.x.raw as int <= 6 * FX_SCALE && -6 * FX_SCALE
                <= u.y.raw as int <= 6 * FX_SCALE && v.x.raw == self.mean_spec().x.raw
                + dot_entry(chol_la(sigma_s), u.x.raw as int, 0, u.y.raw as int) && v.y.raw
                == self.mean_spec().y.raw + dot_entry(
                chol_lb(sigma_s),
                u.x.raw as int,
                chol_lc(sigma_s),
                u.y.raw as int,
            ));
        }
        Ok(v)
    }
}

/// A numerator below `2^68` divided by the squared scale stays within
/// the matrix operating range.
proof fn lemma_tdiv_ss_bound(p: int)
    requires
        -0x10_0000_0000_0000_0000 <= p <= 0x10_0000_0000_0000_0000,
    ensures
        -FX_MAT_LIM <= tdiv(p, (FX_SCALE as int) * (FX_SCALE as int)) <= FX_MAT_LIM,
        tdiv(p, (FX_SCALE as int) * (FX_SCALE as int)) == tdiv(p, 4294967296),
{
    assert((FX_SCALE as int) * (FX_SCALE as int) == 4294967296) by (nonlinear_arith);
    lemma_tdiv_mag(p, 4294967296);
    vstd::arithmetic::div_mod::lemma_div_is_ordered(
        abs(p) as int,
        0x10_0000_0000_0000_0000,
        4294967296,
    );
    assert(0x10_0000_0000int * 4294967296 == 0x10_0000_0000_0000_0000) by (nonlinear_arith);
    vstd::arithmetic::div_mod::lemma_div_by_multiple(0x10_0000_0000int, 4294967296);
    assert(0x10_0000_0000_0000_0000int / 4294967296 == 0x10_0000_0000);
}

/// The square of a spread bounded by `2^25` stays within the matrix
/// operating range after rescaling.
proof fn lemma_var_square_bound(sd: int)
    by (nonlinear_arith)
    requires
        -0x200_0000 <= sd <= 0x200_0000,
    ensures
        0 <= sd * sd <= 0x4_0000_0000_0000,
{
}

/// The rotated-covariance numerators stay below `2^68`.
proof fn lemma_rot_covar_bounds(c: int, s: int, vx: int, vy: int)
    by (nonlinear_arith)
    requires
        -FX_SCALE <= c <= FX_SCALE,
        -FX_SCALE <= s <= FX_SCALE,
        0 <= vx <= 0x4_0000_0000,
        0 <= vy <= 0x4_0000_0000,
    ensures
        -0x10_0000_0000_0000_0000 <= c * c * vx + s * s * vy <= 0x10_0000_0000_0000_0000,
        -0x10_0000_0000_0000_0000 <= c * s * (vx - vy) <= 0x10_0000_0000_0000_0000,
        -0x10_0000_0000_0000_0000 <= s * s * vx + c * c * vy <= 0x10_0000_0000_0000_0000,
        -0x1_0000_0000 <= c * c <= 0x1_0000_0000,
        -0x1_0000_0000 <= c * s <= 0x1_0000_0000,
        -0x1_0000_0000 <= s * s <= 0x1_0000_0000,
        -0x8_0000_0000_0000_0000 <= c * c * vx <= 0x8_0000_0000_0000_0000,
        -0x8_0000_0000_0000_0000 <= s * s * vy <= 0x8_0000_0000_0000_0000,
        -0x8_0000_0000_0000_0000 <= s * s * vx <= 0x8_0000_0000_0000_0000,
        -0x8_0000_0000_0000_0000 <= c * c * vy <= 0x8_0000_0000_0000_0000,
{
}

/// Partial products of the quadratic form and determinant stay inside
/// `i128`.
proof fn lemma_quadform_products(axx: int, bx: int, byy: int, zx: int, zy: int)
    requires
        -FX_MAT_LIM <= axx <= FX_MAT_LIM,
        -FX_MAT_LIM <= bx <= FX_MAT_LIM,
        -FX_MAT_LIM <= byy <= FX_MAT_LIM,
        -2 * FX_MAT_LIM <= zx <= 2 * FX_MAT_LIM,
        -2 * FX_MAT_LIM <= zy <= 2 * FX_MAT_LIM,
    ensures
        -0x200_0000_0000_0000_0000 <= byy * zx <= 0x200_0000_0000_0000_0000,
        -0x4000_0000_0000_0000_0000_0000_0000 <= byy * zx * zx
            <= 0x4000_0000_0000_0000_0000_0000_0000,
        -0x400_0000_0000_0000_0000 <= 2 * bx * zx <= 0x400_0000_0000_0000_0000,
        -0x8000_0000_0000_0000_0000_0000_0000 <= 2 * bx * zx * zy
            <= 0x8000_0000_0000_0000_0000_0000_0000,
        -0x200_0000_0000_0000_0000 <= axx * zy <= 0x200_0000_0000_0000_0000,
        -0x4000_0000_0000_0000_0000_0000_0000 <= axx * zy * zy
            <= 0x4000_0000_0000_0000_0000_0000_0000,
        -0x100_0000_0000_0000_0000 <= axx * byy <= 0x100_0000_0000_0000_0000,
        -0x100_0000_0000_0000_0000 <= bx * bx <= 0x100_0000_0000_0000_0000,
{
    lemma_mul_bound(byy, zx, 0x10_0000_0000, 0x20_0000_0000);
    lemma_mul_bound(byy * zx, zx, 0x200_0000_0000_0000_0000, 0x20_0000_0000);
    lemma_mul_bound(2 * bx, zx, 0x20_0000_0000, 0x20_0000_0000);
    lemma_mul_bound(2 * bx * zx, zy, 0x400_0000_0000_0000_0000, 0x20_0000_0000);
    lemma_mul_bound(axx, zy, 0x10_0000_0000, 0x20_0000_0000);
    lemma_mul_bound(axx * zy, zy, 0x200_0000_0000_0000_0000, 0x20_0000_0000);
    lemma_mul_bound(axx, byy, 0x10_0000_0000, 0x10_0000_0000);
    lemma_mul_bound(bx, bx, 0x10_0000_0000, 0x10_0000_0000);
}

/// Past the cutoff the exponential kernel is zero, so the density is
/// zero regardless of the normalization.
proof fn lemma_exp_neg_past_cutoff(arg: int)
    requires
        arg >= EXP_NEG_CUTOFF,
    ensures
        exp_neg_spec(arg) == 0,
{
}

/// A successful factor of an in-range regularized covariance stays in
/// the matrix operating range.
proof fn lemma_factor_in_range(sigma: Matrix2, l: Matrix2)
    requires
        mat_ok(sigma),
        sigma.a.x.raw >= 1,
        cholesky_ok(sigma),
        l.a.x.raw == chol_la(sigma),
        l.a.y.raw == chol_lb(sigma),
        l.b.x.raw == 0,
        l.b.y.raw == chol_lc(sigma),
        0 <= chol_disc(sigma) <= sigma.b.y.raw,
    ensures
        mat_ok(l),
{
    crate::fixed::lemma_sqrt_floor_bounds((sigma.a.x.raw * FX_SCALE) as nat);
    assert(chol_la(sigma) <= 0x400_0000) by (nonlinear_arith)
        requires
            chol_la(sigma) >= 0,
            chol_la(sigma) * chol_la(sigma) <= sigma.a.x.raw * FX_SCALE,
            sigma.a.x.raw * FX_SCALE <= 0x10_0000_0000_0000,
    ;
    crate::fixed::lemma_sqrt_floor_bounds((chol_disc(sigma) * FX_SCALE) as nat);
    assert(chol_lc(sigma) <= 0x400_0000) by (nonlinear_arith)
        requires
            chol_lc(sigma) >= 0,
            chol_lc(sigma) * chol_lc(sigma) <= chol_disc(sigma) * FX_SCALE,
            chol_disc(sigma) * FX_SCALE <= 0x10_0000_0000_0000,
    ;
}

/// The factor-times-deviate products stay small.
proof fn lemma_step_products(lax: int, lay: int, lbx: int, lby: int, ux: int, uy: int)
    by (nonlinear_arith)
    requires
        -FX_MAT_LIM <= lax <= FX_MAT_LIM,
        -FX_MAT_LIM <= lay <= FX_MAT_LIM,
        -FX_MAT_LIM <= lbx <= FX_MAT_LIM,
        -FX_MAT_LIM <= lby <= FX_MAT_LIM,
        -6 * FX_SCALE <= ux <= 6 * FX_SCALE,
        -6 * FX_SCALE <= uy <= 6 * FX_SCALE,
    ensures
        -0x1_0000_0000_0000_0000 <= lax * ux + lbx * uy <= 0x1_0000_0000_0000_0000,
        -0x1_0000_0000_0000_0000 <= lay * ux + lby * uy <= 0x1_0000_0000_0000_0000,
{
}

} // verus!
