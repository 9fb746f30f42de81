//! Transcendental kernels in fixed point.
//!
//! Sine and cosine use a degree-7 Taylor polynomial after folding the angle
//! into a quarter wave; the arctangent uses a cubic minimax correction of
//! the linear term; the decaying exponential splits its argument into a
//! whole and a fractional part, handling the fraction with a degree-6
//! Taylor polynomial and the whole part by repeated multiplication with
//! `1/e`.  Each function's contract states the computed integer exactly,
//! so callers reason about the same value the machine produces; the
//! polynomial's distance to the real function is a numerical concern that
//! the test suite covers.

use vstd::prelude::*;

verus! {

use crate::fixed::{Fix, FX_SCALE, FX_PI, FX_HALF_PI, FX_QUARTER_PI, FX_LIM, tdiv, wrap,
    wrap_spec, lemma_wrap_in_range};
use vstd::math::{min, max, abs};

/// `6 * FX_SCALE^2`: denominator of the cubic Taylor term of sine.
pub const SIN_DEN3: u128 = 25_769_803_776;

/// `120 * FX_SCALE^4`: denominator of the quintic Taylor term of sine.
pub const SIN_DEN5: u128 = 2_213_609_288_845_146_193_920;

/// `5040 * FX_SCALE^6`: denominator of the degree-7 Taylor term of sine.
pub const SIN_DEN7: u128 = 399_309_939_071_892_261_471_461_509_693_440;

/// `0.2447`, scaled: first arctangent correction coefficient.
pub const ATAN_C1: i64 = 16037;

/// `0.0663`, scaled: second arctangent correction coefficient.
pub const ATAN_C2: i64 = 4345;

/// `1 / e`, scaled.
pub const INV_E: i64 = 24109;

/// Argument beyond which the decaying exponential underflows the
/// fixed-point resolution and is taken as zero.
pub const EXP_NEG_CUTOFF: i64 = 1048576;

/// Clamped degree-7 Taylor polynomial for sine on a quarter wave,
/// `0 <= u <= FX_HALF_PI`.
pub open spec fn sin_poly_spec(u: int) -> int {
    let p = u - (u * u * u) / (SIN_DEN3 as int) + (u * u * u * u * u) / (SIN_DEN5 as int) - (u
        * u * u * u * u * u * u) / (SIN_DEN7 as int);
    max(0, min(FX_SCALE as int, p))
}

/// Sine on one full wave, `-FX_PI <= w < FX_PI`: the angle folded onto a
/// quarter wave by the reflection and point symmetries of sine.
pub open spec fn sin_fold_spec(w: int) -> int {
    let v = if w > FX_HALF_PI {
        FX_PI - w
    } else if w < -FX_HALF_PI {
        -FX_PI - w
    } else {
        w
    };
    if v >= 0 {
        sin_poly_spec(v)
    } else {
        -sin_poly_spec(-v)
    }
}

/// Sine of an arbitrary fixed-point angle.
pub open spec fn sin_spec(x: int) -> int {
    sin_fold_spec(wrap_spec(x, -FX_PI as int, FX_PI as int))
}

/// Cosine as the shifted sine.
pub open spec fn cos_spec(x: int) -> int {
    sin_spec(x + FX_HALF_PI)
}

/// Powers of `u` up to the seventh stay below `2^119` for a quarter-wave
/// argument.
proof fn lemma_sin_powers_bounded(u: int)
    by (nonlinear_arith)
    requires
        0 <= u <= FX_HALF_PI,
    ensures
        0 <= u * u <= 0x4_0000_0000,
        0 <= u * u * u <= 0x4_0000_0000_0000,
        0 <= u * u * u * u <= 0x100_0000_0000_0000_0000,
        0 <= u * u * u * u * u <= 0x10_0000_0000_0000_0000_0000,
        0 <= u * u * u * u * u * u <= 0x10_0000_0000_0000_0000_0000_0000,
        0 <= u * u * u * u * u * u * u <= 0x40_0000_0000_0000_0000_0000_0000_0000,
{
}

/// Sine of a fixed-point angle in radians.
pub fn sin_fx(x: Fix) -> (r: Fix)
    requires
        -FX_LIM <= x.raw <= FX_LIM,
    ensures
        r.raw == sin_spec(x.raw as int),
        -FX_SCALE <= r.raw <= FX_SCALE,
{
    let w = wrap(x, Fix { raw: -FX_PI }, Fix { raw: FX_PI });
    proof {
        lemma_wrap_in_range(x.raw as int, -FX_PI as int, FX_PI as int);
    }
    let v: i64 = if w.raw > FX_HALF_PI {
        FX_PI - w.raw
    } else if w.raw < -FX_HALF_PI {
        -FX_PI - w.raw
    } else {
        w.raw
    };
    let u: i64 = if v < 0 {
        -v
    } else {
        v
    };
    proof {
        lemma_sin_powers_bounded(u as int);
    }
    let uu: u128 = u as u128;
    let u3: u128 = uu * uu * uu;
    let u5: u128 = u3 * uu * uu;
    let u7: u128 = u5 * uu * uu;
    let t3: u128 = u3 / SIN_DEN3;
    let t5: u128 = u5 / SIN_DEN5;
    let t7: u128 = u7 / SIN_DEN7;
    let p: i128 = uu as i128 - t3 as i128 + t5 as i128 - t7 as i128;
    let p64: i64 = if p < 0 {
        0
    } else if p > FX_SCALE as i128 {
        FX_SCALE
    } else {
        p as i64
    };
    if v < 0 {
        Fix { raw: -p64 }
    } else {
        Fix { raw: p64 }
    }
}

/// Cosine of a fixed-point angle in radians.
pub fn cos_fx(x: Fix) -> (r: Fix)
    requires
        -FX_LIM <= x.raw + FX_HALF_PI <= FX_LIM,
    ensures
        r.raw == cos_spec(x.raw as int),
        -FX_SCALE <= r.raw <= FX_SCALE,
{
    sin_fx(Fix { raw: x.raw + FX_HALF_PI })
}

/// Arctangent polynomial on the unit interval, `0 <= u <= FX_SCALE`:
/// the linear term `u * pi/4` plus a quadratic-times-affine correction.
pub open spec fn atan_poly_spec(u: int) -> int {
    (FX_QUARTER_PI * u) / (FX_SCALE as int) + ((u * (FX_SCALE - u)) / (FX_SCALE as int) * (
    ATAN_C1 + (ATAN_C2 * u) / (FX_SCALE as int))) / (FX_SCALE as int)
}

/// The arctangent polynomial stays within `[0, FX_HALF_PI)` on its domain.
proof fn lemma_atan_poly_bounded(u: int)
    requires
        0 <= u <= FX_SCALE,
    ensures
        0 <= atan_poly_spec(u) < FX_HALF_PI,
{
    let s = FX_SCALE as int;
    assert(0 <= FX_QUARTER_PI * u <= FX_QUARTER_PI * s) by (nonlinear_arith)
        requires
            0 <= u <= s,
    ;
    vstd::arithmetic::div_mod::lemma_div_pos_is_pos(FX_QUARTER_PI * u, s);
    vstd::arithmetic::div_mod::lemma_div_is_ordered(FX_QUARTER_PI * u, FX_QUARTER_PI * s, s);
    assert((FX_QUARTER_PI * s) / s == FX_QUARTER_PI) by {
        vstd::arithmetic::div_mod::lemma_div_multiples_vanish(FX_QUARTER_PI as int, s);
    }
    assert(0 <= u * (s - u) <= s * s) by (nonlinear_arith)
        requires
            0 <= u <= s,
    ;
    vstd::arithmetic::div_mod::lemma_div_pos_is_pos(u * (s - u), s);
    vstd::arithmetic::div_mod::lemma_div_is_ordered(u * (s - u), s * s, s);
    assert((s * s) / s == s) by {
        vstd::arithmetic::div_mod::lemma_div_multiples_vanish(s, s);
    }
    let m = (u * (s - u)) / s;
    assert(0 <= ATAN_C2 * u <= ATAN_C2 * s) by (nonlinear_arith)
        requires
            0 <= u <= s,
    ;
    vstd::arithmetic::div_mod::lemma_div_pos_is_pos(ATAN_C2 * u, s);
    vstd::arithmetic::div_mod::lemma_div_is_ordered(ATAN_C2 * u, ATAN_C2 * s, s);
    assert((ATAN_C2 * s) / s == ATAN_C2) by {
        vstd::arithmetic::div_mod::lemma_div_multiples_vanish(ATAN_C2 as int, s);
    }
    let inner = ATAN_C1 + (ATAN_C2 * u) / s;
    assert(0 <= m * inner <= s * (ATAN_C1 + ATAN_C2)) by (nonlinear_arith)
        requires
            0 <= m <= s,
            ATAN_C1 <= inner <= ATAN_C1 + ATAN_C2,
    ;
    vstd::arithmetic::div_mod::lemma_div_pos_is_pos(m * inner, s);
    vstd::arithmetic::div_mod::lemma_div_is_ordered(m * inner, s * (ATAN_C1 + ATAN_C2), s);
    assert((s * (ATAN_C1 + ATAN_C2)) / s == ATAN_C1 + ATAN_C2) by {
        vstd::arithmetic::div_mod::lemma_div_multiples_vanish(ATAN_C1 + ATAN_C2 as int, s);
    }
}

/// Arctangent on the unit interval.
fn atan_fx(u: i64) -> (r: i64)
    requires
        0 <= u <= FX_SCALE,
    ensures
        r == atan_poly_spec(u as int),
        0 <= r < FX_HALF_PI,
{
    proof {
        lemma_atan_poly_bounded(u as int);
        assert(u as int * (FX_SCALE as int - u as int) <= 0x1_0000_0000) by (nonlinear_arith)
            requires
                0 <= u <= FX_SCALE,
        ;
    }
    let uu: u64 = u as u64;
    let t1: u64 = (FX_QUARTER_PI as u64 * uu) / (FX_SCALE as u64);
    let b: u64 = (ATAN_C2 as u64 * uu) / (FX_SCALE as u64);
    let inner: u64 = ATAN_C1 as u64 + b;
    let m: u64 = (uu * (FX_SCALE as u64 - uu)) / (FX_SCALE as u64);
    proof {
        assert(m as int * inner as int <= 65536 * 20382) by (nonlinear_arith)
            requires
                0 <= m <= 65536,
                0 <= inner <= 20382,
        ;
    }
    let t2: u64 = (m * inner) / (FX_SCALE as u64);
    (t1 + t2) as i64
}

/// The quadrant-aware arctangent of `y / x`, in `[-FX_PI, FX_PI]`, with
/// both arguments zero mapped to zero.
pub open spec fn atan2_spec(y: int, x: int) -> int {
    if x == 0 && y == 0 {
        0
    } else {
        let ax = abs(x) as int;
        let ay = abs(y) as int;
        let m = if ax >= ay {
            atan_poly_spec(tdiv(ay * FX_SCALE, ax))
        } else {
            FX_HALF_PI - atan_poly_spec(tdiv(ax * FX_SCALE, ay))
        };
        let m2 = if x >= 0 {
            m
        } else {
            FX_PI - m
        };
        if y >= 0 {
            m2
        } else {
            -m2
        }
    }
}

/// The scaled ratio of the smaller magnitude to the larger stays on the
/// unit interval.
proof fn lemma_ratio_unit(sm: int, lg: int)
    requires
        0 <= sm <= lg,
        0 < lg,
    ensures
        0 <= (sm * FX_SCALE) / lg <= FX_SCALE,
        tdiv(sm * FX_SCALE, lg) == (sm * FX_SCALE) / lg,
{
    assert(0 <= sm * FX_SCALE <= lg * FX_SCALE) by (nonlinear_arith)
        requires
            0 <= sm <= lg,
    ;
    vstd::arithmetic::div_mod::lemma_div_pos_is_pos(sm * FX_SCALE, lg);
    vstd::arithmetic::div_mod::lemma_div_is_ordered(sm * FX_SCALE, lg * FX_SCALE, lg);
    assert((lg * FX_SCALE) / lg == FX_SCALE) by {
        vstd::arithmetic::div_mod::lemma_div_multiples_vanish(FX_SCALE as int, lg);
    }
}

/// Quadrant-aware arctangent of `y / x` in fixed-point radians.
pub fn atan2_fx(y: Fix, x: Fix) -> (r: Fix)
    requires
        -FX_LIM <= y.raw <= FX_LIM,
        -FX_LIM <= x.raw <= FX_LIM,
    ensures
        r.raw == atan2_spec(y.raw as int, x.raw as int),
        -FX_PI <= r.raw <= FX_PI,
{
    if x.raw == 0 && y.raw == 0 {
        return Fix { raw: 0 };
    }
    let ax: i64 = if x.raw < 0 {
        -x.raw
    } else {
        x.raw
    };
    let ay: i64 = if y.raw < 0 {
        -y.raw
    } else {
        y.raw
    };
    let m: i64 = if ax >= ay {
        proof {
            lemma_ratio_unit(ay as int, ax as int);
        }
        let q: u128 = (ay as u128 * FX_SCALE as u128) / (ax as u128);
        atan_fx(q as i64)
    } else {
        proof {
            lemma_ratio_unit(ax as int, ay as int);
        }
        let q: u128 = (ax as u128 * FX_SCALE as u128) / (ay as u128);
        FX_HALF_PI - atan_fx(q as i64)
    };
    let m2: i64 = if x.raw >= 0 {
        m
    } else {
        FX_PI - m
    };
    if y.raw >= 0 {
        Fix { raw: m2 }
    } else {
        Fix { raw: -m2 }
    }
}

/// Clamped degree-6 Taylor polynomial for `exp(-f)` on the unit interval,
/// `0 <= f < FX_SCALE`.
pub open spec fn exp_unit_spec(f: int) -> int {
    let s = FX_SCALE as int;
    let p = s - f + (f * f) / (2 * s) - (f * f * f) / (6 * s * s) + (f * f * f * f) / (24 * s
        * s * s) - (f * f * f * f * f) / (120 * s * s * s * s) + (f * f * f * f * f * f) / (
    720 * s * s * s * s * s);
    max(0, min(s, p))
}

/// Repeated decay by `1 / e`: one truncated multiplication per whole unit
/// of the exponent.
pub open spec fn exp_scale_spec(e: int, q: nat) -> int
    decreases q,
{
    if q == 0 {
        e
    } else {
        exp_scale_spec((e * INV_E) / (FX_SCALE as int), (q - 1) as nat)
    }
}

/// `exp(-t)` for a non-negative fixed-point argument: zero past the
/// cutoff, otherwise the unit-interval polynomial decayed once per whole
/// unit.
pub open spec fn exp_neg_spec(t: int) -> int {
    if t >= EXP_NEG_CUTOFF {
        0
    } else {
        exp_scale_spec(exp_unit_spec(t % (FX_SCALE as int)), (t / (FX_SCALE as int)) as nat)
    }
}

/// Powers of a unit-interval argument stay below `2^102`.
proof fn lemma_exp_powers_bounded(f: int)
    by (nonlinear_arith)
    requires
        0 <= f < FX_SCALE,
    ensures
        0 <= f * f < 0x1_0000_0000,
        0 <= f * f * f < 0x1_0000_0000_0000,
        0 <= f * f * f * f < 0x1_0000_0000_0000_0000,
        0 <= f * f * f * f * f < 0x1_0000_0000_0000_0000_0000,
        0 <= f * f * f * f * f * f < 0x1_0000_0000_0000_0000_0000_0000,
{
}

/// One decay step keeps the value on `[0, FX_SCALE]`.
proof fn lemma_exp_decay_step(e: int)
    requires
        0 <= e <= FX_SCALE,
    ensures
        0 <= (e * INV_E) / (FX_SCALE as int) <= FX_SCALE,
{
    assert(0 <= e * INV_E <= FX_SCALE * INV_E) by (nonlinear_arith)
        requires
            0 <= e <= FX_SCALE,
    ;
    vstd::arithmetic::div_mod::lemma_div_pos_is_pos(e * INV_E, FX_SCALE as int);
    vstd::arithmetic::div_mod::lemma_div_is_ordered(
        e * INV_E,
        FX_SCALE as int * INV_E,
        FX_SCALE as int,
    );
}

/// `exp(-t)` in fixed point for `t >= 0`.
pub fn exp_neg_fx(t: Fix) -> (r: Fix)
    requires
        0 <= t.raw,
    ensures
        r.raw == exp_neg_spec(t.raw as int),
        0 <= r.raw <= FX_SCALE,
        t.raw == 0 ==> r.raw == FX_SCALE,
{
    if t.raw >= EXP_NEG_CUTOFF {
        return Fix { raw: 0 };
    }
    let q: u64 = (t.raw as u64) / (FX_SCALE as u64);
    let f: u64 = (t.raw as u64) % (FX_SCALE as u64);
    proof {
        lemma_exp_powers_bounded(f as int);
    }
    let ff: u128 = f as u128;
    let f2: u128 = ff * ff;
    let f3: u128 = f2 * ff;
    let f4: u128 = f3 * ff;
    let f5: u128 = f4 * ff;
    let f6: u128 = f5 * ff;
    let s: u128 = FX_SCALE as u128;
    let t2: u128 = f2 / (2 * s);
    let t3: u128 = f3 / (6 * s * s);
    let t4: u128 = f4 / (24 * s * s * s);
    let t5: u128 = f5 / (120 * s * s * s * s);
    let t6: u128 = f6 / (720 * s * s * s * s * s);
    let p: i128 = FX_SCALE as i128 - ff as i128 + t2 as i128 - t3 as i128 + t4 as i128
        - t5 as i128 + t6 as i128;
    let mut e: i64 = if p < 0 {
        0
    } else if p > FX_SCALE as i128 {
        FX_SCALE
    } else {
        p as i64
    };
    let ghost e0: int = e as int;
    proof {
        if t.raw == 0 {
            assert((0int * 0) == 0);
            assert(exp_unit_spec(0) == FX_SCALE as int);
        }
    }
    let mut i: u64 = 0;
    while i < q
        invariant
            0 <= i <= q,
            0 <= e <= FX_SCALE,
            exp_scale_spec(e as int, (q - i) as nat) == exp_scale_spec(e0, q as nat),
        decreases q - i,
    {
        proof {
            lemma_exp_decay_step(e as int);
        }
        let prod: u64 = (e as u64) * (INV_E as u64);
        e = (prod / (FX_SCALE as u64)) as i64;
        i = i + 1;
    }
    Fix { raw: e }
}

} // verus!
