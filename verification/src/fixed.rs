//! Fixed-point scalars.
//!
//! A [`Fix`] carries a real quantity as `raw / 65536`: a signed 64-bit
//! integer with 16 fractional bits.  Every operation below states its exact
//! integer result, so the rest of the crate can reason about poses, angles
//! and weights without any rounding left unspecified.

use vstd::prelude::*;

verus! {

use vstd::arithmetic::div_mod::{
    lemma_fundamental_div_mod,
    lemma_fundamental_div_mod_converse_mod,
    lemma_mod_division_less_than_divisor,
    lemma_mod_multiples_vanish,
    lemma_mod_twice,
};
use vstd::math::{min, max};

/// Scale factor of the fixed-point representation: one real unit.
pub const FX_SCALE: i64 = 65536;

/// `pi`, scaled by `FX_SCALE`.
pub const FX_PI: i64 = 205887;

/// `pi / 2`, scaled by `FX_SCALE`.
pub const FX_HALF_PI: i64 = 102944;

/// `pi / 4`, scaled by `FX_SCALE`.
pub const FX_QUARTER_PI: i64 = 51472;

/// Magnitude bound on the scalars this crate computes with.  It leaves
/// enough headroom that sums and differences of in-range values still fit
/// in an `i64`.
pub const FX_LIM: i64 = 0x2000_0000_0000_0000;

/// A fixed-point number: the real value `raw / 65536`.
#[derive(Clone, Copy, PartialEq, Eq, Structural, Debug)]
pub struct Fix {
    pub raw: i64,
}

/// Truncating division (round toward zero), the rounding used by the
/// fixed-point operations below.  Unspecified for `b == 0`.
pub open spec fn tdiv(a: int, b: int) -> int {
    let q = vstd::math::abs(a) as int / vstd::math::abs(b) as int;
    if (a < 0) == (b < 0) {
        q
    } else {
        -q
    }
}

/// Exact result of a fixed-point multiplication.
pub open spec fn fx_mul_spec(a: int, b: int) -> int {
    tdiv(a * b, FX_SCALE as int)
}

/// Exact result of a fixed-point division.
pub open spec fn fx_div_spec(a: int, b: int) -> int {
    tdiv(a * FX_SCALE, b)
}

/// The product of two `i64` values fits in an `i128`.
proof fn lemma_i64_product_fits(a: int, b: int)
    by (nonlinear_arith)
    requires
        -0x8000_0000_0000_0000 <= a <= 0x7fff_ffff_ffff_ffff,
        -0x8000_0000_0000_0000 <= b <= 0x7fff_ffff_ffff_ffff,
    ensures
        -0x4000_0000_0000_0000_0000_0000_0000_0000 <= a * b
            <= 0x4000_0000_0000_0000_0000_0000_0000_0000,
{
}

impl Fix {
    /// Wraps a raw integer as a fixed-point value.
    pub fn from_raw(raw: i64) -> (r: Fix)
        ensures
            r.raw == raw,
    {
        Fix { raw }
    }

    /// The fixed-point value for a whole number of units.
    pub fn from_int(units: i64) -> (r: Fix)
        requires
            -0x7fff_ffff_ffff <= units <= 0x7fff_ffff_ffff,
        ensures
            r.raw == units * FX_SCALE,
    {
        Fix { raw: units * FX_SCALE }
    }

    /// Zero.
    pub fn zero() -> (r: Fix)
        ensures
            r.raw == 0,
    {
        Fix { raw: 0 }
    }

    /// One real unit.
    pub fn one() -> (r: Fix)
        ensures
            r.raw == FX_SCALE,
    {
        Fix { raw: FX_SCALE }
    }
}

/// Exact fixed-point sum.
pub fn fx_add(a: Fix, b: Fix) -> (r: Fix)
    requires
        -FX_LIM <= a.raw + b.raw <= FX_LIM,
    ensures
        r.raw == a.raw + b.raw,
{
    Fix { raw: a.raw + b.raw }
}

/// Exact fixed-point difference.
pub fn fx_sub(a: Fix, b: Fix) -> (r: Fix)
    requires
        -FX_LIM <= a.raw - b.raw <= FX_LIM,
    ensures
        r.raw == a.raw - b.raw,
{
    Fix { raw: a.raw - b.raw }
}

/// Exact negation.
pub fn fx_neg(a: Fix) -> (r: Fix)
    requires
        -FX_LIM <= a.raw <= FX_LIM,
    ensures
        r.raw == -a.raw,
{
    Fix { raw: -a.raw }
}

/// Absolute value.
pub fn fx_abs(a: Fix) -> (r: Fix)
    requires
        -FX_LIM <= a.raw <= FX_LIM,
    ensures
        r.raw == vstd::math::abs(a.raw as int),
{
    if a.raw < 0 {
        Fix { raw: -a.raw }
    } else {
        a
    }
}

/// Truncating division of an `i128` by a positive divisor, the shared core
/// of the fixed-point product and quotient.
pub(crate) fn tdiv_i128(p: i128, d: u64) -> (r: i64)
    requires
        d > 0,
        -0x4000_0000_0000_0000_0000_0000_0000_0000 <= p
            <= 0x4000_0000_0000_0000_0000_0000_0000_0000,
        -FX_LIM <= tdiv(p as int, d as int) <= FX_LIM,
    ensures
        r == tdiv(p as int, d as int),
{
    if p >= 0 {
        let q: u128 = (p as u128) / (d as u128);
        q as i64
    } else {
        let n: i128 = -p;
        let q: u128 = (n as u128) / (d as u128);
        -(q as i64)
    }
}

/// Fixed-point product, exact up to the stated truncation.
pub fn fx_mul(a: Fix, b: Fix) -> (r: Fix)
    requires
        -FX_LIM <= fx_mul_spec(a.raw as int, b.raw as int) <= FX_LIM,
    ensures
        r.raw == fx_mul_spec(a.raw as int, b.raw as int),
{
    proof {
        lemma_i64_product_fits(a.raw as int, b.raw as int);
    }
    let p: i128 = (a.raw as i128) * (b.raw as i128);
    Fix { raw: tdiv_i128(p, FX_SCALE as u64) }
}

/// Fixed-point quotient, exact up to the stated truncation.
pub fn fx_div(a: Fix, b: Fix) -> (r: Fix)
    requires
        b.raw != 0,
        -FX_LIM <= fx_div_spec(a.raw as int, b.raw as int) <= FX_LIM,
    ensures
        r.raw == fx_div_spec(a.raw as int, b.raw as int),
{
    let p: i128 = (a.raw as i128) * (FX_SCALE as i128);
    if b.raw >= 0 {
        Fix { raw: tdiv_i128(p, b.raw as u64) }
    } else {
        proof {
            assert(tdiv(p as int, b.raw as int) == -tdiv(p as int, -(b.raw as int)));
        }
        let r = tdiv_i128(p, (-(b.raw as i128)) as u64);
        Fix { raw: -r }
    }
}

/// Where `wrap` folds a value, as an integer function: the bounds sorted,
/// then the value brought into the half-open cycle `[lo, hi)` by shifting
/// it a whole number of cycles.
pub open spec fn wrap_spec(val: int, from: int, to: int) -> int {
    let lo = min(from, to);
    let hi = max(from, to);
    if lo == hi {
        hi
    } else {
        lo + (val - lo) % (hi - lo)
    }
}

/// Folds `val` into the half-open interval between `from` and `to`,
/// swapping the bounds first if they arrive reversed.  A zero-width
/// interval folds everything onto the single bound.
pub fn wrap(val: Fix, from: Fix, to: Fix) -> (r: Fix)
    requires
        -FX_LIM <= val.raw <= FX_LIM,
        -FX_LIM <= from.raw <= FX_LIM,
        -FX_LIM <= to.raw <= FX_LIM,
    ensures
        r.raw == wrap_spec(val.raw as int, from.raw as int, to.raw as int),
        from.raw != to.raw ==> min(from.raw as int, to.raw as int) <= r.raw < max(
            from.raw as int,
            to.raw as int,
        ),
{
    let (lo, hi) = if from.raw > to.raw {
        (to.raw, from.raw)
    } else {
        (from.raw, to.raw)
    };
    let cycle = hi - lo;
    if cycle == 0 {
        return Fix { raw: hi };
    }
    let d = val.raw - lo;
    if d >= 0 {
        let m = ((d as u64) % (cycle as u64)) as i64;
        Fix { raw: lo + m }
    } else {
        let n = -d;
        let m = ((n as u64) % (cycle as u64)) as i64;
        proof {
            lemma_fundamental_div_mod(n as int, cycle as int);
            let q = n as int / cycle as int;
            let c = cycle as int;
            if m == 0 {
                assert(d as int == (-q) * c + 0) by (nonlinear_arith)
                    requires
                        n as int == c * q + 0,
                        d == -(n as int),
                ;
                lemma_fundamental_div_mod_converse_mod(d as int, c, -q, 0);
            } else {
                assert(d as int == (-q - 1) * c + (c - m)) by (nonlinear_arith)
                    requires
                        n as int == c * q + m,
                        d == -(n as int),
                ;
                lemma_fundamental_div_mod_converse_mod(d as int, c, -q - 1, c - m);
            }
        }
        if m == 0 {
            Fix { raw: lo }
        } else {
            Fix { raw: lo + cycle - m }
        }
    }
}

/// For distinct bounds, the folded value lands in the half-open interval
/// between them.
pub proof fn lemma_wrap_in_range(val: int, from: int, to: int)
    requires
        from != to,
    ensures
        min(from, to) <= wrap_spec(val, from, to) < max(from, to),
{
    let lo = min(from, to);
    let hi = max(from, to);
    lemma_mod_division_less_than_divisor(val - lo, hi - lo);
}

/// Folding is idempotent: a value already inside the interval is kept.
pub proof fn lemma_wrap_idempotent(val: int, from: int, to: int)
    ensures
        wrap_spec(wrap_spec(val, from, to), from, to) == wrap_spec(val, from, to),
{
    let lo = min(from, to);
    let hi = max(from, to);
    if lo != hi {
        lemma_mod_twice(val - lo, hi - lo);
    }
}

/// Folding is periodic: shifting the value by any whole number of cycles
/// does not change where it lands.
pub proof fn lemma_wrap_periodic(val: int, k: int, from: int, to: int)
    ensures
        wrap_spec(val + k * (max(from, to) - min(from, to)), from, to) == wrap_spec(
            val,
            from,
            to,
        ),
{
    let lo = min(from, to);
    let hi = max(from, to);
    if lo != hi {
        lemma_mod_multiples_vanish(k, val - lo, hi - lo);
        assert(val + k * (hi - lo) - lo == k * (hi - lo) + (val - lo));
    } else {
        assert(k * 0 == 0);
    }
}

/// Folding only moves a value by whole cycles: the fold and its argument
/// are congruent modulo the cycle width.
pub proof fn lemma_wrap_congruent(val: int, from: int, to: int)
    requires
        from != to,
    ensures
        (wrap_spec(val, from, to) - val) % (max(from, to) - min(from, to)) == 0,
{
    let lo = min(from, to);
    let hi = max(from, to);
    let c = hi - lo;
    lemma_fundamental_div_mod(val - lo, c);
    let q = (val - lo) / c;
    assert(wrap_spec(val, from, to) - val == (-q) * c + 0) by (nonlinear_arith)
        requires
            val - lo == q * c + (val - lo) % c,
            wrap_spec(val, from, to) == lo + (val - lo) % c,
    ;
    lemma_mod_multiples_vanish(-q, 0, c);
    vstd::arithmetic::div_mod::lemma_small_mod(0, c as nat);
}

/// Magnitude of a truncating quotient: the magnitudes divide, so the
/// quotient never exceeds the dividend's magnitude.
pub proof fn lemma_tdiv_mag(a: int, b: int)
    requires
        b >= 1,
    ensures
        vstd::math::abs(tdiv(a, b)) == vstd::math::abs(a) as int / b,
        vstd::math::abs(tdiv(a, b)) <= vstd::math::abs(a),
{
    let m = vstd::math::abs(a) as int;
    vstd::arithmetic::div_mod::lemma_div_pos_is_pos(m, b);
    vstd::arithmetic::div_mod::lemma_div_nonincreasing(m, b);
}

/// Multiplying a truncating quotient back misses the dividend by less
/// than the divisor, never crossing zero: the product stays on the
/// dividend's side.
pub proof fn lemma_tdiv_mul_err(a: int, b: int)
    requires
        b >= 1,
    ensures
        vstd::math::abs(b * tdiv(a, b) - a) < b,
        a >= 0 ==> b * tdiv(a, b) <= a,
        a <= 0 ==> b * tdiv(a, b) >= a,
{
    let m = vstd::math::abs(a) as int;
    lemma_fundamental_div_mod(m, b);
    lemma_mod_division_less_than_divisor(m, b);
    if a >= 0 {
        assert(b * tdiv(a, b) == b * (m / b)) by (nonlinear_arith)
            requires
                tdiv(a, b) == m / b,
        ;
        assert(b * (m / b) == m - m % b);
    } else {
        assert(b * tdiv(a, b) == -(b * (m / b))) by (nonlinear_arith)
            requires
                tdiv(a, b) == -(m / b),
        ;
        assert(b * (m / b) == m - m % b);
    }
}

/// Floor of the integer square root, as a recursive specification.
pub open spec fn sqrt_floor(n: nat) -> nat
    decreases n,
{
    if n == 0 {
        0
    } else {
        let s = sqrt_floor((n - 1) as nat);
        if (s + 1) * (s + 1) <= n {
            s + 1
        } else {
            s
        }
    }
}

/// `sqrt_floor` is the floor of the square root: its square does not
/// exceed the argument, and the next square does.
pub proof fn lemma_sqrt_floor_bounds(n: nat)
    ensures
        sqrt_floor(n) * sqrt_floor(n) <= n,
        n < (sqrt_floor(n) + 1) * (sqrt_floor(n) + 1),
    decreases n,
{
    if n > 0 {
        lemma_sqrt_floor_bounds((n - 1) as nat);
        let s = sqrt_floor((n - 1) as nat);
        assert(sqrt_floor(n) == if (s + 1) * (s + 1) <= n {
            s + 1
        } else {
            s
        });
        if (s + 1) * (s + 1) <= n {
            assert(n <= (s + 1) * (s + 1)) by (nonlinear_arith)
                requires
                    n - 1 < (s + 1) * (s + 1),
            ;
            assert((s + 1) * (s + 1) < (s + 2) * (s + 2)) by (nonlinear_arith);
            assert(sqrt_floor(n) == s + 1);
            assert(n < (sqrt_floor(n) + 1) * (sqrt_floor(n) + 1));
        } else {
            assert(sqrt_floor(n) == s);
            assert(sqrt_floor(n) * sqrt_floor(n) <= n);
            assert(n < (s + 1) * (s + 1));
            assert((sqrt_floor(n) + 1) * (sqrt_floor(n) + 1) == (s + 1) * (s + 1));
        }
    } else {
        assert(sqrt_floor(n) == 0);
        assert(sqrt_floor(n) * sqrt_floor(n) <= n && n < (sqrt_floor(n) + 1) * (sqrt_floor(n)
            + 1)) by (nonlinear_arith)
            requires
                n == 0,
                sqrt_floor(n) == 0,
        ;
    }
}

/// Any value whose square brackets `n` the same way is `sqrt_floor(n)`.
pub proof fn lemma_sqrt_floor_unique(n: nat, r: nat)
    requires
        r * r <= n,
        n < (r + 1) * (r + 1),
    ensures
        r == sqrt_floor(n),
{
    lemma_sqrt_floor_bounds(n);
    let s = sqrt_floor(n);
    assert(r == s) by (nonlinear_arith)
        requires
            r * r <= n,
            n < (r + 1) * (r + 1),
            s * s <= n,
            n < (s + 1) * (s + 1),
            r >= 0,
            s >= 0,
    ;
}


/// Range of a product from ranges of its factors.
pub proof fn lemma_mul_bound(a: int, b: int, ba: int, bb: int)
    by (nonlinear_arith)
    requires
        -ba <= a <= ba,
        -bb <= b <= bb,
        0 <= ba,
        0 <= bb,
    ensures
        -(ba * bb) <= a * b <= ba * bb,
{
}

/// The square of a value below `2^64` fits in a `u128`.
proof fn lemma_u64_square_fits(a: int)
    by (nonlinear_arith)
    requires
        0 <= a <= 0xffff_ffff_ffff_ffff,
    ensures
        0 <= a * a < 0x1_0000_0000_0000_0000_0000_0000_0000_0000,
{
}

/// Floor of the square root of a 128-bit integer.
pub fn isqrt_u128(n: u128) -> (r: u64)
    ensures
        (r as int) * (r as int) <= n as int,
        (n as int) < (r as int + 1) * (r as int + 1),
        r == sqrt_floor(n as nat),
{
    let mut lo: u128 = 0;
    let mut hi: u128 = 0x1_0000_0000_0000_0000;
    while hi - lo > 1
        invariant
            lo < hi,
            hi <= 0x1_0000_0000_0000_0000,
            (lo as int) * (lo as int) <= n as int,
            (n as int) < (hi as int) * (hi as int),
        decreases hi - lo,
    {
        let mid = lo + (hi - lo) / 2;
        proof {
            lemma_u64_square_fits(mid as int);
        }
        if mid * mid <= n {
            lo = mid;
        } else {
            hi = mid;
        }
    }
    proof {
        lemma_sqrt_floor_unique(n as nat, lo as nat);
    }
    lo as u64
}

/// Floor square root of a non-negative fixed-point value, in fixed point:
/// the result squared never exceeds the argument rescaled, and increasing
/// the result by one raw unit would overshoot it.
pub fn fx_sqrt(a: Fix) -> (r: Fix)
    requires
        0 <= a.raw,
    ensures
        0 <= r.raw,
        (r.raw as int) * (r.raw as int) <= (a.raw as int) * FX_SCALE,
        (a.raw as int) * FX_SCALE < (r.raw as int + 1) * (r.raw as int + 1),
        r.raw == sqrt_floor((a.raw * FX_SCALE) as nat) as int,
{
    let n: u128 = (a.raw as u128) * (FX_SCALE as u128);
    let s = isqrt_u128(n);
    proof {
        assert((s as int) <= 0xffff_ffff_ffff) by (nonlinear_arith)
            requires
                (s as int) * (s as int) <= (n as int),
                (n as int) < 0x8000_0000_0000_0000_0000,
        ;
    }
    Fix { raw: s as i64 }
}

} // verus!
