//! Randomness for sampling and resampling.
//!
//! The process-wide generator and the weighted-index distribution come
//! from the `rand` crate through the trusted items below; everything
//! built on them, including the approximate standard-normal draw, is
//! verified.  No contract here claims anything about the distribution of
//! a draw, only what holds of every outcome.

use vstd::prelude::*;

use rand::Rng;
use rand::distributions::Distribution;
use rand::distributions::WeightedIndex;
use rand::rngs::ThreadRng;

verus! {

use crate::fixed::{Fix, FX_SCALE};

#[verifier::external_type_specification]
#[verifier::external_body]
pub struct ExThreadRng(ThreadRng);

/// A categorical distribution over particle indices, proportional to
/// `u64` weights: `rand`'s weighted-index distribution, held opaquely.
#[verifier::external_body]
pub struct WeightedIndexU64 {
    inner: WeightedIndex<u64>,
}

/// The weights a [`WeightedIndexU64`] was built over.
pub uninterp spec fn wi_weights(w: WeightedIndexU64) -> Seq<u64>;

/// Sum of a sequence of weights.
pub open spec fn weight_sum(s: Seq<u64>) -> int
    decreases s.len(),
{
    if s.len() == 0 {
        0
    } else {
        weight_sum(s.drop_last()) + s.last()
    }
}

/// Relies on `rand::thread_rng`: a handle to the thread-local generator.
#[verifier::external_body]
pub fn fresh_rng() -> ThreadRng {
    rand::thread_rng()
}

/// Relies on `Rng::gen_range` over `0..n`: the draw lands below `n`.
#[verifier::external_body]
pub fn gen_u64_below(rng: &mut ThreadRng, n: u64) -> (r: u64)
    requires
        n > 0,
    ensures
        r < n,
{
    rng.gen_range(0..n)
}

/// Relies on `Rng::gen_range` over `0..=hi`: the draw lands at or below
/// `hi`.
#[verifier::external_body]
pub fn gen_u128_inclusive(rng: &mut ThreadRng, hi: u128) -> (r: u128)
    ensures
        r <= hi,
{
    rng.gen_range(0..=hi)
}

/// Relies on `WeightedIndex::new`: with a non-empty list of `u64`
/// weights whose sum fits the weight type, it returns `Ok` exactly when
/// the sum is positive, and the distribution then carries those weights.
#[verifier::external_body]
pub fn weighted_index_new(weights: &Vec<u64>) -> (r: Option<WeightedIndexU64>)
    requires
        weights@.len() > 0,
        weight_sum(weights@) <= u64::MAX,
    ensures
        match r {
            Some(wi) => wi_weights(wi) == weights@ && weight_sum(weights@) > 0,
            None => weight_sum(weights@) == 0,
        },
{
    WeightedIndex::new(weights).ok().map(|inner| WeightedIndexU64 { inner })
}

/// Relies on `WeightedIndex::sample` for a distribution built by
/// `weighted_index_new`: the drawn index is in range and its weight is
/// positive, since sampling inverts the strictly ordered cumulative
/// table below the positive total.
#[verifier::external_body]
pub fn weighted_index_sample(wi: &WeightedIndexU64, rng: &mut ThreadRng) -> (r: usize)
    ensures
        r < wi_weights(*wi).len(),
        wi_weights(*wi)[r as int] > 0,
{
    wi.inner.sample(rng)
}

/// One draw from an approximate standard normal distribution, scaled:
/// the sum of twelve uniform unit draws, centered.  Whatever the draws,
/// the result stays within six units of zero.
pub fn std_normal_fx(rng: &mut ThreadRng) -> (r: Fix)
    ensures
        -6 * FX_SCALE <= r.raw <= 6 * FX_SCALE,
{
    let mut acc: i64 = 0;
    let mut i: u64 = 0;
    while i < 12
        invariant
            0 <= i <= 12,
            0 <= acc <= i * (FX_SCALE as int),
        decreases 12 - i,
    {
        let d = gen_u64_below(rng, (FX_SCALE as u64) + 1);
        acc = acc + (d as i64);
        i = i + 1;
    }
    Fix { raw: acc - 6 * FX_SCALE }
}

} // verus!
