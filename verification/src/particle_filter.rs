//! A generic sequential-importance-resampling particle filter.
//!
//! The filter owns an ordered ensemble of particle states and a parallel
//! list of non-negative integer weights.  A prediction step drives every
//! particle through its own state transition; a correction step reweights
//! the ensemble against a measurement and resamples it, by one of two
//! caller-selectable policies.  Degenerate weights are surfaced as a
//! typed, recoverable error and never as a panic or a malformed ensemble.

use vstd::prelude::*;

use rand::rngs::ThreadRng;

verus! {

use vstd::pervasive::cloned;
use vstd::pervasive::VecAdditionalExecFns;
use crate::rng::{wi_weights, weight_sum, fresh_rng, gen_u128_inclusive, weighted_index_new,
    weighted_index_sample};

/// One hypothesis of the hidden state.  An implementation advances its
/// state through an application-defined update and scores itself against
/// an application-defined measurement; the score is a non-negative
/// fixed-point density.
pub trait Particle: Sized + Clone {
    /// What a prediction step carries, typically a sampled or mean motion.
    type Update;

    /// What a correction step carries, typically a position fix.
    type Measurement;

    /// How an advanced state may relate to the state it came from: the
    /// implementation's own statement of its state transition, which
    /// `update_state` promises and the filter relays per particle.
    spec fn update_rel(&self, update: &Self::Update, next: Self) -> bool;

    /// What a computed weight says of this state and the measurement:
    /// the implementation's own statement of its scoring rule, which
    /// `calc_weight` promises and the filter relays per particle.
    spec fn weight_rel(&self, meas: &Self::Measurement, w: u64) -> bool;

    /// The state advanced by one update, sampling from the state
    /// transition distribution the update describes.
    fn update_state(&self, update: &Self::Update) -> (r: Self)
        ensures
            self.update_rel(update, r),
    ;

    /// The probability density of the measurement conditioned on this
    /// state, as a fixed-point weight.
    fn calc_weight(&self, meas: &Self::Measurement) -> (w: u64)
        ensures
            self.weight_rel(meas, w),
    ;
}

/// How the correction step resamples the ensemble.
#[derive(Clone, Copy, PartialEq, Eq, Structural, Debug)]
pub enum ResamplePolicy {
    /// Independent draws from the categorical distribution over indices.
    WeightedIndex,
    /// Systematic resampling: one uniform offset, then evenly spaced
    /// points through the cumulative weights.
    LowVariance,
}

/// The filter's typed failures.
#[derive(Clone, Copy, PartialEq, Eq, Structural, Debug)]
pub enum FilterError {
    /// An ensemble of zero particles was requested.
    ZeroTargetSize,
    /// Every weight is zero: the ensemble has collapsed and the caller
    /// must re-seed it.
    DegenerateWeights,
    /// The weights sum past what the weighted-index distribution can
    /// carry.
    WeightOverflow,
}

/// A weighted ensemble of particles with a resampling policy.
pub struct ParticleFilter<P: Particle> {
    num_particles: usize,
    weights: Vec<u64>,
    particles: Vec<P>,
    resample_policy: ResamplePolicy,
    rng: ThreadRng,
}

/// The particle `q` is a clone of some ensemble member; when `positive`
/// is set, of one that carries positive weight.
pub open spec fn drawn_from<P: Particle>(
    parts: Seq<P>,
    ws: Seq<u64>,
    q: P,
    positive: bool,
) -> bool {
    exists|i: int|
        0 <= i < parts.len() && i < ws.len() && (positive ==> ws[i] > 0) && cloned::<P>(
            #[trigger] parts[i],
            q,
        )
}

/// The particle `q` is a clone of the member at the first index whose
/// cumulative weight reaches `target`.
pub open spec fn picked_at<P: Particle>(parts: Seq<P>, ws: Seq<u64>, target: int, q: P) -> bool {
    exists|i: int|
        0 <= i < parts.len() && i < ws.len() && #[trigger] weight_sum(ws.subrange(0, i + 1))
            >= target && (i == 0 || weight_sum(ws.subrange(0, i)) < target) && cloned::<P>(
            parts[i],
            q,
        )
}

/// The output follows the systematic walk for the offset `r0`: output
/// `j` is drawn at the first index whose cumulative weight reaches
/// `r0 + j * step`, with `step` one `m`-th of the total weight.
pub open spec fn systematic_with_offset<P: Particle>(
    parts: Seq<P>,
    ws: Seq<u64>,
    m: int,
    r0: int,
    out: Seq<P>,
) -> bool {
    forall|j: int|
        0 <= j < out.len() ==> picked_at(
            parts,
            ws,
            r0 + j * (weight_sum(ws) / m),
            #[trigger] out[j],
        )
}

/// Systematic (low-variance) resampling: for a single offset of at most
/// one `m`-th of the total weight, every output follows the cumulative
/// walk at evenly spaced points.
pub open spec fn systematic_resample<P: Particle>(
    parts: Seq<P>,
    ws: Seq<u64>,
    m: int,
    out: Seq<P>,
) -> bool {
    exists|r0: int|
        0 <= r0 <= weight_sum(ws) / m && #[trigger] systematic_with_offset(
            parts,
            ws,
            m,
            r0,
            out,
        )
}

/// Sum of a weight prefix grows by the next element.
proof fn lemma_weight_sum_step(s: Seq<u64>, k: int)
    requires
        0 <= k < s.len(),
    ensures
        weight_sum(s.subrange(0, k + 1)) == weight_sum(s.subrange(0, k)) + s[k],
{
    let t = s.subrange(0, k + 1);
    assert(t.drop_last() =~= s.subrange(0, k));
    assert(t.last() == s[k]);
}

/// A weight sum is bounded by the length times the largest weight value.
proof fn lemma_weight_sum_upper(s: Seq<u64>)
    ensures
        0 <= weight_sum(s) <= s.len() * 0xffff_ffff_ffff_ffff,
    decreases s.len(),
{
    if s.len() > 0 {
        lemma_weight_sum_upper(s.drop_last());
        assert((s.len() - 1) * 0xffff_ffff_ffff_ffff + 0xffff_ffff_ffff_ffff == s.len()
            * 0xffff_ffff_ffff_ffff) by (nonlinear_arith);
    }
}

/// The whole sequence is its own full prefix.
proof fn lemma_weight_sum_full(s: Seq<u64>)
    ensures
        weight_sum(s.subrange(0, s.len() as int)) == weight_sum(s),
{
    assert(s.subrange(0, s.len() as int) =~= s);
}

/// Prefix sums never exceed the total.
proof fn lemma_weight_sum_prefix_le(s: Seq<u64>, k: int)
    requires
        0 <= k <= s.len(),
    ensures
        weight_sum(s.subrange(0, k)) <= weight_sum(s),
    decreases s.len() - k,
{
    if k < s.len() {
        lemma_weight_sum_step(s, k);
        lemma_weight_sum_prefix_le(s, k + 1);
    } else {
        lemma_weight_sum_full(s);
    }
}

/// A weight total vanishes exactly when every weight does: the link
/// between per-particle zero scores and the degenerate-ensemble error.
pub proof fn lemma_weight_sum_zero_iff(s: Seq<u64>)
    ensures
        weight_sum(s) == 0 <==> (forall|i: int| 0 <= i < s.len() ==> s[i] == 0),
    decreases s.len(),
{
    lemma_weight_sum_upper(s);
    if s.len() > 0 {
        lemma_weight_sum_zero_iff(s.drop_last());
        lemma_weight_sum_upper(s.drop_last());
        if weight_sum(s) == 0 {
            assert forall|i: int| 0 <= i < s.len() implies s[i] == 0 by {
                if i < s.len() - 1 {
                    assert(s.drop_last()[i] == s[i]);
                }
            }
        }
        if forall|i: int| 0 <= i < s.len() ==> s[i] == 0 {
            assert forall|i: int| 0 <= i < s.drop_last().len() implies s.drop_last()[i]
                == 0 by {
                assert(s.drop_last()[i] == s[i]);
            }
            assert(s.last() == 0);
        }
    }
}

/// The exact total of a weight vector.
fn sum_weights(w: &Vec<u64>) -> (t: u128)
    ensures
        t == weight_sum(w@),
{
    let mut acc: u128 = 0;
    let mut i: usize = 0;
    proof {
        assert(w@.subrange(0, 0) =~= Seq::<u64>::empty());
    }
    while i < w.len()
        invariant
            0 <= i <= w@.len(),
            acc == weight_sum(w@.subrange(0, i as int)),
        decreases w@.len() - i,
    {
        proof {
            lemma_weight_sum_step(w@, i as int);
            lemma_weight_sum_upper(w@.subrange(0, i as int));
            assert(weight_sum(w@.subrange(0, i as int)) + 0xffff_ffff_ffff_ffff
                < 0x1_0000_0000_0000_0000_0000_0000_0000_0000int) by (nonlinear_arith)
                requires
                    0 <= weight_sum(w@.subrange(0, i as int)) <= (i as int)
                        * 0xffff_ffff_ffff_ffff,
                    0 <= i as int <= 0xffff_ffff_ffff_ffff,
            ;
        }
        acc = acc + (w[i] as u128);
        i = i + 1;
    }
    proof {
        lemma_weight_sum_full(w@);
    }
    acc
}

impl<P: Particle> ParticleFilter<P> {
    /// The ensemble, as the contracts see it.
    pub closed spec fn particles_view(self) -> Seq<P> {
        self.particles@
    }

    /// The last-computed weights, as the contracts see them.
    pub closed spec fn weights_view(self) -> Seq<u64> {
        self.weights@
    }

    /// The desired ensemble size after resampling.
    pub closed spec fn target_size_spec(self) -> int {
        self.num_particles as int
    }

    /// The selected resampling policy.
    pub closed spec fn policy_spec(self) -> ResamplePolicy {
        self.resample_policy
    }

    /// A filter with the default weighted-index policy: the factory is
    /// run once per requested particle.  A zero-sized ensemble request is
    /// rejected.
    pub fn new<F: Fn() -> P>(num_particles: usize, f: F) -> (r: Result<
        ParticleFilter<P>,
        FilterError,
    >)
        requires
            call_requires(f, ()),
        ensures
            match r {
                Ok(pf) => {
                    &&& num_particles > 0
                    &&& pf.target_size_spec() == num_particles
                    &&& pf.particles_view().len() == num_particles
                    &&& pf.weights_view().len() == 0
                    &&& pf.policy_spec() == ResamplePolicy::WeightedIndex
                    &&& forall|i: int|
                        0 <= i < num_particles ==> call_ensures(f, (), #[trigger] pf.particles_view()[i])
                },
                Err(e) => e == FilterError::ZeroTargetSize && num_particles == 0,
            },
    {
        Self::with_resample_policy(num_particles, ResamplePolicy::WeightedIndex, f)
    }

    /// A filter with an explicit resampling policy.
    pub fn with_resample_policy<F: Fn() -> P>(
        num_particles: usize,
        resample_policy: ResamplePolicy,
        f: F,
    ) -> (r: Result<ParticleFilter<P>, FilterError>)
        requires
            call_requires(f, ()),
        ensures
            match r {
                Ok(pf) => {
                    &&& num_particles > 0
                    &&& pf.target_size_spec() == num_particles
                    &&& pf.particles_view().len() == num_particles
                    &&& pf.weights_view().len() == 0
                    &&& pf.policy_spec() == resample_policy
                    &&& forall|i: int|
                        0 <= i < num_particles ==> call_ensures(f, (), #[trigger] pf.particles_view()[i])
                },
                Err(e) => e == FilterError::ZeroTargetSize && num_particles == 0,
            },
    {
        if num_particles == 0 {
            return Err(FilterError::ZeroTargetSize);
        }
        let mut particles: Vec<P> = Vec::new();
        let mut i: usize = 0;
        while i < num_particles
            invariant
                call_requires(f, ()),
                i == particles@.len(),
                i <= num_particles,
                forall|k: int|
                    0 <= k < i ==> call_ensures(f, (), #[trigger] particles@[k]),
            decreases num_particles - i,
        {
            particles.push(f());
            i = i + 1;
        }
        Ok(
            ParticleFilter {
                num_particles,
                weights: Vec::new(),
                particles,
                resample_policy,
                rng: fresh_rng(),
            },
        )
    }

    /// A filter over an explicitly built ensemble, with empty weights.
    pub fn from_particles(
        num_particles: usize,
        resample_policy: ResamplePolicy,
        particles: Vec<P>,
    ) -> (r: ParticleFilter<P>)
        requires
            num_particles > 0,
        ensures
            r.target_size_spec() == num_particles,
            r.particles_view() == particles@,
            r.weights_view().len() == 0,
            r.policy_spec() == resample_policy,
    {
        ParticleFilter {
            num_particles,
            weights: Vec::new(),
            particles,
            resample_policy,
            rng: fresh_rng(),
        }
    }

    /// Number of particles currently held.
    pub fn size(&self) -> (r: usize)
        ensures
            r == self.particles_view().len(),
    {
        self.particles.len()
    }

    /// The desired ensemble size after the next resampling.
    pub fn target_size(&self) -> (r: usize)
        ensures
            r == self.target_size_spec(),
    {
        self.num_particles
    }

    /// Changes the desired ensemble size; it takes effect on the next
    /// correction step, not retroactively.
    pub fn set_target_size(&mut self, num_particles: usize)
        ensures
            final(self).target_size_spec() == num_particles,
            final(self).particles_view() == old(self).particles_view(),
            final(self).weights_view() == old(self).weights_view(),
            final(self).policy_spec() == old(self).policy_spec(),
    {
        self.num_particles = num_particles;
    }

    /// Read-only view of the ensemble.
    pub fn particles(&self) -> (r: &Vec<P>)
        ensures
            r@ == self.particles_view(),
    {
        &self.particles
    }

    /// Read-only view of the last-computed weights; empty or stale until
    /// a correction step runs.
    pub fn weights(&self) -> (r: &Vec<u64>)
        ensures
            r@ == self.weights_view(),
    {
        &self.weights
    }

    /// The prediction step: every particle advances through its own
    /// state transition, in place and unconditionally.  Weights are not
    /// touched.
    pub fn state_update(&mut self, update: &P::Update)
        ensures
            final(self).particles_view().len() == old(self).particles_view().len(),
            forall|i: int|
                0 <= i < old(self).particles_view().len()
                    ==> old(self).particles_view()[i].update_rel(
                    update,
                    #[trigger] final(self).particles_view()[i],
                ),
            final(self).weights_view() == old(self).weights_view(),
            final(self).target_size_spec() == old(self).target_size_spec(),
            final(self).policy_spec() == old(self).policy_spec(),
    {
        let n = self.particles.len();
        let mut i: usize = 0;
        while i < n
            invariant
                n == self.particles@.len(),
                n == old(self).particles_view().len(),
                0 <= i <= n,
                forall|k: int|
                    i <= k < n ==> self.particles@[k] == old(self).particles_view()[k],
                forall|k: int|
                    0 <= k < i ==> old(self).particles_view()[k].update_rel(
                        update,
                        #[trigger] self.particles@[k],
                    ),
                self.weights@ == old(self).weights_view(),
                self.num_particles == old(self).num_particles,
                self.resample_policy == old(self).resample_policy,
            decreases n - i,
        {
            let next = self.particles[i].update_state(update);
            self.particles.set(i, next);
            i = i + 1;
        }
    }

    /// Recomputes every particle's weight against the measurement; the
    /// weight list is rebuilt to the ensemble's length.
    fn recalc_weights(&mut self, meas: &P::Measurement)
        ensures
            final(self).particles_view() == old(self).particles_view(),
            final(self).weights_view().len() == old(self).particles_view().len(),
            forall|i: int|
                0 <= i < old(self).particles_view().len()
                    ==> old(self).particles_view()[i].weight_rel(
                    meas,
                    #[trigger] final(self).weights_view()[i],
                ),
            final(self).target_size_spec() == old(self).target_size_spec(),
            final(self).policy_spec() == old(self).policy_spec(),
    {
        let n = self.particles.len();
        let mut weights: Vec<u64> = Vec::new();
        let mut i: usize = 0;
        while i < n
            invariant
                n == self.particles@.len(),
                self.particles@ == old(self).particles_view(),
                0 <= i <= n,
                i == weights@.len(),
                forall|k: int|
                    0 <= k < i ==> old(self).particles_view()[k].weight_rel(
                        meas,
                        #[trigger] weights@[k],
                    ),
            decreases n - i,
        {
            let w = self.particles[i].calc_weight(meas);
            weights.push(w);
            i = i + 1;
        }
        self.weights = weights;
    }

    /// The correction step: reweights the ensemble against the
    /// measurement, then replaces it by `target_size` clones drawn
    /// according to the resampling policy.  A zero-sized target, an
    /// all-zero weight total, or a total past the weighted-index range
    /// is reported as a typed error, with the ensemble left intact.
    pub fn measurement_update(&mut self, meas: &P::Measurement) -> (r: Result<(), FilterError>)
        ensures
            final(self).weights_view().len() == old(self).particles_view().len(),
            forall|i: int|
                0 <= i < old(self).particles_view().len()
                    ==> old(self).particles_view()[i].weight_rel(
                    meas,
                    #[trigger] final(self).weights_view()[i],
                ),
            final(self).target_size_spec() == old(self).target_size_spec(),
            final(self).policy_spec() == old(self).policy_spec(),
            (old(self).target_size_spec() > 0 && old(self).policy_spec()
                == ResamplePolicy::WeightedIndex && weight_sum(final(self).weights_view())
                > u64::MAX) ==> r == Result::<(), FilterError>::Err(FilterError::WeightOverflow),
            ({
                let total = weight_sum(final(self).weights_view());
                match r {
                    Ok(()) => {
                        &&& old(self).target_size_spec() > 0
                        &&& total > 0
                        &&& final(self).particles_view().len() == old(self).target_size_spec()
                        &&& forall|j: int|
                            0 <= j < final(self).particles_view().len() ==> drawn_from(
                                old(self).particles_view(),
                                final(self).weights_view(),
                                #[trigger] final(self).particles_view()[j],
                                old(self).policy_spec() == ResamplePolicy::WeightedIndex,
                            )
                        &&& old(self).policy_spec() == ResamplePolicy::LowVariance
                            ==> systematic_resample(
                            old(self).particles_view(),
                            final(self).weights_view(),
                            old(self).target_size_spec(),
                            final(self).particles_view(),
                        )
                    },
                    Err(e) => {
                        &&& final(self).particles_view() == old(self).particles_view()
                        &&& (e == FilterError::ZeroTargetSize <==> old(self).target_size_spec()
                            == 0)
                        &&& (e == FilterError::DegenerateWeights <==> old(
                            self,
                        ).target_size_spec() > 0 && total == 0)
                        &&& (e == FilterError::WeightOverflow <==> old(self).target_size_spec()
                            > 0 && total > u64::MAX && old(self).policy_spec()
                            == ResamplePolicy::WeightedIndex)
                        &&& (old(self).target_size_spec() > 0 && total > 0 && (old(
                            self,
                        ).policy_spec() == ResamplePolicy::WeightedIndex ==> total
                            <= u64::MAX)) ==> r is Ok
                    },
                }
            }),
    {
        self.recalc_weights(meas);
        if self.num_particles == 0 {
            return Err(FilterError::ZeroTargetSize);
        }
        let total = sum_weights(&self.weights);
        if total == 0 {
            return Err(FilterError::DegenerateWeights);
        }
        let m = self.num_particles;
        let resampled = match self.resample_policy {
            ResamplePolicy::WeightedIndex => {
                if total > u64::MAX as u128 {
                    return Err(FilterError::WeightOverflow);
                }
                self.weighted_index_sample(m)
            },
            ResamplePolicy::LowVariance => self.low_variance_sample(m),
        };
        self.particles = resampled;
        Ok(())
    }

    /// Resampling by independent draws from the categorical distribution
    /// over indices: every drawn particle carries positive weight.
    fn weighted_index_sample(&mut self, m: usize) -> (r: Vec<P>)
        requires
            old(self).weights_view().len() == old(self).particles_view().len(),
            old(self).weights_view().len() > 0,
            0 < weight_sum(old(self).weights_view()) <= u64::MAX,
        ensures
            final(self).particles_view() == old(self).particles_view(),
            final(self).weights_view() == old(self).weights_view(),
            final(self).target_size_spec() == old(self).target_size_spec(),
            final(self).policy_spec() == old(self).policy_spec(),
            r@.len() == m,
            forall|j: int|
                0 <= j < m ==> drawn_from(
                    old(self).particles_view(),
                    old(self).weights_view(),
                    #[trigger] r@[j],
                    true,
                ),
    {
        let sampler = match weighted_index_new(&self.weights) {
            Some(s) => s,
            None => {
                proof {
                    assert(false);
                }
                return Vec::new();
            },
        };
        let mut resampled: Vec<P> = Vec::new();
        let mut j: usize = 0;
        while j < m
            invariant
                self.particles@ == old(self).particles_view(),
                self.weights@ == old(self).weights_view(),
                self.num_particles == old(self).num_particles,
                self.resample_policy == old(self).resample_policy,
                wi_weights(sampler) == self.weights@,
                self.weights@.len() == self.particles@.len(),
                j == resampled@.len(),
                j <= m,
                forall|k: int|
                    0 <= k < j ==> drawn_from(
                        old(self).particles_view(),
                        old(self).weights_view(),
                        #[trigger] resampled@[k],
                        true,
                    ),
            decreases m - j,
        {
            let idx = weighted_index_sample(&sampler, &mut self.rng);
            let p = self.particles[idx].clone();
            proof {
                assert(cloned::<P>(old(self).particles_view()[idx as int], p));
                assert(drawn_from(
                    old(self).particles_view(),
                    old(self).weights_view(),
                    p,
                    true,
                ));
            }
            resampled.push(p);
            j = j + 1;
        }
        resampled
    }

    /// Systematic resampling: one uniform offset, then a cumulative-weight
    /// walk at evenly spaced points.  Every drawn particle comes from the
    /// original ensemble.
    fn low_variance_sample(&mut self, m: usize) -> (r: Vec<P>)
        requires
            m > 0,
            old(self).weights_view().len() == old(self).particles_view().len(),
            old(self).weights_view().len() > 0,
            weight_sum(old(self).weights_view()) > 0,
        ensures
            final(self).particles_view() == old(self).particles_view(),
            final(self).weights_view() == old(self).weights_view(),
            final(self).target_size_spec() == old(self).target_size_spec(),
            final(self).policy_spec() == old(self).policy_spec(),
            r@.len() == m,
            forall|j: int|
                0 <= j < m ==> drawn_from(
                    old(self).particles_view(),
                    old(self).weights_view(),
                    #[trigger] r@[j],
                    false,
                ),
            systematic_resample(
                old(self).particles_view(),
                old(self).weights_view(),
                m as int,
                r@,
            ),
    {
        let total = sum_weights(&self.weights);
        let frac_width = total / (m as u128);
        let r0 = gen_u128_inclusive(&mut self.rng, frac_width);
        let mut idx: usize = 0;
        let mut cum: u128 = self.weights[0] as u128;
        proof {
            assert(self.weights@.subrange(0, 0) =~= Seq::<u64>::empty());
            lemma_weight_sum_step(self.weights@, 0);
            lemma_weight_sum_prefix_le(self.weights@, 1);
        }
        let mut resampled: Vec<P> = Vec::new();
        let mut j: usize = 0;
        while j < m
            invariant
                self.particles@ == old(self).particles_view(),
                self.weights@ == old(self).weights_view(),
                self.num_particles == old(self).num_particles,
                self.resample_policy == old(self).resample_policy,
                self.weights@.len() == self.particles@.len(),
                self.weights@.len() > 0,
                total == weight_sum(self.weights@),
                m > 0,
                frac_width == weight_sum(self.weights@) as int / m as int,
                r0 <= frac_width,
                0 <= idx < self.weights@.len(),
                cum == weight_sum(self.weights@.subrange(0, idx + 1)),
                cum <= total,
                j == 0 ==> idx == 0,
                j > 0 ==> (idx == 0 || weight_sum(self.weights@.subrange(0, idx as int))
                    < r0 as int + (j - 1) * (frac_width as int)),
                j == resampled@.len(),
                j <= m,
                forall|k: int|
                    0 <= k < j ==> drawn_from(
                        old(self).particles_view(),
                        old(self).weights_view(),
                        #[trigger] resampled@[k],
                        false,
                    ),
                forall|k: int|
                    0 <= k < j ==> picked_at(
                        old(self).particles_view(),
                        old(self).weights_view(),
                        r0 as int + k * (weight_sum(old(self).weights_view()) / (m as int)),
                        #[trigger] resampled@[k],
                    ),
            decreases m - j,
        {
            proof {
                vstd::arithmetic::div_mod::lemma_fundamental_div_mod(total as int, m as int);
                assert((j as int) * (frac_width as int) <= (m - 1) * (frac_width as int))
                    by (nonlinear_arith)
                    requires
                        0 <= j < m,
                        frac_width >= 0,
                ;
                assert((m as int) * (frac_width as int) <= total as int) by (nonlinear_arith)
                    requires
                        frac_width == total as int / m as int,
                        m > 0,
                        total >= 0,
                        total as int == (m as int) * (total as int / m as int) + (
                        total as int % m as int),
                        total as int % m as int >= 0,
                ;
                assert((m - 1) * (frac_width as int) + frac_width == (m as int) * (
                frac_width as int)) by (nonlinear_arith);
                if j > 0 {
                    assert((j - 1) * (frac_width as int) <= (j as int) * (frac_width as int))
                        by (nonlinear_arith)
                        requires
                            j >= 1,
                            frac_width >= 0,
                    ;
                }
            }
            let target = r0 + (j as u128) * frac_width;
            while cum < target
                invariant
                    self.weights@ == old(self).weights_view(),
                    self.weights@.len() > 0,
                    total == weight_sum(self.weights@),
                    target <= total,
                    0 <= idx < self.weights@.len(),
                    cum == weight_sum(self.weights@.subrange(0, idx + 1)),
                    cum <= total,
                    idx == 0 || weight_sum(self.weights@.subrange(0, idx as int))
                        < target as int,
                decreases self.weights@.len() - idx,
            {
                let wlen = self.weights.len();
                proof {
                    lemma_weight_sum_full(self.weights@);
                    if idx + 1 == wlen {
                        assert(cum == total);
                        assert(false);
                    }
                    lemma_weight_sum_step(self.weights@, idx + 1);
                    lemma_weight_sum_prefix_le(self.weights@, idx + 2);
                }
                idx = idx + 1;
                cum = cum + (self.weights[idx] as u128);
            }
            let p = self.particles[idx].clone();
            proof {
                assert(cloned::<P>(old(self).particles_view()[idx as int], p));
                assert(drawn_from(
                    old(self).particles_view(),
                    old(self).weights_view(),
                    p,
                    false,
                ));
                assert(target as int == r0 as int + (j as int) * (weight_sum(
                    old(self).weights_view(),
                ) / (m as int)));
                assert(picked_at(
                    old(self).particles_view(),
                    old(self).weights_view(),
                    r0 as int + (j as int) * (weight_sum(old(self).weights_view()) / (
                    m as int)),
                    p,
                ));
            }
            resampled.push(p);
            j = j + 1;
        }
        proof {
            assert(systematic_with_offset(
                old(self).particles_view(),
                old(self).weights_view(),
                m as int,
                r0 as int,
                resampled@,
            ));
            assert(systematic_resample(
                old(self).particles_view(),
                old(self).weights_view(),
                m as int,
                resampled@,
            ));
        }
        resampled
    }
}

/// With exactly one positive weight in the ensemble, every particle a
/// weight-respecting resampling produces is a clone of that one particle.
pub proof fn lemma_single_support_resample<P: Particle>(
    parts: Seq<P>,
    ws: Seq<u64>,
    out: Seq<P>,
    i0: int,
)
    requires
        ws.len() == parts.len(),
        0 <= i0 < ws.len(),
        ws[i0] > 0,
        forall|i: int| 0 <= i < ws.len() && i != i0 ==> ws[i] == 0,
        forall|j: int| 0 <= j < out.len() ==> drawn_from(parts, ws, #[trigger] out[j], true),
    ensures
        forall|j: int| 0 <= j < out.len() ==> cloned::<P>(parts[i0], #[trigger] out[j]),
{
    assert forall|j: int| 0 <= j < out.len() implies cloned::<P>(parts[i0], #[trigger] out[j]) by {
        assert(drawn_from(parts, ws, out[j], true));
        let i = choose|i: int|
            0 <= i < parts.len() && i < ws.len() && (true ==> ws[i] > 0) && cloned::<P>(
                #[trigger] parts[i],
                out[j],
            );
        assert(i == i0);
    }
}

} // verus!
