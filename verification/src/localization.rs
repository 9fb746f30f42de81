//! Localization with odometry and absolute-position fixes: a pose-valued
//! particle, and a filter around the generic engine that seeds, predicts,
//! corrects and reports a pose ensemble.

use vstd::prelude::*;

use rand::rngs::ThreadRng;

verus! {

use vstd::math::min;
use crate::fixed::{Fix, FX_SCALE};
use crate::math::{Vec2, Matrix2, MatrixError, vec2_ok, mat_ok, sym_spec, FX_MAT_LIM,
    cholesky_ok, chol_la, chol_lb, chol_lc, dot_entry};
use crate::motion_model::{Pose2D, pose_ok};
use crate::odometry::{OdoMotionModel2D, model_ok, apply_x_spec, apply_y_spec, apply_rot_spec,
    MOTION_STD_LIM};
use crate::particle_filter::{Particle, ParticleFilter, ResamplePolicy, FilterError};
use crate::prob::{Gaussian, Gaussian2D, sampled_from, eps_reg_spec, det_sym_spec,
    det_sym_positive, gauss2_pdf_spec, GAUSS_STD_LIM, GAUSS_MEAN_LIM};
use crate::rng::weight_sum;
use crate::simulation::GPSMeasurement;

/// One pose hypothesis.
#[derive(Clone, Copy, PartialEq, Eq, Structural, Debug)]
pub struct DemoParticle {
    pub pose: Pose2D,
}

impl DemoParticle {
    /// A hypothesis at the given pose.
    pub fn new(pose: Pose2D) -> (r: DemoParticle)
        ensures
            r.pose == pose,
    {
        DemoParticle { pose }
    }
}

impl Particle for DemoParticle {
    type Update = OdoMotionModel2D;

    type Measurement = GPSMeasurement;

    /// Inside the model's operating range, the next pose is the old one
    /// advanced by a permissible draw of the motion belief; outside it,
    /// the hypothesis is unchanged.
    open spec fn update_rel(&self, update: &OdoMotionModel2D, next: DemoParticle) -> bool {
        if model_ok(*update) && pose_ok(self.pose) {
            exists|r1: int, t: int, r2: int|
                #![trigger sampled_from(update.rot1, r1), sampled_from(update.trans, t), sampled_from(update.rot2, r2)]
                {
                    &&& sampled_from(update.rot1, r1)
                    &&& sampled_from(update.trans, t)
                    &&& sampled_from(update.rot2, r2)
                    &&& next.pose.loc.x.raw == apply_x_spec(self.pose, r1, t)
                    &&& next.pose.loc.y.raw == apply_y_spec(self.pose, r1, t)
                    &&& next.pose.rot.raw == apply_rot_spec(self.pose, r1, r2)
                }
        } else {
            next == *self
        }
    }

    /// Inside the density's operating range (in-range values, symmetric
    /// positive-definite covariance), the weight is exactly the
    /// bivariate density of the fix around the pose; outside it, zero.
    open spec fn weight_rel(&self, meas: &GPSMeasurement, w: u64) -> bool {
        if pose_ok(self.pose) && vec2_ok(meas.loc) && mat_ok(meas.covar) && sym_spec(
            meas.covar,
        ) && meas.covar.a.x.raw > 0 && det_sym_spec(meas.covar) > 0 {
            w == gauss2_pdf_spec(self.pose.loc, meas.covar, meas.loc)
        } else {
            w == 0
        }
    }

    /// Advances the pose by one motion drawn from the belief.  An update
    /// or pose outside the model's operating range leaves the hypothesis
    /// unchanged rather than computing garbage.
    fn update_state(&self, update: &OdoMotionModel2D) -> Self {
        let in_range = gaussian_in_motion_range(&update.rot1)
            && gaussian_in_motion_range(&update.trans) && gaussian_in_motion_range(&update.rot2)
            && pose_in_range(&self.pose);
        if in_range {
            let mut rng = crate::rng::fresh_rng();
            DemoParticle { pose: update.sample_pose(&self.pose, &mut rng) }
        } else {
            *self
        }
    }

    /// The density of the position fix conditioned on this pose: a
    /// bivariate normal around the hypothesis with the measurement's
    /// covariance.  A measurement outside the density's operating range
    /// scores zero.
    fn calc_weight(&self, meas: &GPSMeasurement) -> u64 {
        let cv = &meas.covar;
        let usable = pose_in_range(&self.pose) && vec2_in_range(&meas.loc) && mat_in_range(cv)
            && cv.a.y.raw - cv.b.x.raw <= 1 && cv.a.y.raw - cv.b.x.raw >= -1 && cv.a.x.raw > 0
            && det_sym_positive(cv);
        if usable {
            let gps_model = Gaussian2D::new(self.pose.loc, meas.covar);
            let w = gps_model.probability_density(meas.loc);
            w.raw as u64
        } else {
            0
        }
    }
}

/// Whether a belief component is inside the motion model's operating
/// range.
fn gaussian_in_motion_range(g: &Gaussian) -> (r: bool)
    ensures
        r == (0 <= g.std_dev_spec() <= MOTION_STD_LIM && -0x4_0000_0000 <= g.mean_spec()
            <= 0x4_0000_0000),
{
    let sd = g.std_dev();
    let m = g.mean();
    0 <= sd.raw && sd.raw <= MOTION_STD_LIM && -0x4_0000_0000 <= m.raw && m.raw
        <= 0x4_0000_0000
}

/// Whether a pose is inside the matrix operating range.
fn pose_in_range(p: &Pose2D) -> (r: bool)
    ensures
        r == pose_ok(*p),
{
    -FX_MAT_LIM <= p.loc.x.raw && p.loc.x.raw <= FX_MAT_LIM && -FX_MAT_LIM <= p.loc.y.raw
        && p.loc.y.raw <= FX_MAT_LIM && -FX_MAT_LIM <= p.rot.raw && p.rot.raw <= FX_MAT_LIM
}

/// Whether a vector is inside the matrix operating range.
fn vec2_in_range(v: &Vec2) -> (r: bool)
    ensures
        r == vec2_ok(*v),
{
    -FX_MAT_LIM <= v.x.raw && v.x.raw <= FX_MAT_LIM && -FX_MAT_LIM <= v.y.raw && v.y.raw
        <= FX_MAT_LIM
}

/// Whether all four entries are inside the matrix operating range.
fn mat_in_range(m: &Matrix2) -> (r: bool)
    ensures
        r == mat_ok(*m),
{
    vec2_in_range(&m.a) && vec2_in_range(&m.b)
}

/// A failure of the localization layer: of the underlying filter, or of
/// a covariance handed to it.
#[derive(Clone, Copy, PartialEq, Eq, Structural, Debug)]
pub enum LocalizationError {
    /// The particle engine refused the operation.
    Filter(FilterError),
    /// A covariance could not be factored for sampling.
    Matrix(MatrixError),
}

/// A hypothesis that seeding from a pose belief can produce: its
/// location is the mean displaced by a permissible draw of the
/// regularized location belief, and its heading lies within six spreads
/// of the mean heading.
pub open spec fn seeded_from(
    mean: Pose2D,
    loc_covar: Matrix2,
    rot_std_dev: Fix,
    p: DemoParticle,
) -> bool {
    let sigma = eps_reg_spec(loc_covar);
    let la = chol_la(sigma);
    let lb = chol_lb(sigma);
    let lc = chol_lc(sigma);
    &&& exists|z1: int, z2: int|
        -6 * FX_SCALE <= z1 <= 6 * FX_SCALE && -6 * FX_SCALE <= z2 <= 6 * FX_SCALE
            && p.pose.loc.x.raw == mean.loc.x.raw + #[trigger] dot_entry(la, z1, 0, z2)
            && p.pose.loc.y.raw == mean.loc.y.raw + dot_entry(lb, z1, lc, z2)
    &&& mean.rot.raw - 6 * rot_std_dev.raw <= p.pose.rot.raw <= mean.rot.raw + 6
        * rot_std_dev.raw
}

/// An entry a particle report can contain: some hypothesis' pose, paired
/// with its last weight, or zero where no weight was computed.
pub open spec fn report_entry(pf: ParticleFilter<DemoParticle>, e: (Pose2D, u64)) -> bool {
    exists|i: int|
        0 <= i < pf.particles_view().len() && e.0 == #[trigger] pf.particles_view()[i].pose
            && e.1 == (if i < pf.weights_view().len() {
            pf.weights_view()[i]
        } else {
            0
        })
}

/// The localization filter: an optional pose ensemble plus the size the
/// next seeding will use.
pub struct LocalizationFilter {
    pfilter: Option<ParticleFilter<DemoParticle>>,
    particle_count: usize,
}

impl LocalizationFilter {
    /// The ensemble, as the contracts see it.
    pub closed spec fn filter_spec(self) -> Option<ParticleFilter<DemoParticle>> {
        self.pfilter
    }

    /// The configured seeding size, as the contracts see it.
    pub closed spec fn count_spec(self) -> int {
        self.particle_count as int
    }

    /// An unseeded filter with a default ensemble size.
    pub fn new() -> (r: LocalizationFilter)
        ensures
            r.filter_spec() is None,
            r.count_spec() == 10000,
    {
        LocalizationFilter { pfilter: None, particle_count: 10000 }
    }

    /// Seeds the ensemble with every hypothesis at the given pose.
    /// Must run (or `reset_pose_with_uncertainty`) before updates have
    /// any effect.
    pub fn reset_pose_with_absolute_certainty(&mut self, true_pose: Pose2D) -> (r: Result<
        (),
        FilterError,
    >)
        ensures
            final(self).count_spec() == old(self).count_spec(),
            r is Ok <==> old(self).count_spec() > 0,
            r matches Err(e) ==> e == FilterError::ZeroTargetSize && *final(self) == *old(
                self,
            ),
            r is Ok ==> match final(self).filter_spec() {
                Some(pf) => {
                    &&& pf.particles_view().len() == old(self).count_spec()
                    &&& pf.target_size_spec() == old(self).count_spec()
                    &&& forall|i: int|
                        0 <= i < pf.particles_view().len()
                            ==> #[trigger] pf.particles_view()[i].pose == true_pose
                },
                None => false,
            },
    {
        let f = || -> (p: DemoParticle)
            ensures
                p.pose == true_pose,
            { DemoParticle { pose: true_pose } };
        match ParticleFilter::new(self.particle_count, f) {
            Ok(pf) => {
                proof {
                    assert(forall|i: int|
                        0 <= i < pf.particles_view().len() ==> call_ensures(
                            f,
                            (),
                            #[trigger] pf.particles_view()[i],
                        ));
                }
                self.pfilter = Some(pf);
                Ok(())
            },
            Err(e) => Err(e),
        }
    }

    /// Seeds the ensemble by drawing every hypothesis from a pose
    /// belief: positions from a bivariate normal, headings from a scalar
    /// normal.
    pub fn reset_pose_with_uncertainty(
        &mut self,
        mean: Pose2D,
        loc_covar: Matrix2,
        rot_std_dev: Fix,
        rng: &mut ThreadRng,
    ) -> (r: Result<(), LocalizationError>)
        requires
            vec2_ok(mean.loc),
            -GAUSS_MEAN_LIM <= mean.rot.raw <= GAUSS_MEAN_LIM,
            0 <= rot_std_dev.raw <= GAUSS_STD_LIM,
            mat_ok(loc_covar),
            sym_spec(loc_covar),
            loc_covar.a.x.raw < FX_MAT_LIM,
            loc_covar.b.y.raw < FX_MAT_LIM,
        ensures
            final(self).count_spec() == old(self).count_spec(),
            r is Ok <==> (old(self).count_spec() > 0 && cholesky_ok(eps_reg_spec(loc_covar))),
            r is Ok ==> match final(self).filter_spec() {
                Some(pf) => pf.particles_view().len() == old(self).count_spec()
                    && pf.target_size_spec() == old(self).count_spec() && forall|i: int|
                    0 <= i < pf.particles_view().len() ==> seeded_from(
                        mean,
                        loc_covar,
                        rot_std_dev,
                        #[trigger] pf.particles_view()[i],
                    ),
                None => false,
            },
    {
        if self.particle_count == 0 {
            return Err(LocalizationError::Filter(FilterError::ZeroTargetSize));
        }
        let loc_model = Gaussian2D::new(mean.loc, loc_covar);
        let rot_model = Gaussian::new(mean.rot, rot_std_dev);
        let count = self.particle_count;
        let mut particles: Vec<DemoParticle> = Vec::new();
        let mut i: usize = 0;
        while i < count
            invariant
                i == particles@.len(),
                i <= count,
                count > 0,
                loc_model.wf(),
                loc_model.mean_spec() == mean.loc,
                loc_model.covar_spec() == loc_covar,
                loc_model.covar_spec().a.x.raw < FX_MAT_LIM,
                loc_model.covar_spec().b.y.raw < FX_MAT_LIM,
                rot_model.wf(),
                rot_model.mean_spec() == mean.rot.raw,
                rot_model.std_dev_spec() == rot_std_dev.raw,
                i > 0 ==> cholesky_ok(eps_reg_spec(loc_covar)),
                forall|k: int|
                    0 <= k < i ==> seeded_from(
                        mean,
                        loc_covar,
                        rot_std_dev,
                        #[trigger] particles@[k],
                    ),
            decreases count - i,
        {
            let loc = match loc_model.sample(rng) {
                Ok(v) => v,
                Err(e) => {
                    return Err(LocalizationError::Matrix(e));
                },
            };
            let rot = rot_model.sample(rng);
            let p = DemoParticle { pose: Pose2D { loc, rot } };
            proof {
                let sigma = eps_reg_spec(loc_model.covar_spec());
                let la = chol_la(sigma);
                let lb = chol_lb(sigma);
                let lc = chol_lc(sigma);
                let (z1, z2) = choose|z1: int, z2: int|
                    -6 * FX_SCALE <= z1 <= 6 * FX_SCALE && -6 * FX_SCALE <= z2 <= 6 * FX_SCALE
                        && loc.x.raw == loc_model.mean_spec().x.raw + #[trigger] dot_entry(
                        la,
                        z1,
                        0,
                        z2,
                    ) && loc.y.raw == loc_model.mean_spec().y.raw + dot_entry(lb, z1, lc, z2);
                assert(-6 * FX_SCALE <= z1 <= 6 * FX_SCALE && -6 * FX_SCALE <= z2 <= 6
                    * FX_SCALE && p.pose.loc.x.raw == mean.loc.x.raw + dot_entry(la, z1, 0, z2)
                    && p.pose.loc.y.raw == mean.loc.y.raw + dot_entry(lb, z1, lc, z2));
                assert(seeded_from(mean, loc_covar, rot_std_dev, p));
            }
            particles.push(p);
            i = i + 1;
        }
        self.pfilter = Some(
            ParticleFilter::from_particles(count, ResamplePolicy::WeightedIndex, particles),
        );
        Ok(())
    }

    /// Changes the ensemble size: used at the next seeding, and passed
    /// through to a live ensemble's next correction step.
    pub fn set_particle_count(&mut self, count: usize)
        ensures
            final(self).count_spec() == count,
            match final(self).filter_spec() {
                Some(pf) => old(self).filter_spec() matches Some(opf)
                    && pf.target_size_spec() == count && pf.particles_view()
                    == opf.particles_view() && pf.weights_view() == opf.weights_view(),
                None => old(self).filter_spec() is None,
            },
    {
        self.particle_count = count;
        match &mut self.pfilter {
            Some(pf) => pf.set_target_size(count),
            None => {},
        }
    }

    /// The live ensemble's size, or the configured seeding size while
    /// unseeded.
    pub fn get_particle_count(&self) -> (r: usize)
        ensures
            r == match self.filter_spec() {
                Some(pf) => pf.particles_view().len() as int,
                None => self.count_spec(),
            },
    {
        match &self.pfilter {
            Some(pf) => pf.size(),
            None => self.particle_count,
        }
    }

    /// The prediction step: every hypothesis advances through the motion
    /// belief.  Nothing happens while unseeded.
    pub fn motion_update(&mut self, motion_model: &OdoMotionModel2D)
        ensures
            final(self).count_spec() == old(self).count_spec(),
            final(self).filter_spec() is Some <==> old(self).filter_spec() is Some,
            match final(self).filter_spec() {
                Some(pf) => old(self).filter_spec() matches Some(opf)
                    && pf.particles_view().len() == opf.particles_view().len() && forall|i: int|
                    0 <= i < opf.particles_view().len()
                        ==> opf.particles_view()[i].update_rel(
                        motion_model,
                        #[trigger] pf.particles_view()[i],
                    ),
                None => true,
            },
    {
        match &mut self.pfilter {
            Some(pf) => {
                pf.state_update(motion_model);
            },
            None => {},
        }
    }

    /// The correction step: reweights the ensemble against the fix and
    /// resamples it.  Degenerate weights surface as the engine's error;
    /// while unseeded this does nothing and reports success.
    pub fn gps_update(&mut self, gps_meas: &GPSMeasurement) -> (r: Result<(), FilterError>)
        ensures
            final(self).count_spec() == old(self).count_spec(),
            final(self).filter_spec() is Some <==> old(self).filter_spec() is Some,
            match final(self).filter_spec() {
                Some(pf) => old(self).filter_spec() matches Some(opf) && ({
                    let total = weight_sum(pf.weights_view());
                    &&& pf.weights_view().len() == opf.particles_view().len()
                    &&& forall|i: int|
                        0 <= i < opf.particles_view().len()
                            ==> opf.particles_view()[i].weight_rel(
                            gps_meas,
                            #[trigger] pf.weights_view()[i],
                        )
                    &&& pf.target_size_spec() == opf.target_size_spec()
                    &&& (r is Ok <==> (opf.target_size_spec() > 0 && total > 0 && (
                    opf.policy_spec() == ResamplePolicy::WeightedIndex ==> total <= u64::MAX)))
                    &&& (r is Ok ==> pf.particles_view().len() == opf.target_size_spec())
                    &&& (r is Err ==> pf.particles_view() == opf.particles_view())
                    &&& (match r {
                        Err(e) => (e == FilterError::DegenerateWeights <==> (
                        opf.target_size_spec() > 0 && total == 0)) && (e
                            == FilterError::ZeroTargetSize <==> opf.target_size_spec() == 0),
                        Ok(u) => u == (),
                    })
                }),
                None => r is Ok,
            },
    {
        match &mut self.pfilter {
            Some(pf) => pf.measurement_update(gps_meas),
            None => Ok(()),
        }
    }

    /// The hypotheses best supported by the last correction: up to
    /// `max_count` pose-weight pairs in non-increasing weight order,
    /// each drawn from the ensemble, with zero standing in for weights
    /// not yet computed.  Nothing while unseeded.
    pub fn get_particles(&self, max_count: usize) -> (r: Option<Vec<(Pose2D, u64)>>)
        ensures
            r is Some <==> self.filter_spec() is Some,
            match r {
                Some(v) => self.filter_spec() matches Some(pf) && {
                    &&& v@.len() == min(max_count as int, pf.particles_view().len() as int)
                    &&& forall|a: int, b: int|
                        0 <= a < b < v@.len() ==> (#[trigger] v@[a]).1 >= (#[trigger] v@[b]).1
                    &&& forall|k: int|
                        0 <= k < v@.len() ==> report_entry(pf, #[trigger] v@[k])
                },
                None => true,
            },
    {
        let pf = match &self.pfilter {
            Some(pf) => pf,
            None => {
                return None;
            },
        };
        let ps = pf.particles();
        let ws = pf.weights();
        let n = ps.len();
        let mut data: Vec<(Pose2D, u64)> = Vec::new();
        let mut i: usize = 0;
        while i < n
            invariant
                n == pf.particles_view().len(),
                ws@ == pf.weights_view(),
                ps@ == pf.particles_view(),
                i == data@.len(),
                i <= n,
                forall|k: int| 0 <= k < i ==> report_entry(*pf, #[trigger] data@[k]),
            decreases n - i,
        {
            let w: u64 = if i < ws.len() {
                ws[i]
            } else {
                0
            };
            let e = (ps[i].pose, w);
            proof {
                assert(report_entry(*pf, e));
            }
            data.push(e);
            i = i + 1;
        }
        let m = if max_count < n {
            max_count
        } else {
            n
        };
        let mut out: Vec<(Pose2D, u64)> = Vec::new();
        let mut j: usize = 0;
        while j < m
            invariant
                m <= n,
                n == pf.particles_view().len(),
                j == out@.len(),
                j <= m,
                data@.len() == n - j,
                forall|k: int| 0 <= k < data@.len() ==> report_entry(*pf, #[trigger] data@[k]),
                forall|k: int| 0 <= k < out@.len() ==> report_entry(*pf, #[trigger] out@[k]),
                forall|a: int, b: int|
                    0 <= a < b < out@.len() ==> (#[trigger] out@[a]).1 >= (#[trigger] out@[b]).1,
                forall|a: int, d: int|
                    0 <= a < out@.len() && 0 <= d < data@.len() ==> (#[trigger] out@[a]).1 >= (
                    #[trigger] data@[d]).1,
            decreases m - j,
        {
            let mut best: usize = 0;
            let mut k: usize = 1;
            while k < data.len()
                invariant
                    data@.len() > 0,
                    best < k <= data@.len(),
                    forall|t: int| 0 <= t < k ==> (#[trigger] data@[t]).1 <= data@[best as int].1,
                decreases data@.len() - k,
            {
                if data[k].1 > data[best].1 {
                    best = k;
                }
                k = k + 1;
            }
            let e = data.swap_remove(best);
            out.push(e);
            j = j + 1;
        }
        Some(out)
    }
}

} // verus!
