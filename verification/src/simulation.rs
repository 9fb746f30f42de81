//! Simulated sensing: a noisy absolute-position fix with its
//! uncertainty, and an odometry tracker that accumulates an estimated
//! pose from noisy relative motions.

use vstd::prelude::*;

use rand::rngs::ThreadRng;

verus! {

use crate::fixed::{Fix, FX_SCALE, fx_mul_spec, tdiv_i128, lemma_tdiv_mag, lemma_mul_bound};
use crate::math::{Vec2, Matrix2, MatrixError, vec2_ok, fix_ok, FX_MAT_LIM, cholesky_ok,
    chol_la, chol_lb, chol_lc, dot_entry};
use crate::motion_model::Pose2D;
use crate::odometry::{OdometryNoise, OdometryModel2D, OdoUpdate2D, OdoMotionBuilder2D,
    OdoMotionModel2D, noise_ok, pose_in_box, model_ok, derived_belief, MODEL_BOX};
use crate::prob::{Gaussian2D, eps_reg_spec, sampled_from};

/// A noisy absolute-position fix and the covariance it was drawn with.
#[derive(Clone, Copy, PartialEq, Eq, Structural, Debug)]
pub struct GPSMeasurement {
    pub loc: Vec2,
    pub covar: Matrix2,
}

/// An isotropic position-noise model.
pub struct GPSModel {
    noise_model: Gaussian2D,
}

impl GPSModel {
    /// The underlying zero-centered belief, as the contracts see it.
    pub closed spec fn noise_spec(self) -> Gaussian2D {
        self.noise_model
    }

    /// An isotropic model with the given spread on both axes: the
    /// covariance is the identity scaled by the squared spread.
    pub fn new(std_dev: Fix) -> (r: GPSModel)
        requires
            -0x200_0000 <= std_dev.raw <= 0x200_0000,
        ensures
            ({
                let v = fx_mul_spec(std_dev.raw as int, std_dev.raw as int);
                &&& r.noise_spec().mean_spec().x.raw == 0
                &&& r.noise_spec().mean_spec().y.raw == 0
                &&& r.noise_spec().covar_spec().a.x.raw == v
                &&& r.noise_spec().covar_spec().a.y.raw == 0
                &&& r.noise_spec().covar_spec().b.x.raw == 0
                &&& r.noise_spec().covar_spec().b.y.raw == v
                &&& r.noise_spec().wf()
                &&& 0 <= v < FX_MAT_LIM
            }),
    {
        proof {
            lemma_mul_bound(std_dev.raw as int, std_dev.raw as int, 0x200_0000, 0x200_0000);
            assert(std_dev.raw as int * std_dev.raw as int >= 0) by (nonlinear_arith);
            lemma_tdiv_mag(std_dev.raw * std_dev.raw, FX_SCALE as int);
            vstd::arithmetic::div_mod::lemma_div_is_ordered(
                vstd::math::abs(std_dev.raw * std_dev.raw) as int,
                0x4_0000_0000_0000,
                FX_SCALE as int,
            );
        }
        let v = tdiv_i128((std_dev.raw as i128) * (std_dev.raw as i128), FX_SCALE as u64);
        let covar = Matrix2 {
            a: Vec2 { x: Fix { raw: v }, y: Fix { raw: 0 } },
            b: Vec2 { x: Fix { raw: 0 }, y: Fix { raw: v } },
        };
        GPSModel { noise_model: Gaussian2D::new(Vec2::zero(), covar) }
    }

    /// A measurement of a true position: the position displaced by one
    /// draw from the noise model, reported together with the model's
    /// covariance.  A covariance that resists factorization is reported
    /// as the factorization's error.
    pub fn get_measurement(&self, true_loc: Vec2, rng: &mut ThreadRng) -> (r: Result<
        GPSMeasurement,
        MatrixError,
    >)
        requires
            self.noise_spec().wf(),
            self.noise_spec().covar_spec().a.x.raw < FX_MAT_LIM,
            self.noise_spec().covar_spec().b.y.raw < FX_MAT_LIM,
            vec2_ok(true_loc),
        ensures
            r is Ok <==> cholesky_ok(eps_reg_spec(self.noise_spec().covar_spec())),
            r matches Ok(g) ==> g.covar == self.noise_spec().covar_spec(),
            ({
                let sigma = eps_reg_spec(self.noise_spec().covar_spec());
                let la = chol_la(sigma);
                let lb = chol_lb(sigma);
                let lc = chol_lc(sigma);
                r matches Ok(g) ==> exists|z1: int, z2: int|
                    -6 * FX_SCALE <= z1 <= 6 * FX_SCALE && -6 * FX_SCALE <= z2 <= 6
                        * FX_SCALE && g.loc.x.raw == true_loc.x.raw
                        + self.noise_spec().mean_spec().x.raw + #[trigger] dot_entry(
                        la,
                        z1,
                        0,
                        z2,
                    ) && g.loc.y.raw == true_loc.y.raw + self.noise_spec().mean_spec().y.raw
                        + dot_entry(lb, z1, lc, z2)
            }),
    {
        let offset = match self.noise_model.sample(rng) {
            Ok(v) => v,
            Err(e) => {
                return Err(e);
            },
        };
        let loc = Vec2 {
            x: Fix { raw: true_loc.x.raw + offset.x.raw },
            y: Fix { raw: true_loc.y.raw + offset.y.raw },
        };
        proof {
            let sigma = eps_reg_spec(self.noise_spec().covar_spec());
            let la = chol_la(sigma);
            let lb = chol_lb(sigma);
            let lc = chol_lc(sigma);
            let (z1, z2) = choose|z1: int, z2: int|
                -6 * FX_SCALE <= z1 <= 6 * FX_SCALE && -6 * FX_SCALE <= z2 <= 6 * FX_SCALE
                    && offset.x.raw == self.noise_spec().mean_spec().x.raw + #[trigger] dot_entry(
                    la,
                    z1,
                    0,
                    z2,
                ) && offset.y.raw == self.noise_spec().mean_spec().y.raw + dot_entry(
                    lb,
                    z1,
                    lc,
                    z2,
                );
            assert(-6 * FX_SCALE <= z1 <= 6 * FX_SCALE && -6 * FX_SCALE <= z2 <= 6 * FX_SCALE
                && loc.x.raw == true_loc.x.raw + self.noise_spec().mean_spec().x.raw
                + dot_entry(la, z1, 0, z2) && loc.y.raw == true_loc.y.raw
                + self.noise_spec().mean_spec().y.raw + dot_entry(lb, z1, lc, z2));
        }
        Ok(GPSMeasurement { loc, covar: self.noise_model.covariance() })
    }
}

/// Coordinate box the tracker keeps its estimate inside, by saturation.
pub const TRACK_LIM: i64 = 0x8_0000_0000;

/// An odometry tracker: remembers the last true pose and accumulates an
/// estimated pose by applying each sampled noisy motion.
pub struct Odometry {
    est_pose: Option<Pose2D>,
    last_pose: Option<Pose2D>,
    model: OdometryModel2D,
}

/// A pose inside the tracker's saturation box.
pub open spec fn pose_in_track(p: Pose2D) -> bool {
    &&& -TRACK_LIM <= p.loc.x.raw <= TRACK_LIM
    &&& -TRACK_LIM <= p.loc.y.raw <= TRACK_LIM
    &&& -TRACK_LIM <= p.rot.raw <= TRACK_LIM
}

impl Odometry {
    /// The estimated pose, as the contracts see it.
    pub closed spec fn est_spec(self) -> Option<Pose2D> {
        self.est_pose
    }

    /// The last true pose, as the contracts see it.
    pub closed spec fn last_spec(self) -> Option<Pose2D> {
        self.last_pose
    }

    /// The motion model, as the contracts see it.
    pub closed spec fn model_spec(self) -> OdometryModel2D {
        self.model
    }

    /// The tracker's estimate stays inside its saturation box.
    pub open spec fn wf(self) -> bool {
        match self.est_spec() {
            Some(p) => pose_in_track(p),
            None => true,
        }
    }

    /// An idle tracker around the given model; tracking starts at the
    /// first `ready`.
    pub fn new(model: OdometryModel2D) -> (r: Odometry)
        ensures
            r.est_spec() is None,
            r.last_spec() is None,
            r.model_spec() == model,
            r.wf(),
    {
        Odometry { est_pose: None, last_pose: None, model }
    }

    /// Starts tracking from a known pose.
    pub fn ready(&mut self, pose: Pose2D)
        requires
            pose_in_track(pose),
        ensures
            final(self).est_spec() == Some(pose),
            final(self).last_spec() == Some(pose),
            final(self).model_spec() == old(self).model_spec(),
            final(self).wf(),
    {
        self.est_pose = Some(pose);
        self.last_pose = Some(pose);
    }

    /// The noise calibration, replaceable at any time between steps.
    pub fn set_noise_params(&mut self, noise_params: OdometryNoise)
        ensures
            final(self).model_spec().noise_spec() == noise_params,
            final(self).model_spec().builder_spec() == old(self).model_spec().builder_spec(),
            final(self).est_spec() == old(self).est_spec(),
            final(self).last_spec() == old(self).last_spec(),
    {
        self.model.set_noise_params(noise_params);
    }

    /// The decomposition parameters, replaceable at any time between
    /// steps.
    pub fn set_motion_params(&mut self, motion_params: OdoMotionBuilder2D)
        ensures
            final(self).model_spec().builder_spec() == motion_params,
            final(self).model_spec().noise_spec() == old(self).model_spec().noise_spec(),
            final(self).est_spec() == old(self).est_spec(),
            final(self).last_spec() == old(self).last_spec(),
    {
        self.model.set_motion_params(motion_params);
    }

    /// One tracking step: the true motion since the last step is turned
    /// into a noise-aware belief, one noisy motion is drawn from it and
    /// applied to the estimate, and the belief is handed back for
    /// downstream correction.  Idle until `ready` has run.
    pub fn physics_process(&mut self, cur_pose: Pose2D, delta: Fix, rng: &mut ThreadRng) -> (r:
        Option<(OdoMotionModel2D, Pose2D)>)
        requires
            old(self).wf(),
            noise_ok(old(self).model_spec().noise_spec()),
            fix_ok(old(self).model_spec().builder_spec().speed_threshold),
            pose_in_box(cur_pose),
            match old(self).last_spec() {
                Some(p) => pose_in_box(p),
                None => true,
            },
            -MODEL_BOX <= delta.raw <= MODEL_BOX,
        ensures
            final(self).wf(),
            final(self).model_spec() == old(self).model_spec(),
            r is Some <==> (old(self).est_spec() is Some && old(self).last_spec() is Some),
            r is None ==> *final(self) == *old(self),
            r matches Some(pair) ==> final(self).last_spec() == Some(cur_pose)
                && final(self).est_spec() == Some(pair.1) && model_ok(pair.0),
            r matches Some(pair) ==> (old(self).last_spec() matches Some(lp)
                && derived_belief(
                old(self).model_spec().noise_spec(),
                old(self).model_spec().builder_spec().speed_threshold.raw as int,
                old(self).model_spec().builder_spec().allow_reverse,
                lp,
                cur_pose,
                delta,
                pair.0,
            )),
            r matches Some(pair) ==> (old(self).est_spec() matches Some(est) && exists|
                r1: int,
                t: int,
                r2: int,
            |
                #![trigger sampled_from(pair.0.rot1, r1), sampled_from(pair.0.trans, t), sampled_from(pair.0.rot2, r2)]
                {
                    &&& sampled_from(pair.0.rot1, r1)
                    &&& sampled_from(pair.0.trans, t)
                    &&& sampled_from(pair.0.rot2, r2)
                    &&& pair.1.loc.x.raw == sat_spec(crate::odometry::apply_x_spec(est, r1, t))
                    &&& pair.1.loc.y.raw == sat_spec(crate::odometry::apply_y_spec(est, r1, t))
                    &&& pair.1.rot.raw == sat_spec(crate::odometry::apply_rot_spec(est, r1, r2))
                }),
    {
        if self.est_pose.is_some() && self.last_pose.is_some() {
            let est = *self.est_pose.as_ref().unwrap();
            let last = *self.last_pose.as_ref().unwrap();
            let true_update = OdoUpdate2D::new(last, cur_pose, delta);
            let true_model = self.model.get_motion_model(&true_update);
            let meas_motion = true_model.sample_motion(rng);
            let raw_pose = meas_motion.apply_update(&est);
            let meas_pose = Pose2D {
                loc: Vec2 {
                    x: saturate(raw_pose.loc.x),
                    y: saturate(raw_pose.loc.y),
                },
                rot: saturate(raw_pose.rot),
            };
            proof {
                assert(sampled_from(true_model.rot1, meas_motion.rot1.raw as int)
                    && sampled_from(true_model.trans, meas_motion.trans.raw as int)
                    && sampled_from(true_model.rot2, meas_motion.rot2.raw as int)
                    && meas_pose.loc.x.raw == sat_spec(
                    crate::odometry::apply_x_spec(
                        est,
                        meas_motion.rot1.raw as int,
                        meas_motion.trans.raw as int,
                    ),
                ) && meas_pose.loc.y.raw == sat_spec(
                    crate::odometry::apply_y_spec(
                        est,
                        meas_motion.rot1.raw as int,
                        meas_motion.trans.raw as int,
                    ),
                ) && meas_pose.rot.raw == sat_spec(
                    crate::odometry::apply_rot_spec(
                        est,
                        meas_motion.rot1.raw as int,
                        meas_motion.rot2.raw as int,
                    ),
                ));
            }
            self.last_pose = Some(cur_pose);
            self.est_pose = Some(meas_pose);
            Some((true_model, meas_pose))
        } else {
            None
        }
    }

    /// The estimated pose, or the given fallback while idle.
    pub fn get_estimated_pose(&self, fallback: Pose2D) -> (r: Pose2D)
        ensures
            r == match self.est_spec() {
                Some(p) => p,
                None => fallback,
            },
    {
        match self.est_pose.as_ref() {
            Some(p) => *p,
            None => fallback,
        }
    }
}

/// A scalar clamped into the tracker's saturation box, as an integer
/// function.
pub open spec fn sat_spec(v: int) -> int {
    if v > TRACK_LIM {
        TRACK_LIM as int
    } else if v < -TRACK_LIM {
        -TRACK_LIM as int
    } else {
        v
    }
}

/// A scalar clamped into the tracker's saturation box.
fn saturate(a: Fix) -> (r: Fix)
    ensures
        r.raw == sat_spec(a.raw as int),
        -TRACK_LIM <= r.raw <= TRACK_LIM,
        -TRACK_LIM <= a.raw <= TRACK_LIM ==> r == a,
{
    if a.raw > TRACK_LIM {
        Fix { raw: TRACK_LIM }
    } else if a.raw < -TRACK_LIM {
        Fix { raw: -TRACK_LIM }
    } else {
        a
    }
}

} // verus!
