//! The odometry motion model: planar motion decomposed into
//! rotate-translate-rotate, a noise model whose spreads grow with the
//! motion's magnitude, and the application of a motion to a pose.

use vstd::prelude::*;

use rand::rngs::ThreadRng;

verus! {

use vstd::math::{abs, min};
use crate::fixed::{Fix, FX_SCALE, FX_PI, FX_HALF_PI, tdiv_i128, isqrt_u128, sqrt_floor,
    fx_mul_spec, fx_mul, wrap, wrap_spec, lemma_tdiv_mag, lemma_mul_bound,
    lemma_wrap_in_range, lemma_wrap_congruent};
use crate::kernels::{sin_fx, cos_fx, atan2_fx, sin_spec, cos_spec, atan2_spec};
use crate::math::{Vec2, fix_ok, FX_MAT_LIM};
use crate::motion_model::{Pose2D, pose_ok};
use crate::prob::{Gaussian, sampled_from};

/// Coordinate box accepted by the noise model: poses and time deltas
/// this large keep every derived variance computable.
pub const MODEL_BOX: i64 = 0x4000_0000;

/// Bound on the noise coefficients the model accepts.
pub const NOISE_LIM: i64 = 0x10_0000;

/// Ceiling applied to a derived motion spread.
pub const MOTION_STD_LIM: i64 = 0x4000_0000;

/// A pair of poses and the time between them: what one control step
/// observes.
#[derive(Clone, Copy, PartialEq, Eq, Structural, Debug)]
pub struct OdoUpdate2D {
    pub prev: Pose2D,
    pub next: Pose2D,
    pub delta: Fix,
}

impl OdoUpdate2D {
    /// An observation from its parts.
    pub fn new(prev: Pose2D, next: Pose2D, delta: Fix) -> (r: OdoUpdate2D)
        ensures
            r.prev == prev,
            r.next == next,
            r.delta == delta,
    {
        OdoUpdate2D { prev, next, delta }
    }
}

/// How a pair of poses is decomposed into a motion.
#[derive(Clone, Copy, PartialEq, Eq, Structural, Debug)]
pub struct OdoMotionBuilder2D {
    /// Below this speed the displacement direction is treated as noise
    /// and the first rotation is taken as zero.
    pub speed_threshold: Fix,
    /// Whether a near-backward displacement is folded into a negative
    /// translation with a small first rotation.
    pub allow_reverse: bool,
}

impl Default for OdoMotionBuilder2D {
    /// One unit per unit time as the speed threshold, reverse motion
    /// allowed.
    fn default() -> (r: OdoMotionBuilder2D)
        ensures
            r.speed_threshold.raw == FX_SCALE,
            r.allow_reverse == true,
    {
        OdoMotionBuilder2D { speed_threshold: Fix { raw: FX_SCALE }, allow_reverse: true }
    }
}

/// The first rotation of the decomposition: the displacement heading
/// relative to the previous pose, folded, or zero below the speed
/// threshold.
pub open spec fn decomp_rot1_pre(st: int, prev: Pose2D, next: Pose2D, delta: int) -> int {
    let dx = next.loc.x.raw - prev.loc.x.raw;
    let dy = next.loc.y.raw - prev.loc.y.raw;
    let trans0 = sqrt_floor((dx * dx + dy * dy) as nat) as int;
    if trans0 > fx_mul_spec(st, delta) {
        wrap_spec(atan2_spec(dy, dx) - prev.rot.raw, -FX_PI as int, FX_PI as int)
    } else {
        0
    }
}

/// Whether the reverse-motion convention rewrites the decomposition.
pub open spec fn decomp_reverse(st: int, allow_reverse: bool, prev: Pose2D, next: Pose2D, delta: int) -> bool {
    allow_reverse && abs(decomp_rot1_pre(st, prev, next, delta)) > FX_HALF_PI
}

/// The decomposed first rotation.
pub open spec fn decomp_rot1(st: int, allow_reverse: bool, prev: Pose2D, next: Pose2D, delta: int) -> int {
    let pre = decomp_rot1_pre(st, prev, next, delta);
    if decomp_reverse(st, allow_reverse, prev, next, delta) {
        wrap_spec(pre - FX_PI, -FX_PI as int, FX_PI as int)
    } else {
        pre
    }
}

/// The decomposed translation: the displacement's length, negated under
/// the reverse-motion convention.
pub open spec fn decomp_trans(st: int, allow_reverse: bool, prev: Pose2D, next: Pose2D, delta: int) -> int {
    let dx = next.loc.x.raw - prev.loc.x.raw;
    let dy = next.loc.y.raw - prev.loc.y.raw;
    let trans0 = sqrt_floor((dx * dx + dy * dy) as nat) as int;
    if decomp_reverse(st, allow_reverse, prev, next, delta) {
        -trans0
    } else {
        trans0
    }
}

/// The decomposed second rotation: what remains of the heading change.
pub open spec fn decomp_rot2(st: int, allow_reverse: bool, prev: Pose2D, next: Pose2D, delta: int) -> int {
    wrap_spec(
        next.rot.raw - prev.rot.raw - decomp_rot1(st, allow_reverse, prev, next, delta),
        -FX_PI as int,
        FX_PI as int,
    )
}

impl OdoMotionBuilder2D {
    /// A builder with the given threshold, reverse motion allowed.
    pub fn with_threshold(speed_threshold: Fix) -> (r: OdoMotionBuilder2D)
        ensures
            r.speed_threshold == speed_threshold,
            r.allow_reverse == true,
    {
        OdoMotionBuilder2D { speed_threshold, allow_reverse: true }
    }

    /// Decomposes a pair of poses into first rotation, translation and
    /// second rotation, exactly as the decomposition functions state.
    pub fn from_update(&self, update: &OdoUpdate2D) -> (r: OdoMotion2D)
        requires
            pose_ok(update.prev),
            pose_ok(update.next),
            fix_ok(update.delta),
            fix_ok(self.speed_threshold),
        ensures
            r.rot1.raw == decomp_rot1(
                self.speed_threshold.raw as int,
                self.allow_reverse,
                update.prev,
                update.next,
                update.delta.raw as int,
            ),
            r.trans.raw == decomp_trans(
                self.speed_threshold.raw as int,
                self.allow_reverse,
                update.prev,
                update.next,
                update.delta.raw as int,
            ),
            r.rot2.raw == decomp_rot2(
                self.speed_threshold.raw as int,
                self.allow_reverse,
                update.prev,
                update.next,
                update.delta.raw as int,
            ),
            r.delta == update.delta,
            -FX_PI <= r.rot1.raw <= FX_PI,
            -FX_PI <= r.rot2.raw <= FX_PI,
            0 <= abs(r.trans.raw as int) <= 0x80_0000_0000,
    {
        let cur_pose = update.next;
        let last_pose = update.prev;
        let dx: i64 = cur_pose.loc.x.raw - last_pose.loc.x.raw;
        let dy: i64 = cur_pose.loc.y.raw - last_pose.loc.y.raw;
        proof {
            lemma_mul_bound(dx as int, dx as int, 0x20_0000_0000, 0x20_0000_0000);
            lemma_mul_bound(dy as int, dy as int, 0x20_0000_0000, 0x20_0000_0000);
            assert(dx as int * dx as int >= 0 && dy as int * dy as int >= 0)
                by (nonlinear_arith);
        }
        let sq: u128 = ((dx as i128) * (dx as i128) + (dy as i128) * (dy as i128)) as u128;
        let trans0 = isqrt_u128(sq);
        proof {
            assert(trans0 as int <= 0x80_0000_0000) by (nonlinear_arith)
                requires
                    (trans0 as int) * (trans0 as int) <= sq as int,
                    sq as int <= 0x800_0000_0000_0000_0000,
            ;
        }
        let trans0: i64 = trans0 as i64;
        proof {
            lemma_mul_bound(
                self.speed_threshold.raw as int,
                update.delta.raw as int,
                0x10_0000_0000,
                0x10_0000_0000,
            );
            lemma_tdiv_mag(self.speed_threshold.raw * update.delta.raw, FX_SCALE as int);
            vstd::arithmetic::div_mod::lemma_div_is_ordered(
                abs(self.speed_threshold.raw * update.delta.raw) as int,
                0x100_0000_0000_0000_0000,
                65536,
            );
            assert(0x100_0000_0000_0000int * 65536 == 0x100_0000_0000_0000_0000)
                by (nonlinear_arith);
            vstd::arithmetic::div_mod::lemma_div_by_multiple(0x100_0000_0000_0000int, 65536);
        }
        let threshold = fx_mul(self.speed_threshold, update.delta);
        let mut rot1: i64 = 0;
        if trans0 > threshold.raw {
            let heading = atan2_fx(Fix { raw: dy }, Fix { raw: dx });
            let w = wrap(
                Fix { raw: heading.raw - last_pose.rot.raw },
                Fix { raw: -FX_PI },
                Fix { raw: FX_PI },
            );
            proof {
                lemma_wrap_in_range(
                    heading.raw - last_pose.rot.raw,
                    -FX_PI as int,
                    FX_PI as int,
                );
            }
            rot1 = w.raw;
        }
        let mut trans: i64 = trans0;
        let rot1_abs: i64 = if rot1 < 0 {
            -rot1
        } else {
            rot1
        };
        if self.allow_reverse && rot1_abs > FX_HALF_PI {
            trans = -trans0;
            let w = wrap(Fix { raw: rot1 - FX_PI }, Fix { raw: -FX_PI }, Fix { raw: FX_PI });
            proof {
                lemma_wrap_in_range(rot1 - FX_PI, -FX_PI as int, FX_PI as int);
            }
            rot1 = w.raw;
        }
        let w2 = wrap(
            Fix { raw: cur_pose.rot.raw - last_pose.rot.raw - rot1 },
            Fix { raw: -FX_PI },
            Fix { raw: FX_PI },
        );
        proof {
            lemma_wrap_in_range(
                cur_pose.rot.raw - last_pose.rot.raw - rot1,
                -FX_PI as int,
                FX_PI as int,
            );
        }
        OdoMotion2D {
            rot1: Fix { raw: rot1 },
            trans: Fix { raw: trans },
            rot2: w2,
            delta: update.delta,
        }
    }
}

/// One realized rotate-translate-rotate motion, with the time it covers.
#[derive(Clone, Copy, PartialEq, Eq, Structural, Debug)]
pub struct OdoMotion2D {
    pub rot1: Fix,
    pub trans: Fix,
    pub rot2: Fix,
    pub delta: Fix,
}

/// New x coordinate after a motion: step `trans` along the turned
/// heading.
pub open spec fn apply_x_spec(pose: Pose2D, rot1: int, trans: int) -> int {
    pose.loc.x.raw + fx_mul_spec(cos_spec(pose.rot.raw + rot1), trans)
}

/// New y coordinate after a motion.
pub open spec fn apply_y_spec(pose: Pose2D, rot1: int, trans: int) -> int {
    pose.loc.y.raw + fx_mul_spec(sin_spec(pose.rot.raw + rot1), trans)
}

/// New heading after a motion: both rotations accumulate, unfolded.
pub open spec fn apply_rot_spec(pose: Pose2D, rot1: int, rot2: int) -> int {
    pose.rot.raw + rot1 + rot2
}

impl OdoMotion2D {
    /// The pose reached by turning by `rot1`, stepping `trans` along the
    /// new heading, and turning by `rot2`.
    pub fn apply_update(&self, pose: &Pose2D) -> (r: Pose2D)
        requires
            pose_ok(*pose),
            -FX_MAT_LIM <= self.rot1.raw <= FX_MAT_LIM,
            -FX_MAT_LIM <= self.rot2.raw <= FX_MAT_LIM,
            -FX_MAT_LIM <= self.trans.raw <= FX_MAT_LIM,
        ensures
            r.loc.x.raw == apply_x_spec(*pose, self.rot1.raw as int, self.trans.raw as int),
            r.loc.y.raw == apply_y_spec(*pose, self.rot1.raw as int, self.trans.raw as int),
            r.rot.raw == apply_rot_spec(*pose, self.rot1.raw as int, self.rot2.raw as int),
    {
        let heading = Fix { raw: pose.rot.raw + self.rot1.raw };
        let c = cos_fx(heading);
        let s = sin_fx(heading);
        proof {
            lemma_mul_bound(c.raw as int, self.trans.raw as int, FX_SCALE as int, FX_MAT_LIM as int);
            lemma_mul_bound(s.raw as int, self.trans.raw as int, FX_SCALE as int, FX_MAT_LIM as int);
            lemma_tdiv_mag(c.raw * self.trans.raw, FX_SCALE as int);
            lemma_tdiv_mag(s.raw * self.trans.raw, FX_SCALE as int);
        }
        let step_x = tdiv_i128((c.raw as i128) * (self.trans.raw as i128), FX_SCALE as u64);
        let step_y = tdiv_i128((s.raw as i128) * (self.trans.raw as i128), FX_SCALE as u64);
        Pose2D {
            loc: Vec2 {
                x: Fix { raw: pose.loc.x.raw + step_x },
                y: Fix { raw: pose.loc.y.raw + step_y },
            },
            rot: Fix { raw: pose.rot.raw + self.rot1.raw + self.rot2.raw },
        }
    }
}

/// The belief about a motion: one scalar normal belief per component,
/// plus the time covered.
#[derive(Clone, Copy)]
pub struct OdoMotionModel2D {
    pub rot1: Gaussian,
    pub trans: Gaussian,
    pub rot2: Gaussian,
    pub delta: Fix,
}

/// Operating bounds under which sampling the model keeps every motion
/// component within the matrix range.
pub open spec fn model_ok(m: OdoMotionModel2D) -> bool {
    &&& m.rot1.wf() && m.trans.wf() && m.rot2.wf()
    &&& -0x4_0000_0000 <= m.rot1.mean_spec() <= 0x4_0000_0000
    &&& -0x4_0000_0000 <= m.trans.mean_spec() <= 0x4_0000_0000
    &&& -0x4_0000_0000 <= m.rot2.mean_spec() <= 0x4_0000_0000
    &&& m.rot1.std_dev_spec() <= MOTION_STD_LIM
    &&& m.trans.std_dev_spec() <= MOTION_STD_LIM
    &&& m.rot2.std_dev_spec() <= MOTION_STD_LIM
}

impl OdoMotionModel2D {
    /// One realized motion: each component drawn from its belief.
    pub fn sample_motion(&self, rng: &mut ThreadRng) -> (r: OdoMotion2D)
        requires
            model_ok(*self),
        ensures
            sampled_from(self.rot1, r.rot1.raw as int),
            sampled_from(self.trans, r.trans.raw as int),
            sampled_from(self.rot2, r.rot2.raw as int),
            r.delta == self.delta,
            -FX_MAT_LIM <= r.rot1.raw <= FX_MAT_LIM,
            -FX_MAT_LIM <= r.trans.raw <= FX_MAT_LIM,
            -FX_MAT_LIM <= r.rot2.raw <= FX_MAT_LIM,
    {
        let rot1 = self.rot1.sample(rng);
        let trans = self.trans.sample(rng);
        let rot2 = self.rot2.sample(rng);
        OdoMotion2D { rot1, trans, rot2, delta: self.delta }
    }

    /// The noise-free motion: each component's center.
    pub fn mean_motion(&self) -> (r: OdoMotion2D)
        ensures
            r.rot1.raw == self.rot1.mean_spec(),
            r.trans.raw == self.trans.mean_spec(),
            r.rot2.raw == self.rot2.mean_spec(),
            r.delta == self.delta,
    {
        OdoMotion2D {
            rot1: self.rot1.mean(),
            trans: self.trans.mean(),
            rot2: self.rot2.mean(),
            delta: self.delta,
        }
    }

    /// A pose drawn from the belief: one realized motion applied to the
    /// base pose.
    pub fn sample_pose(&self, base: &Pose2D, rng: &mut ThreadRng) -> (r: Pose2D)
        requires
            model_ok(*self),
            pose_ok(*base),
        ensures
            exists|r1: int, t: int, r2: int|
                #![trigger sampled_from(self.rot1, r1), sampled_from(self.trans, t), sampled_from(self.rot2, r2)]
                {
                    &&& sampled_from(self.rot1, r1)
                    &&& sampled_from(self.trans, t)
                    &&& sampled_from(self.rot2, r2)
                    &&& r.loc.x.raw == apply_x_spec(*base, r1, t)
                    &&& r.loc.y.raw == apply_y_spec(*base, r1, t)
                    &&& r.rot.raw == apply_rot_spec(*base, r1, r2)
                },
    {
        let m = self.sample_motion(rng);
        let r = m.apply_update(base);
        proof {
            assert(sampled_from(self.rot1, m.rot1.raw as int) && sampled_from(
                self.trans,
                m.trans.raw as int,
            ) && sampled_from(self.rot2, m.rot2.raw as int) && r.loc.x.raw == apply_x_spec(
                *base,
                m.rot1.raw as int,
                m.trans.raw as int,
            ) && r.loc.y.raw == apply_y_spec(*base, m.rot1.raw as int, m.trans.raw as int)
                && r.rot.raw == apply_rot_spec(*base, m.rot1.raw as int, m.rot2.raw as int));
        }
        r
    }
}

/// Calibration of how strongly each kind of motion excites each kind of
/// measurement noise.
#[derive(Clone, Copy, PartialEq, Eq, Structural, Debug)]
pub struct OdometryNoise {
    /// Effect of rotation magnitude on rotation noise.
    pub rot_rot: Fix,
    /// Effect of translation magnitude on rotation noise.
    pub trans_rot: Fix,
    /// Effect of translation magnitude on translation noise.
    pub trans_trans: Fix,
    /// Effect of rotation magnitude on translation noise.
    pub rot_trans: Fix,
}

impl Default for OdometryNoise {
    /// All coefficients zero: a noiseless model.
    fn default() -> (r: OdometryNoise)
        ensures
            r.rot_rot.raw == 0,
            r.trans_rot.raw == 0,
            r.trans_trans.raw == 0,
            r.rot_trans.raw == 0,
    {
        OdometryNoise {
            rot_rot: Fix { raw: 0 },
            trans_rot: Fix { raw: 0 },
            trans_trans: Fix { raw: 0 },
            rot_trans: Fix { raw: 0 },
        }
    }
}

impl OdometryNoise {
    /// Coefficients in the order rotation-on-rotation,
    /// translation-on-rotation, translation-on-translation,
    /// rotation-on-translation.
    pub fn new(rot_rot: Fix, trans_rot: Fix, trans_trans: Fix, rot_trans: Fix) -> (r:
        OdometryNoise)
        ensures
            r.rot_rot == rot_rot,
            r.trans_rot == trans_rot,
            r.trans_trans == trans_trans,
            r.rot_trans == rot_trans,
    {
        OdometryNoise { rot_rot, trans_rot, trans_trans, rot_trans }
    }
}

/// Non-negative coefficients within the accepted calibration range.
pub open spec fn noise_ok(n: OdometryNoise) -> bool {
    &&& 0 <= n.rot_rot.raw <= NOISE_LIM
    &&& 0 <= n.trans_rot.raw <= NOISE_LIM
    &&& 0 <= n.trans_trans.raw <= NOISE_LIM
    &&& 0 <= n.rot_trans.raw <= NOISE_LIM
}

/// A pose within the coordinate box the noise model accepts.
pub open spec fn pose_in_box(p: Pose2D) -> bool {
    &&& -MODEL_BOX <= p.loc.x.raw <= MODEL_BOX
    &&& -MODEL_BOX <= p.loc.y.raw <= MODEL_BOX
    &&& fix_ok(p.rot)
}

/// The spread derived for a motion component, as stated: squared
/// magnitudes times their coefficients, summed and capped.
pub open spec fn derived_std_spec(sq_a: int, coeff_a: int, sq_b: int, coeff_b: int) -> int {
    min(MOTION_STD_LIM as int, fx_mul_spec(sq_a, coeff_a) + fx_mul_spec(sq_b, coeff_b))
}

/// The belief `r` that the noise model derives from an observed pose
/// pair: the decomposition as the centers, the time copied through, and
/// spreads grown from the squared motion magnitudes by the calibration,
/// capped at the operating ceiling.
pub open spec fn derived_belief(
    n: OdometryNoise,
    st: int,
    ar: bool,
    prev: Pose2D,
    next: Pose2D,
    delta: Fix,
    r: OdoMotionModel2D,
) -> bool {
    let m1 = decomp_rot1(st, ar, prev, next, delta.raw as int);
    let mt = decomp_trans(st, ar, prev, next, delta.raw as int);
    let m2 = decomp_rot2(st, ar, prev, next, delta.raw as int);
    let rot1_sqr = fx_mul_spec(m1, m1);
    let trans_sqr = fx_mul_spec(mt, mt);
    let rot2_sqr = fx_mul_spec(m2, m2);
    &&& r.rot1.mean_spec() == m1
    &&& r.trans.mean_spec() == mt
    &&& r.rot2.mean_spec() == m2
    &&& r.delta == delta
    &&& r.rot1.std_dev_spec() == derived_std_spec(
        rot1_sqr,
        n.rot_rot.raw as int,
        trans_sqr,
        n.trans_rot.raw as int,
    )
    &&& r.trans.std_dev_spec() == min(
        MOTION_STD_LIM as int,
        fx_mul_spec(trans_sqr, n.trans_trans.raw as int) + fx_mul_spec(
            rot1_sqr + rot2_sqr,
            n.rot_trans.raw as int,
        ),
    )
    &&& r.rot2.std_dev_spec() == derived_std_spec(
        rot2_sqr,
        n.rot_rot.raw as int,
        trans_sqr,
        n.trans_rot.raw as int,
    )
    &&& model_ok(r)
}

/// The full odometry model: a decomposition builder plus noise
/// calibration.
pub struct OdometryModel2D {
    noise: OdometryNoise,
    builder: OdoMotionBuilder2D,
}

impl OdometryModel2D {
    /// The calibration, as the contracts see it.
    pub closed spec fn noise_spec(self) -> OdometryNoise {
        self.noise
    }

    /// The decomposition parameters, as the contracts see them.
    pub closed spec fn builder_spec(self) -> OdoMotionBuilder2D {
        self.builder
    }

    /// A model from its calibration and decomposition parameters.
    pub fn new(noise_params: OdometryNoise, motion_params: OdoMotionBuilder2D) -> (r:
        OdometryModel2D)
        ensures
            r.noise_spec() == noise_params,
            r.builder_spec() == motion_params,
    {
        OdometryModel2D { noise: noise_params, builder: motion_params }
    }

    /// The noise calibration.
    pub fn noise_params(&self) -> (r: &OdometryNoise)
        ensures
            *r == self.noise_spec(),
    {
        &self.noise
    }

    /// Replaces the noise calibration.
    pub fn set_noise_params(&mut self, noise_params: OdometryNoise)
        ensures
            final(self).noise_spec() == noise_params,
            final(self).builder_spec() == old(self).builder_spec(),
    {
        self.noise = noise_params;
    }

    /// The decomposition parameters.
    pub fn motion_params(&self) -> (r: &OdoMotionBuilder2D)
        ensures
            *r == self.builder_spec(),
    {
        &self.builder
    }

    /// Replaces the decomposition parameters.
    pub fn set_motion_params(&mut self, motion_params: OdoMotionBuilder2D)
        ensures
            final(self).builder_spec() == motion_params,
            final(self).noise_spec() == old(self).noise_spec(),
    {
        self.builder = motion_params;
    }

    /// Turns one observed pose pair into a belief about the motion
    /// performed: the decomposition as the centers, and spreads that
    /// grow with the squared motion magnitudes scaled by the
    /// calibration, capped at the operating ceiling.
    pub fn get_motion_model(&self, update: &OdoUpdate2D) -> (r: OdoMotionModel2D)
        requires
            noise_ok(self.noise_spec()),
            fix_ok(self.builder_spec().speed_threshold),
            pose_in_box(update.prev),
            pose_in_box(update.next),
            -MODEL_BOX <= update.delta.raw <= MODEL_BOX,
        ensures
            derived_belief(
                self.noise_spec(),
                self.builder_spec().speed_threshold.raw as int,
                self.builder_spec().allow_reverse,
                update.prev,
                update.next,
                update.delta,
                r,
            ),
    {
        let motion = self.builder.from_update(update);
        proof {
            lemma_decomp_trans_in_box(
                self.builder_spec().speed_threshold.raw as int,
                self.builder_spec().allow_reverse,
                update.prev,
                update.next,
                update.delta.raw as int,
            );
        }
        let rot1_sqr = self.square(motion.rot1);
        let rot2_sqr = self.square(motion.rot2);
        let trans_sqr = self.square(motion.trans);
        let rot1_stdev = self.derived_std(rot1_sqr, self.noise.rot_rot, trans_sqr, self.noise.trans_rot);
        let rot2_stdev = self.derived_std(rot2_sqr, self.noise.rot_rot, trans_sqr, self.noise.trans_rot);
        let trans_stdev = self.derived_std(
            trans_sqr,
            self.noise.trans_trans,
            Fix { raw: rot1_sqr.raw + rot2_sqr.raw },
            self.noise.rot_trans,
        );
        OdoMotionModel2D {
            rot1: Gaussian::new(motion.rot1, rot1_stdev),
            trans: Gaussian::new(motion.trans, trans_stdev),
            rot2: Gaussian::new(motion.rot2, rot2_stdev),
            delta: motion.delta,
        }
    }

    /// The square of a motion component, rescaled once.
    fn square(&self, a: Fix) -> (r: Fix)
        requires
            -0x1_0000_0000 <= a.raw <= 0x1_0000_0000,
        ensures
            r.raw == fx_mul_spec(a.raw as int, a.raw as int),
            0 <= r.raw <= 0x1_0000_0000_0000,
    {
        proof {
            lemma_mul_bound(a.raw as int, a.raw as int, 0x1_0000_0000, 0x1_0000_0000);
            assert(a.raw as int * a.raw as int >= 0) by (nonlinear_arith);
            lemma_tdiv_mag(a.raw * a.raw, FX_SCALE as int);
            vstd::arithmetic::div_mod::lemma_div_is_ordered(
                a.raw * a.raw,
                0x1_0000_0000_0000_0000,
                FX_SCALE as int,
            );
        }
        Fix { raw: tdiv_i128((a.raw as i128) * (a.raw as i128), FX_SCALE as u64) }
    }

    /// One derived spread: two squared magnitudes scaled by their
    /// coefficients, summed and capped.
    fn derived_std(&self, sq_a: Fix, coeff_a: Fix, sq_b: Fix, coeff_b: Fix) -> (r: Fix)
        requires
            0 <= sq_a.raw <= 0x2_0000_0000_0000,
            0 <= sq_b.raw <= 0x2_0000_0000_0000,
            0 <= coeff_a.raw <= NOISE_LIM,
            0 <= coeff_b.raw <= NOISE_LIM,
        ensures
            r.raw == derived_std_spec(
                sq_a.raw as int,
                coeff_a.raw as int,
                sq_b.raw as int,
                coeff_b.raw as int,
            ),
            0 <= r.raw <= MOTION_STD_LIM,
    {
        proof {
            lemma_mul_bound(sq_a.raw as int, coeff_a.raw as int, 0x2_0000_0000_0000, NOISE_LIM as int);
            lemma_mul_bound(sq_b.raw as int, coeff_b.raw as int, 0x2_0000_0000_0000, NOISE_LIM as int);
            assert(sq_a.raw as int * coeff_a.raw as int >= 0 && sq_b.raw as int
                * coeff_b.raw as int >= 0) by (nonlinear_arith)
                requires
                    0 <= sq_a.raw,
                    0 <= coeff_a.raw,
                    0 <= sq_b.raw,
                    0 <= coeff_b.raw,
            ;
            lemma_tdiv_mag(sq_a.raw * coeff_a.raw, FX_SCALE as int);
            lemma_tdiv_mag(sq_b.raw * coeff_b.raw, FX_SCALE as int);
        }
        let ta = tdiv_i128((sq_a.raw as i128) * (coeff_a.raw as i128), FX_SCALE as u64);
        let tb = tdiv_i128((sq_b.raw as i128) * (coeff_b.raw as i128), FX_SCALE as u64);
        let sum = ta + tb;
        if sum > MOTION_STD_LIM {
            Fix { raw: MOTION_STD_LIM }
        } else {
            Fix { raw: sum }
        }
    }

    /// One realized noisy motion measurement for an observed pose pair.
    pub fn get_motion_measurement(&self, true_update: &OdoUpdate2D, rng: &mut ThreadRng) -> (r:
        OdoMotion2D)
        requires
            noise_ok(self.noise_spec()),
            fix_ok(self.builder_spec().speed_threshold),
            pose_in_box(true_update.prev),
            pose_in_box(true_update.next),
            -MODEL_BOX <= true_update.delta.raw <= MODEL_BOX,
        ensures
            r.delta == true_update.delta,
            -FX_MAT_LIM <= r.rot1.raw <= FX_MAT_LIM,
            -FX_MAT_LIM <= r.trans.raw <= FX_MAT_LIM,
            -FX_MAT_LIM <= r.rot2.raw <= FX_MAT_LIM,
            exists|b: OdoMotionModel2D|
                #[trigger] derived_belief(
                    self.noise_spec(),
                    self.builder_spec().speed_threshold.raw as int,
                    self.builder_spec().allow_reverse,
                    true_update.prev,
                    true_update.next,
                    true_update.delta,
                    b,
                ) && sampled_from(b.rot1, r.rot1.raw as int) && sampled_from(
                    b.trans,
                    r.trans.raw as int,
                ) && sampled_from(b.rot2, r.rot2.raw as int),
    {
        let belief = self.get_motion_model(true_update);
        let r = belief.sample_motion(rng);
        proof {
            assert(derived_belief(
                self.noise_spec(),
                self.builder_spec().speed_threshold.raw as int,
                self.builder_spec().allow_reverse,
                true_update.prev,
                true_update.next,
                true_update.delta,
                belief,
            ) && sampled_from(belief.rot1, r.rot1.raw as int) && sampled_from(
                belief.trans,
                r.trans.raw as int,
            ) && sampled_from(belief.rot2, r.rot2.raw as int));
        }
        r
    }
}

/// For poses inside the model box, the decomposed translation magnitude
/// stays below `2^32`.
proof fn lemma_decomp_trans_in_box(st: int, ar: bool, prev: Pose2D, next: Pose2D, delta: int)
    requires
        -MODEL_BOX <= prev.loc.x.raw <= MODEL_BOX,
        -MODEL_BOX <= prev.loc.y.raw <= MODEL_BOX,
        -MODEL_BOX <= next.loc.x.raw <= MODEL_BOX,
        -MODEL_BOX <= next.loc.y.raw <= MODEL_BOX,
    ensures
        -0x1_0000_0000 <= decomp_trans(st, ar, prev, next, delta) <= 0x1_0000_0000,
{
    let dx = next.loc.x.raw - prev.loc.x.raw;
    let dy = next.loc.y.raw - prev.loc.y.raw;
    crate::fixed::lemma_sqrt_floor_bounds((dx * dx + dy * dy) as nat);
    lemma_mul_bound(dx, dy, 0x8000_0000, 0x8000_0000);
    lemma_mul_bound(dx, dx, 0x8000_0000, 0x8000_0000);
    lemma_mul_bound(dy, dy, 0x8000_0000, 0x8000_0000);
    assert(dx * dx >= 0 && dy * dy >= 0) by (nonlinear_arith);
    let t0 = sqrt_floor((dx * dx + dy * dy) as nat) as int;
    assert(t0 <= 0x1_0000_0000) by (nonlinear_arith)
        requires
            t0 >= 0,
            t0 * t0 <= (dx * dx + dy * dy),
            dx * dx <= 0x4000_0000_0000_0000,
            dy * dy <= 0x4000_0000_0000_0000,
    ;
}

/// The heading round trip of the decomposition is exact up to whole
/// turns: applying the decomposed motion's two rotations to the previous
/// heading lands on the next heading, modulo one folding cycle.
pub proof fn lemma_heading_round_trip(st: int, ar: bool, prev: Pose2D, next: Pose2D, delta: int)
    ensures
        ({
            let rot1 = decomp_rot1(st, ar, prev, next, delta);
            let rot2 = decomp_rot2(st, ar, prev, next, delta);
            (apply_rot_spec(prev, rot1, rot2) - next.rot.raw) % (2 * FX_PI) == 0
        }),
{
    let rot1 = decomp_rot1(st, ar, prev, next, delta);
    let rot2 = decomp_rot2(st, ar, prev, next, delta);
    let target = next.rot.raw - prev.rot.raw - rot1;
    lemma_wrap_congruent(target, -FX_PI as int, FX_PI as int);
    assert(vstd::math::max(-FX_PI as int, FX_PI as int) - vstd::math::min(
        -FX_PI as int,
        FX_PI as int,
    ) == 2 * FX_PI);
    assert((rot2 - target) % (2 * FX_PI) == 0);
    assert(apply_rot_spec(prev, rot1, rot2) - next.rot.raw == rot2 - target);
}

} // verus!
