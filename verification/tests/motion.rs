use slamdemo::fixed::{Fix, FX_PI};
use slamdemo::motion_model::Pose2D;
use slamdemo::odometry::{OdoUpdate2D, OdoMotionBuilder2D, OdometryNoise, OdometryModel2D};
use slamdemo::rng::fresh_rng;

fn mfx(v: f64) -> Fix {
    Fix { raw: (v * 65536.0).round() as i64 }
}

fn mf64(x: Fix) -> f64 {
    x.raw as f64 / 65536.0
}

fn pose(x: f64, y: f64, rot: f64) -> Pose2D {
    Pose2D::new(mfx(x), mfx(y), mfx(rot))
}

#[test]
fn straight_step_decomposes_exactly() {
    let builder = OdoMotionBuilder2D::with_threshold(mfx(0.1));
    let update = OdoUpdate2D::new(pose(0.0, 0.0, 0.0), pose(1.0, 0.0, 0.0), mfx(1.0));
    let m = builder.from_update(&update);
    assert_eq!(m.rot1.raw, 0);
    assert_eq!(m.trans.raw, 65536);
    assert_eq!(m.rot2.raw, 0);
    assert_eq!(m.delta.raw, 65536);
}

#[test]
fn below_threshold_displacement_keeps_heading() {
    let builder = OdoMotionBuilder2D::with_threshold(mfx(1.0));
    // a sideways wobble of 0.05 over a full second is treated as standing
    let update = OdoUpdate2D::new(pose(0.0, 0.0, 0.0), pose(0.0, 0.05, 0.0), mfx(1.0));
    let m = builder.from_update(&update);
    assert_eq!(m.rot1.raw, 0);
    assert!(mf64(m.trans) > 0.0);
    assert!(mf64(m.rot2).abs() < 0.001);
}

#[test]
fn reverse_motion_flips_the_translation() {
    let builder = OdoMotionBuilder2D::with_threshold(mfx(0.1));
    let update = OdoUpdate2D::new(pose(0.0, 0.0, 0.0), pose(-1.0, 0.0, 0.0), mfx(1.0));
    let m = builder.from_update(&update);
    assert_eq!(m.trans.raw, -65536);
    assert_eq!(m.rot1.raw, 0);
    assert_eq!(m.rot2.raw, 0);
}

#[test]
fn disallowing_reverse_keeps_the_turn() {
    let builder = OdoMotionBuilder2D {
        speed_threshold: mfx(0.1),
        allow_reverse: false,
    };
    let update = OdoUpdate2D::new(pose(0.0, 0.0, 0.0), pose(-1.0, 0.0, 0.0), mfx(1.0));
    let m = builder.from_update(&update);
    assert_eq!(m.trans.raw, 65536);
    assert!(mf64(m.rot1).abs() > 3.0);
}

#[test]
fn apply_update_walks_the_turned_heading() {
    let builder = OdoMotionBuilder2D::with_threshold(mfx(0.1));
    let update = OdoUpdate2D::new(pose(0.0, 0.0, 0.0), pose(0.0, 2.0, 0.0), mfx(1.0));
    let m = builder.from_update(&update);
    let end = m.apply_update(&pose(0.0, 0.0, 0.0));
    assert!(mf64(end.loc.x).abs() < 0.01);
    assert!((mf64(end.loc.y) - 2.0).abs() < 0.01);
}

#[test]
fn noiseless_mean_motion_reproduces_the_next_pose() {
    let model = OdometryModel2D::new(
        OdometryNoise::default(),
        OdoMotionBuilder2D::with_threshold(mfx(0.1)),
    );
    let cases = [
        (pose(0.0, 0.0, 0.0), pose(1.0, 0.0, 0.0)),
        (pose(0.0, 0.0, 0.0), pose(1.5, 0.8, 0.3)),
        (pose(2.0, -1.0, 1.2), pose(2.6, -0.2, 0.9)),
        (pose(-3.0, 4.0, -2.0), pose(-4.2, 2.9, -2.4)),
    ];
    for &(prev, next) in &cases {
        let update = OdoUpdate2D::new(prev, next, mfx(1.0));
        let belief = model.get_motion_model(&update);
        let mean = belief.mean_motion();
        let back = mean.apply_update(&prev);
        assert!(
            (mf64(back.loc.x) - mf64(next.loc.x)).abs() < 0.01,
            "x {} vs {}",
            mf64(back.loc.x),
            mf64(next.loc.x)
        );
        assert!((mf64(back.loc.y) - mf64(next.loc.y)).abs() < 0.01);
        // headings agree up to whole turns
        let two_pi = 2.0 * (FX_PI as f64) / 65536.0;
        let mut dh = (mf64(back.rot) - mf64(next.rot)) % two_pi;
        if dh > two_pi / 2.0 {
            dh -= two_pi;
        }
        if dh < -two_pi / 2.0 {
            dh += two_pi;
        }
        assert!(dh.abs() < 0.01, "heading slip {dh}");
    }
}

#[test]
fn noiseless_model_has_zero_spreads() {
    let model = OdometryModel2D::new(
        OdometryNoise::default(),
        OdoMotionBuilder2D::with_threshold(mfx(0.1)),
    );
    let update = OdoUpdate2D::new(pose(0.0, 0.0, 0.0), pose(1.5, 0.8, 0.3), mfx(1.0));
    let belief = model.get_motion_model(&update);
    assert_eq!(belief.rot1.std_dev().raw, 0);
    assert_eq!(belief.trans.std_dev().raw, 0);
    assert_eq!(belief.rot2.std_dev().raw, 0);
}

#[test]
fn noisy_spreads_grow_with_motion_magnitude() {
    let model = OdometryModel2D::new(
        OdometryNoise::new(mfx(0.01), mfx(0.01), mfx(0.02), mfx(0.01)),
        OdoMotionBuilder2D::with_threshold(mfx(0.1)),
    );
    let small = OdoUpdate2D::new(pose(0.0, 0.0, 0.0), pose(0.5, 0.0, 0.0), mfx(1.0));
    let large = OdoUpdate2D::new(pose(0.0, 0.0, 0.0), pose(4.0, 0.0, 0.0), mfx(1.0));
    let b_small = model.get_motion_model(&small);
    let b_large = model.get_motion_model(&large);
    assert!(b_large.trans.std_dev().raw > b_small.trans.std_dev().raw);
    assert!(b_large.rot1.std_dev().raw > 0);
}

#[test]
fn sampled_motion_is_near_the_mean_for_small_noise() {
    let mut rng = fresh_rng();
    let model = OdometryModel2D::new(
        OdometryNoise::new(mfx(0.001), mfx(0.001), mfx(0.001), mfx(0.001)),
        OdoMotionBuilder2D::with_threshold(mfx(0.1)),
    );
    let update = OdoUpdate2D::new(pose(0.0, 0.0, 0.0), pose(2.0, 0.0, 0.0), mfx(1.0));
    let m = model.get_motion_measurement(&update, &mut rng);
    assert!((mf64(m.trans) - 2.0).abs() < 0.5);
    assert!(mf64(m.rot1).abs() < 0.5);
    assert_eq!(m.delta.raw, 65536);
}

#[test]
fn default_builder_parameters() {
    let b = OdoMotionBuilder2D::default();
    assert_eq!(b.speed_threshold.raw, 65536);
    assert!(b.allow_reverse);
    let n = OdometryNoise::default();
    assert_eq!(n.rot_rot.raw, 0);
    assert_eq!(n.rot_trans.raw, 0);
}
