use slamdemo::fixed::Fix;
use slamdemo::localization::{LocalizationFilter, LocalizationError};
use slamdemo::math::{Vec2, Matrix2};
use slamdemo::motion_model::Pose2D;
use slamdemo::odometry::{OdoMotionBuilder2D, OdoUpdate2D, OdometryNoise, OdometryModel2D};
use slamdemo::particle_filter::FilterError;
use slamdemo::rng::fresh_rng;
use slamdemo::simulation::{GPSModel, Odometry};
use slamdemo::state_estimation::UKFilter;

fn lfx(v: f64) -> Fix {
    Fix { raw: (v * 65536.0).round() as i64 }
}

fn lf64(x: Fix) -> f64 {
    x.raw as f64 / 65536.0
}

fn lpose(x: f64, y: f64, rot: f64) -> Pose2D {
    Pose2D::new(lfx(x), lfx(y), lfx(rot))
}

#[test]
fn gps_model_covariance_and_measurement() {
    let mut rng = fresh_rng();
    let model = GPSModel::new(lfx(0.5));
    let m = model.get_measurement(Vec2 { x: lfx(10.0), y: lfx(-3.0) }, &mut rng).unwrap();
    assert!((lf64(m.covar.a.x) - 0.25).abs() < 0.01);
    assert!((lf64(m.covar.b.y) - 0.25).abs() < 0.01);
    assert_eq!(m.covar.a.y.raw, 0);
    // the fix stays within a few spreads of the true position
    assert!((lf64(m.loc.x) - 10.0).abs() < 4.0);
    assert!((lf64(m.loc.y) + 3.0).abs() < 4.0);
}

#[test]
fn odometry_tracker_follows_the_true_path() {
    let mut rng = fresh_rng();
    let model = OdometryModel2D::new(
        OdometryNoise::default(),
        OdoMotionBuilder2D::with_threshold(lfx(0.1)),
    );
    let mut tracker = Odometry::new(model);
    // idle until ready
    assert!(tracker.physics_process(lpose(0.0, 0.0, 0.0), lfx(0.1), &mut rng).is_none());
    tracker.ready(lpose(0.0, 0.0, 0.0));
    let mut true_pose = lpose(0.0, 0.0, 0.0);
    for step in 1..=10i64 {
        true_pose = lpose(0.2 * step as f64, 0.1 * step as f64, 0.0);
        let out = tracker.physics_process(true_pose, lfx(0.1), &mut rng);
        assert!(out.is_some());
    }
    let est = tracker.get_estimated_pose(lpose(9.0, 9.0, 9.0));
    // noiseless coefficients: the estimate tracks closely
    assert!((lf64(est.loc.x) - 2.0).abs() < 0.05, "est x {}", lf64(est.loc.x));
    assert!((lf64(est.loc.y) - 1.0).abs() < 0.05, "est y {}", lf64(est.loc.y));
}

#[test]
fn localization_filter_seeds_with_certainty() {
    let mut lf = LocalizationFilter::new();
    lf.set_particle_count(200);
    lf.reset_pose_with_absolute_certainty(lpose(1.0, 2.0, 0.5)).unwrap();
    assert_eq!(lf.get_particle_count(), 200);
    let top = lf.get_particles(5).unwrap();
    assert_eq!(top.len(), 5);
    for (pose, _) in top.iter() {
        assert_eq!(*pose, lpose(1.0, 2.0, 0.5));
    }
}

#[test]
fn localization_filter_rejects_zero_count_seeding() {
    let mut lf = LocalizationFilter::new();
    lf.set_particle_count(0);
    assert_eq!(
        lf.reset_pose_with_absolute_certainty(lpose(0.0, 0.0, 0.0)),
        Err(FilterError::ZeroTargetSize)
    );
    let mut rng = fresh_rng();
    assert_eq!(
        lf.reset_pose_with_uncertainty(
            lpose(0.0, 0.0, 0.0),
            Matrix2::identity(),
            lfx(0.1),
            &mut rng
        ),
        Err(LocalizationError::Filter(FilterError::ZeroTargetSize))
    );
}

#[test]
fn localization_filter_seeds_with_uncertainty() {
    let mut rng = fresh_rng();
    let mut lf = LocalizationFilter::new();
    lf.set_particle_count(500);
    lf.reset_pose_with_uncertainty(
        lpose(3.0, -2.0, 0.0),
        Matrix2::identity(),
        lfx(0.2),
        &mut rng,
    )
    .unwrap();
    assert_eq!(lf.get_particle_count(), 500);
    // the cloud centers near the seeding mean
    let all = lf.get_particles(500).unwrap();
    let mut sx = 0.0f64;
    let mut sy = 0.0f64;
    for (pose, _) in all.iter() {
        sx += lf64(pose.loc.x);
        sy += lf64(pose.loc.y);
    }
    let n = all.len() as f64;
    assert!((sx / n - 3.0).abs() < 0.3, "mean x {}", sx / n);
    assert!((sy / n + 2.0).abs() < 0.3, "mean y {}", sy / n);
}

#[test]
fn unseeded_updates_are_harmless() {
    let mut lf = LocalizationFilter::new();
    let model = OdometryModel2D::new(
        OdometryNoise::default(),
        OdoMotionBuilder2D::with_threshold(lfx(0.1)),
    );
    let update = OdoUpdate2D::new(lpose(0.0, 0.0, 0.0), lpose(1.0, 0.0, 0.0), lfx(1.0));
    let belief = model.get_motion_model(&update);
    lf.motion_update(&belief);
    let meas = slamdemo::simulation::GPSMeasurement {
        loc: Vec2 { x: lfx(0.0), y: lfx(0.0) },
        covar: Matrix2::identity(),
    };
    assert_eq!(lf.gps_update(&meas), Ok(()));
    assert!(lf.get_particles(10).is_none());
}

#[test]
fn localization_converges_toward_the_fix() {
    let mut rng = fresh_rng();
    let mut lf = LocalizationFilter::new();
    lf.set_particle_count(400);
    lf.reset_pose_with_uncertainty(
        lpose(0.0, 0.0, 0.0),
        Matrix2::identity().mul_scalar(lfx(4.0)),
        lfx(0.3),
        &mut rng,
    )
    .unwrap();
    // a tight fix away from the seeding mean pulls the cloud over
    let meas = slamdemo::simulation::GPSMeasurement {
        loc: Vec2 { x: lfx(1.5), y: lfx(0.5) },
        covar: Matrix2::identity(),
    };
    lf.gps_update(&meas).unwrap();
    let all = lf.get_particles(400).unwrap();
    let mut sx = 0.0f64;
    let mut sy = 0.0f64;
    for (pose, _) in all.iter() {
        sx += lf64(pose.loc.x);
        sy += lf64(pose.loc.y);
    }
    let n = all.len() as f64;
    assert!((sx / n - 1.5).abs() < 0.8, "pulled mean x {}", sx / n);
    assert!((sy / n - 0.5).abs() < 0.8, "pulled mean y {}", sy / n);
}

#[test]
fn particle_report_is_sorted_and_truncated() {
    let mut lf = LocalizationFilter::new();
    lf.set_particle_count(50);
    lf.reset_pose_with_absolute_certainty(lpose(0.0, 0.0, 0.0)).unwrap();
    let meas = slamdemo::simulation::GPSMeasurement {
        loc: Vec2 { x: lfx(0.2), y: lfx(0.0) },
        covar: Matrix2::identity(),
    };
    lf.gps_update(&meas).unwrap();
    let top = lf.get_particles(10).unwrap();
    assert_eq!(top.len(), 10);
    for w in top.windows(2) {
        assert!(w[0].1 >= w[1].1);
    }
    let all = lf.get_particles(1000).unwrap();
    assert_eq!(all.len(), 50);
}

#[test]
fn sigma_point_stub_leaves_state_alone() {
    let mut ukf = UKFilter {};
    ukf.update();
}
