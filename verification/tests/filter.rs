use slamdemo::fixed::Fix;
use slamdemo::localization::DemoParticle;
use slamdemo::math::{Vec2, Matrix2};
use slamdemo::motion_model::Pose2D;
use slamdemo::odometry::{OdoMotionBuilder2D, OdoUpdate2D, OdometryNoise, OdometryModel2D};
use slamdemo::particle_filter::{ParticleFilter, ResamplePolicy, FilterError};
use slamdemo::simulation::GPSMeasurement;

fn pfx(v: f64) -> Fix {
    Fix { raw: (v * 65536.0).round() as i64 }
}

fn ppose(x: f64, y: f64) -> Pose2D {
    Pose2D::new(pfx(x), pfx(y), pfx(0.0))
}

fn particle_at(x: f64, y: f64) -> DemoParticle {
    DemoParticle::new(ppose(x, y))
}

fn fix_at(x: f64, y: f64) -> GPSMeasurement {
    GPSMeasurement {
        loc: Vec2 { x: pfx(x), y: pfx(y) },
        covar: Matrix2::identity(),
    }
}

#[test]
fn zero_sized_construction_is_rejected() {
    let r = ParticleFilter::new(0, || particle_at(0.0, 0.0));
    assert!(matches!(r, Err(FilterError::ZeroTargetSize)));
}

#[test]
fn construction_runs_the_factory_per_particle() {
    let pf = ParticleFilter::new(37, || particle_at(1.0, 2.0)).unwrap();
    assert_eq!(pf.size(), 37);
    assert_eq!(pf.target_size(), 37);
    assert_eq!(pf.weights().len(), 0);
    for p in pf.particles().iter() {
        assert_eq!(*p, particle_at(1.0, 2.0));
    }
}

#[test]
fn measurement_update_restores_the_target_size() {
    let mut pf = ParticleFilter::new(60, || particle_at(0.0, 0.0)).unwrap();
    pf.measurement_update(&fix_at(0.1, -0.2)).unwrap();
    assert_eq!(pf.particles().len(), pf.target_size());
    // resizing takes effect at the next correction step
    pf.set_target_size(25);
    assert_eq!(pf.size(), 60);
    pf.measurement_update(&fix_at(0.1, -0.2)).unwrap();
    assert_eq!(pf.particles().len(), 25);
    assert_eq!(pf.target_size(), 25);
}

#[test]
fn single_supported_particle_takes_over_the_ensemble() {
    let near = particle_at(0.0, 0.0);
    let ensemble = vec![
        near,
        particle_at(100.0, 0.0),
        particle_at(0.0, 100.0),
        particle_at(-100.0, -100.0),
    ];
    let mut pf = ParticleFilter::from_particles(100, ResamplePolicy::WeightedIndex, ensemble);
    pf.measurement_update(&fix_at(0.0, 0.0)).unwrap();
    assert_eq!(pf.particles().len(), 100);
    let ws = pf.weights();
    assert!(ws[0] > 0);
    assert_eq!(ws[1], 0);
    assert_eq!(ws[2], 0);
    assert_eq!(ws[3], 0);
    for p in pf.particles().iter() {
        assert_eq!(*p, near);
    }
}

#[test]
fn all_zero_weights_are_a_recoverable_error() {
    let ensemble = vec![particle_at(100.0, 0.0), particle_at(0.0, 100.0)];
    let mut pf = ParticleFilter::from_particles(50, ResamplePolicy::WeightedIndex, ensemble);
    let r = pf.measurement_update(&fix_at(0.0, 0.0));
    assert_eq!(r, Err(FilterError::DegenerateWeights));
    // the ensemble is intact, not emptied or malformed
    assert_eq!(pf.size(), 2);
    assert_eq!(pf.particles()[0], particle_at(100.0, 0.0));
    // the low-variance policy reports the same degeneracy
    let ensemble2 = vec![particle_at(100.0, 0.0), particle_at(0.0, 100.0)];
    let mut pf2 = ParticleFilter::from_particles(50, ResamplePolicy::LowVariance, ensemble2);
    assert_eq!(pf2.measurement_update(&fix_at(0.0, 0.0)), Err(FilterError::DegenerateWeights));
}

fn ring_ensemble() -> Vec<DemoParticle> {
    vec![
        particle_at(1.0, 0.0),
        particle_at(0.0, 1.0),
        particle_at(-1.0, 0.0),
        particle_at(0.0, -1.0),
    ]
}

fn counts_after_resample(policy: ResamplePolicy, target: usize) -> [usize; 4] {
    let ring = ring_ensemble();
    let mut pf = ParticleFilter::from_particles(target, policy, ring.clone());
    pf.measurement_update(&fix_at(0.0, 0.0)).unwrap();
    let mut counts = [0usize; 4];
    for p in pf.particles().iter() {
        let idx = ring.iter().position(|q| *q == *p).unwrap();
        counts[idx] += 1;
    }
    counts
}

#[test]
fn low_variance_resampling_splits_uniform_weights_evenly() {
    let counts = counts_after_resample(ResamplePolicy::LowVariance, 400);
    for &c in &counts {
        assert!(90 <= c && c <= 110, "count {c}");
    }
}

#[test]
fn low_variance_resampling_has_lower_count_variance() {
    let trials = 40usize;
    let target = 400usize;
    let mut dev_lv: f64 = 0.0;
    let mut dev_wi: f64 = 0.0;
    for _ in 0..trials {
        for &c in &counts_after_resample(ResamplePolicy::LowVariance, target) {
            let d = c as f64 - 100.0;
            dev_lv += d * d;
        }
        for &c in &counts_after_resample(ResamplePolicy::WeightedIndex, target) {
            let d = c as f64 - 100.0;
            dev_wi += d * d;
        }
    }
    assert!(
        dev_lv < dev_wi,
        "systematic resampling varied more ({dev_lv}) than independent draws ({dev_wi})"
    );
}

#[test]
fn state_update_advances_every_particle() {
    let model = OdometryModel2D::new(
        OdometryNoise::default(),
        OdoMotionBuilder2D::with_threshold(pfx(0.1)),
    );
    let update = OdoUpdate2D::new(ppose(0.0, 0.0), ppose(1.0, 0.0), pfx(1.0));
    let belief = model.get_motion_model(&update);
    let mut pf = ParticleFilter::new(20, || particle_at(2.0, 3.0)).unwrap();
    pf.state_update(&belief);
    assert_eq!(pf.size(), 20);
    for p in pf.particles().iter() {
        let x = p.pose.loc.x.raw as f64 / 65536.0;
        let y = p.pose.loc.y.raw as f64 / 65536.0;
        assert!((x - 3.0).abs() < 0.02, "moved to x {x}");
        assert!((y - 3.0).abs() < 0.02, "moved to y {y}");
    }
    // weights are untouched by the prediction step
    assert_eq!(pf.weights().len(), 0);
}
