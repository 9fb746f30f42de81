use slamdemo::fixed::Fix;
use slamdemo::math::{Vec2, Matrix2};
use slamdemo::prob::{Gaussian, Gaussian2D};
use slamdemo::rng::fresh_rng;

fn gfx(v: f64) -> Fix {
    Fix { raw: (v * 65536.0).round() as i64 }
}

fn gf64(x: Fix) -> f64 {
    x.raw as f64 / 65536.0
}

#[test]
fn gaussian_accessors_and_variance() {
    let g = Gaussian::new(gfx(2.0), gfx(1.5));
    assert_eq!(gf64(g.mean()), 2.0);
    assert_eq!(gf64(g.std_dev()), 1.5);
    assert_eq!(gf64(g.variance()), 2.25);
}

#[test]
fn ten_thousand_samples_match_the_moments() {
    let mut rng = fresh_rng();
    let g = Gaussian::new(gfx(2.0), gfx(1.5));
    let n = 10000usize;
    let mut sum = 0.0f64;
    let mut sum_sq = 0.0f64;
    for _ in 0..n {
        let v = gf64(g.sample(&mut rng));
        sum += v;
        sum_sq += v * v;
    }
    let mean = sum / n as f64;
    let var = sum_sq / n as f64 - mean * mean;
    let std = var.sqrt();
    // a few sigma/sqrt(N) around the center, a few percent on the spread
    assert!((mean - 2.0).abs() < 0.1, "empirical mean {mean}");
    assert!((std - 1.5).abs() < 0.08, "empirical std {std}");
}

#[test]
fn scalar_density_matches_the_closed_form() {
    let g = Gaussian::new(gfx(0.0), gfx(1.0));
    let p0 = gf64(g.probability_density(gfx(0.0)));
    assert!((p0 - 0.39894).abs() < 0.005, "pdf(0) {p0}");
    let p1 = gf64(g.probability_density(gfx(1.0)));
    assert!((p1 - 0.24197).abs() < 0.005, "pdf(1) {p1}");
    let far = g.probability_density(gfx(30.0));
    assert_eq!(far.raw, 0);
}

#[test]
fn fusing_two_equal_beliefs_averages_them() {
    let g1 = Gaussian::new(gfx(0.0), gfx(1.0));
    let g2 = Gaussian::new(gfx(1.0), gfx(1.0));
    let f = g1.fuse(&g2);
    assert_eq!(f.mean().raw, 32768);
    // harmonic variance 0.5, spread sqrt(0.5), floored
    assert_eq!(f.std_dev().raw, 46340);
}

#[test]
fn fusion_trusts_the_sharper_belief_more() {
    let sharp = Gaussian::new(gfx(0.0), gfx(0.5));
    let broad = Gaussian::new(gfx(4.0), gfx(2.0));
    let f = sharp.fuse(&broad);
    let m = gf64(f.mean());
    assert!((m - 4.0 / 17.0).abs() < 0.01, "fused mean {m}");
    assert!(gf64(f.std_dev()) < 0.5);
}

#[test]
fn isotropic_covariance_from_spreads() {
    let g = Gaussian2D::from_std_dev_rotation(
        Vec2 { x: gfx(0.0), y: gfx(0.0) },
        Vec2 { x: gfx(2.0), y: gfx(2.0) },
        gfx(0.0),
    );
    let cv = g.covariance();
    assert!((gf64(cv.a.x) - 4.0).abs() < 0.01);
    assert!((gf64(cv.b.y) - 4.0).abs() < 0.01);
    assert_eq!(cv.a.y.raw, cv.b.x.raw);
    assert!(gf64(cv.a.y).abs() < 0.01);
}

#[test]
fn rotated_covariance_stays_symmetric() {
    let g = Gaussian2D::from_std_dev_rotation(
        Vec2 { x: gfx(1.0), y: gfx(-2.0) },
        Vec2 { x: gfx(3.0), y: gfx(0.5) },
        gfx(0.8),
    );
    let cv = g.covariance();
    assert_eq!(cv.a.y.raw, cv.b.x.raw);
    // compare against the real closed form
    let (c, s) = (0.8f64.cos(), 0.8f64.sin());
    let (vx, vy) = (9.0f64, 0.25f64);
    assert!((gf64(cv.a.x) - (c * c * vx + s * s * vy)).abs() < 0.05);
    assert!((gf64(cv.b.y) - (s * s * vx + c * c * vy)).abs() < 0.05);
    assert!((gf64(cv.a.y) - (c * s * (vx - vy))).abs() < 0.05);
}

#[test]
fn bivariate_density_peak_value() {
    let g = Gaussian2D::new(
        Vec2 { x: gfx(0.0), y: gfx(0.0) },
        Matrix2::identity(),
    );
    let p = gf64(g.probability_density(Vec2 { x: gfx(0.0), y: gfx(0.0) }));
    assert!((p - 1.0 / (2.0 * std::f64::consts::PI)).abs() < 0.005, "pdf {p}");
    let off = gf64(g.probability_density(Vec2 { x: gfx(1.0), y: gfx(1.0) }));
    assert!((off - 0.05855).abs() < 0.005, "pdf(1,1) {off}");
}

#[test]
fn bivariate_samples_cluster_near_the_center() {
    let mut rng = fresh_rng();
    let g = Gaussian2D::new(
        Vec2 { x: gfx(3.0), y: gfx(-1.0) },
        Matrix2::identity(),
    );
    let n = 4000usize;
    let mut sx = 0.0f64;
    let mut sy = 0.0f64;
    for _ in 0..n {
        let v = g.sample(&mut rng).unwrap();
        sx += gf64(v.x);
        sy += gf64(v.y);
    }
    assert!((sx / n as f64 - 3.0).abs() < 0.15);
    assert!((sy / n as f64 + 1.0).abs() < 0.15);
}

#[test]
fn degenerate_covariance_still_samples_after_regularization() {
    let mut rng = fresh_rng();
    let g = Gaussian2D::new(
        Vec2 { x: gfx(0.0), y: gfx(0.0) },
        Matrix2::zero(),
    );
    // the one-raw-unit regularization makes the zero matrix factorable
    let v = g.sample(&mut rng).unwrap();
    assert!(gf64(v.x).abs() < 0.1);
    assert!(gf64(v.y).abs() < 0.1);
}
