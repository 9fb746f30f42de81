use slamdemo::fixed::{Fix, fx_add, fx_sub, fx_mul, fx_div, fx_neg, fx_abs, fx_sqrt, isqrt_u128, wrap,
    FX_PI, FX_QUARTER_PI, FX_SCALE};
use slamdemo::kernels::{sin_fx, cos_fx, atan2_fx, exp_neg_fx};
use slamdemo::math::{Vec2, Matrix2, MatrixError};

fn fx_of(v: f64) -> Fix {
    Fix { raw: (v * 65536.0).round() as i64 }
}

fn to_f64(x: Fix) -> f64 {
    x.raw as f64 / 65536.0
}

#[test]
fn fixed_arithmetic_exact() {
    let a = fx_of(1.5);
    let b = fx_of(2.25);
    assert_eq!(fx_add(a, b).raw, fx_of(3.75).raw);
    assert_eq!(fx_sub(a, b).raw, fx_of(-0.75).raw);
    assert_eq!(fx_mul(a, b).raw, fx_of(3.375).raw);
    assert_eq!(fx_div(b, a).raw, fx_of(1.5).raw);
    assert_eq!(fx_abs(fx_of(-4.0)).raw, fx_of(4.0).raw);
    assert_eq!(fx_neg(fx_of(1.25)).raw, fx_of(-1.25).raw);
    // truncation rounds toward zero on both sides
    assert_eq!(fx_mul(Fix { raw: 3 }, Fix { raw: 3 }).raw, 0);
    assert_eq!(fx_mul(Fix { raw: -3 }, Fix { raw: 3 }).raw, 0);
}

#[test]
fn square_roots_exact() {
    assert_eq!(isqrt_u128(0), 0);
    assert_eq!(isqrt_u128(15), 3);
    assert_eq!(isqrt_u128(16), 4);
    assert_eq!(fx_sqrt(fx_of(4.0)).raw, fx_of(2.0).raw);
    assert_eq!(fx_sqrt(fx_of(0.25)).raw, fx_of(0.5).raw);
    // floor behaviour just below a perfect square
    let r = fx_sqrt(Fix { raw: 2 * 65536 });
    assert!((to_f64(r) - 2.0f64.sqrt()).abs() < 1e-4);
}

#[test]
fn wrap_stays_in_range_for_many_inputs() {
    let lo = Fix { raw: -FX_PI };
    let hi = Fix { raw: FX_PI };
    let mut v: i64 = -2_000_000;
    while v < 2_000_000 {
        let w = wrap(Fix { raw: v }, lo, hi);
        assert!(-FX_PI <= w.raw && w.raw < FX_PI);
        v += 37_891;
    }
}

#[test]
fn wrap_idempotent_and_periodic() {
    let lo = Fix { raw: -FX_PI };
    let hi = Fix { raw: FX_PI };
    let cycle = 2 * FX_PI;
    for &v in &[-987_654i64, -3, 0, 5, 205_886, 205_887, 411_774, 1_234_567] {
        let w = wrap(Fix { raw: v }, lo, hi);
        let ww = wrap(w, lo, hi);
        assert_eq!(w.raw, ww.raw);
        for k in 1..4i64 {
            let shifted = wrap(Fix { raw: v + k * cycle }, lo, hi);
            assert_eq!(shifted.raw, w.raw);
            let shifted_neg = wrap(Fix { raw: v - k * cycle }, lo, hi);
            assert_eq!(shifted_neg.raw, w.raw);
        }
    }
}

#[test]
fn wrap_swapped_and_degenerate_bounds() {
    // reversed bounds are sorted first
    let w = wrap(Fix { raw: 700_000 }, Fix { raw: FX_PI }, Fix { raw: -FX_PI });
    assert!(-FX_PI <= w.raw && w.raw < FX_PI);
    // a zero-width interval folds everything onto the bound
    let z = wrap(Fix { raw: 12345 }, Fix { raw: 42 }, Fix { raw: 42 });
    assert_eq!(z.raw, 42);
}

#[test]
fn sine_and_cosine_track_the_real_functions() {
    let mut worst: f64 = 0.0;
    let mut a = -3.1;
    while a < 3.1 {
        let s = to_f64(sin_fx(fx_of(a)));
        let c = to_f64(cos_fx(fx_of(a)));
        worst = worst.max((s - a.sin()).abs()).max((c - a.cos()).abs());
        a += 0.0137;
    }
    assert!(worst < 0.003, "worst trig error {worst}");
    assert_eq!(sin_fx(Fix { raw: 0 }).raw, 0);
}

#[test]
fn arctangent_tracks_the_real_function() {
    let pts = [(1.0, 0.0), (1.0, 1.0), (0.0, 1.0), (-1.0, 1.0), (-2.0, -0.5), (0.3, -0.9),
        (5.0, 0.01)];
    for &(x, y) in &pts {
        let got = to_f64(atan2_fx(fx_of(y), fx_of(x)));
        let want = (y as f64).atan2(x);
        assert!((got - want).abs() < 0.005, "atan2({y},{x}): {got} vs {want}");
    }
    // exact anchor points
    assert_eq!(atan2_fx(Fix { raw: 0 }, Fix { raw: 65536 }).raw, 0);
    assert_eq!(atan2_fx(Fix { raw: 0 }, Fix { raw: -65536 }).raw, FX_PI);
    assert_eq!(atan2_fx(Fix { raw: 0 }, Fix { raw: 0 }).raw, 0);
    let diag = atan2_fx(Fix { raw: 65536 }, Fix { raw: 65536 });
    assert_eq!(diag.raw, FX_QUARTER_PI);
}

#[test]
fn exponential_kernel_values() {
    assert_eq!(exp_neg_fx(Fix { raw: 0 }).raw, FX_SCALE);
    let e1 = to_f64(exp_neg_fx(fx_of(1.0)));
    assert!((e1 - (-1.0f64).exp()).abs() < 0.004, "exp(-1) {e1}");
    let e3 = to_f64(exp_neg_fx(fx_of(3.5)));
    assert!((e3 - (-3.5f64).exp()).abs() < 0.004, "exp(-3.5) {e3}");
    // past the cutoff everything underflows to zero
    assert_eq!(exp_neg_fx(fx_of(20.0)).raw, 0);
}

#[test]
fn rotation_matrices_are_orthonormal() {
    for &a in &[0.0, 0.4, 1.2, -2.8, 3.0] {
        let m = Matrix2::from_rotation(fx_of(a));
        let det = to_f64(m.determinant());
        assert!((det - 1.0).abs() < 0.005, "det {det} at angle {a}");
        let p = m.dot(&m.transposed());
        assert!((to_f64(p.a.x) - 1.0).abs() < 0.005);
        assert!((to_f64(p.b.y) - 1.0).abs() < 0.005);
        assert!(to_f64(p.a.y).abs() < 0.005);
        assert!(to_f64(p.b.x).abs() < 0.005);
    }
}

#[test]
fn rotation_scale_composition() {
    let m = Matrix2::from_rotation_scale(
        fx_of(0.6),
        Vec2 { x: fx_of(2.0), y: fx_of(3.0) },
    );
    assert!((to_f64(m.a.x) - 2.0 * 0.6f64.cos()).abs() < 0.01);
    assert!((to_f64(m.a.y) - 3.0 * 0.6f64.sin()).abs() < 0.01);
    assert!((to_f64(m.b.x) + 2.0 * 0.6f64.sin()).abs() < 0.01);
    assert!((to_f64(m.b.y) - 3.0 * 0.6f64.cos()).abs() < 0.01);
}

#[test]
fn transpose_is_an_involution() {
    let m = Matrix2 {
        a: Vec2 { x: fx_of(1.0), y: fx_of(2.0) },
        b: Vec2 { x: fx_of(3.0), y: fx_of(4.0) },
    };
    let t = m.transposed();
    assert_eq!(t.a.x.raw, m.a.x.raw);
    assert_eq!(t.a.y.raw, m.b.x.raw);
    assert_eq!(t.b.x.raw, m.a.y.raw);
    assert_eq!(t.b.y.raw, m.b.y.raw);
    let tt = t.transposed();
    assert_eq!(tt, m);
}

#[test]
fn cholesky_of_identity_is_identity() {
    let id = Matrix2::identity();
    let l = id.cholesky().unwrap();
    assert_eq!(l, Matrix2::identity());
}

#[test]
fn cholesky_reconstructs_the_input() {
    let sigma = Matrix2 {
        a: Vec2 { x: fx_of(4.0), y: fx_of(1.0) },
        b: Vec2 { x: fx_of(1.0), y: fx_of(2.0) },
    };
    let l = sigma.cholesky().unwrap();
    assert_eq!(l.b.x.raw, 0);
    let back = l.dot(&l.transposed());
    assert!((to_f64(back.a.x) - 4.0).abs() < 0.01);
    assert!((to_f64(back.a.y) - 1.0).abs() < 0.01);
    assert!((to_f64(back.b.x) - 1.0).abs() < 0.01);
    assert!((to_f64(back.b.y) - 2.0).abs() < 0.01);
}

#[test]
fn cholesky_rejects_bad_matrices() {
    let asym = Matrix2 {
        a: Vec2 { x: fx_of(4.0), y: fx_of(1.0) },
        b: Vec2 { x: fx_of(2.0), y: fx_of(2.0) },
    };
    assert_eq!(asym.cholesky(), Err(MatrixError::NotSymmetric));
    let neg = Matrix2 {
        a: Vec2 { x: fx_of(-1.0), y: fx_of(0.0) },
        b: Vec2 { x: fx_of(0.0), y: fx_of(1.0) },
    };
    assert_eq!(neg.cholesky(), Err(MatrixError::NotPositiveDefinite));
    let indef = Matrix2 {
        a: Vec2 { x: fx_of(1.0), y: fx_of(5.0) },
        b: Vec2 { x: fx_of(5.0), y: fx_of(1.0) },
    };
    assert_eq!(indef.cholesky(), Err(MatrixError::NotPositiveDefinite));
}

#[test]
fn xform_inverse_of_rotation_round_trips() {
    let m = Matrix2::from_rotation(fx_of(0.7));
    let v = Vec2 { x: fx_of(2.0), y: fx_of(-1.0) };
    let w = m.xform(v);
    let back = m.xform_inv(w);
    assert!((to_f64(back.x) - 2.0).abs() < 0.01);
    assert!((to_f64(back.y) + 1.0).abs() < 0.01);
}

#[test]
fn matrix_sums_and_scalar_multiples() {
    let m = Matrix2 {
        a: Vec2 { x: fx_of(1.0), y: fx_of(2.0) },
        b: Vec2 { x: fx_of(-1.0), y: fx_of(0.5) },
    };
    let s = m.added(&m);
    assert_eq!(s.a.x.raw, 2 * m.a.x.raw);
    let d = s.subbed(&m);
    assert_eq!(d, m);
    let k = m.mul_scalar(fx_of(2.0));
    assert_eq!(k.b.y.raw, fx_of(1.0).raw);
    let sc = m.scale();
    assert!(to_f64(sc.x) > 0.0);
}
