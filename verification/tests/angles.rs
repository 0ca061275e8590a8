use raycasting_term::angles::{get_normalized_radians_angle, relative_angle, FX_PI, FX_TAU};

const SCALE: f64 = 281474976710656.0;

fn fx(v: f64) -> i64 {
    (v * SCALE).round() as i64
}

fn to_f64(v: i64) -> f64 {
    v as f64 / SCALE
}

#[test]
fn test_get_normalized_radians_angle() {
    let abs_difference = (to_f64(get_normalized_radians_angle(fx(0_f64.to_radians()))) - 0_f64.to_radians())
        .abs();
    assert!(abs_difference < 1e-10);

    let abs_difference = (to_f64(get_normalized_radians_angle(fx(1_f64.to_radians()))) - 1_f64.to_radians())
        .abs();
    assert!(abs_difference < 1e-10);

    let abs_difference = (to_f64(get_normalized_radians_angle(fx(359_f64.to_radians()))) - 359_f64.to_radians())
        .abs();
    assert!(abs_difference < 1e-10);

    let abs_difference = (to_f64(get_normalized_radians_angle(fx(360_f64.to_radians()))) - 0_f64.to_radians())
        .abs();
    assert!(abs_difference < 1e-10);

    let abs_difference = (to_f64(get_normalized_radians_angle(fx(361_f64.to_radians()))) - 1_f64.to_radians())
        .abs();
    assert!(abs_difference < 1e-10);

    let abs_difference = (to_f64(get_normalized_radians_angle(fx((-1_f64).to_radians())))
        - 359_f64.to_radians()).abs();
    assert!(abs_difference < 1e-10);

    let abs_difference = (to_f64(get_normalized_radians_angle(fx((-359_f64).to_radians())))
        - 1_f64.to_radians()).abs();
    assert!(abs_difference < 1e-10);

    let abs_difference = (to_f64(get_normalized_radians_angle(fx((-360_f64).to_radians())))
        - 0_f64.to_radians()).abs();
    assert!(abs_difference < 1e-10);

    let abs_difference = (to_f64(get_normalized_radians_angle(fx((-361_f64).to_radians())))
        - 359_f64.to_radians()).abs();
    assert!(abs_difference < 1e-10);
}

#[test]
fn normalize_is_idempotent_and_in_range() {
    let samples = vec![
        0i64,
        1,
        -1,
        fx(1.0),
        fx(-1.0),
        fx(3.0),
        fx(7.0),
        fx(-7.0),
        fx(100.5),
        fx(-100.5),
        i64::MAX,
        i64::MIN,
        FX_TAU,
        -FX_TAU,
        FX_PI,
    ];
    for a in samples {
        let n = get_normalized_radians_angle(a);
        assert!(0 <= n && n < FX_TAU);
        assert_eq!(get_normalized_radians_angle(n), n);
    }
}

#[test]
fn normalize_is_periodic() {
    let samples = vec![0i64, 17, fx(1.25), fx(-2.5), fx(6.0)];
    for a in samples {
        for k in [-3i64, -1, 1, 2, 5] {
            assert_eq!(get_normalized_radians_angle(a + k * FX_TAU), get_normalized_radians_angle(a));
        }
    }
    // The 361-degree example: one turn more than 359 degrees lands on
    // (nearly) the same normalized angle.
    let one_deg = fx(1_f64.to_radians());
    let close = (get_normalized_radians_angle(-(359 * one_deg)) - get_normalized_radians_angle(361 * one_deg)).abs();
    assert!(to_f64(close) < 1e-9);
}

#[test]
fn relative_angle_wraps_into_signed_half_turn() {
    // A bearing just clockwise of the facing comes out slightly negative.
    let r = relative_angle(fx(0.1), fx(0.2));
    assert!((to_f64(r) - (-0.1)).abs() < 1e-9);
    // A bearing across the wrap-around seam stays small.
    let r = relative_angle(fx(0.05), fx(6.25));
    assert!(-FX_PI <= r && r < FX_PI);
    assert!((to_f64(r) - (0.05 + std::f64::consts::TAU - 6.25)).abs() < 1e-9);
    // An opposite bearing maps to the lower end of the range.
    let r = relative_angle(FX_PI, 0);
    assert_eq!(r, -FX_PI);
}
