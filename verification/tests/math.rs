use ecosim::fixed::{bearing_sin, clamp_i64, cos_fp, dist_milli, floor_div, isqrt, norm_angle, sdiv, sin_fp, tanh_fp};

#[test]
fn isqrt_small_values() {
    assert_eq!(isqrt(0), 0);
    assert_eq!(isqrt(1), 1);
    assert_eq!(isqrt(2), 1);
    assert_eq!(isqrt(3), 1);
    assert_eq!(isqrt(4), 2);
    assert_eq!(isqrt(144), 12);
    assert_eq!(isqrt(145), 12);
}

#[test]
fn isqrt_is_exact_floor_root() {
    for &n in &[
        5i64,
        99,
        1_000_000,
        123_456_789,
        20_000_000_000_000_000,
        4_000_000_000_000_000_000,
    ] {
        let r = isqrt(n);
        assert!(r >= 0);
        assert!(r.checked_mul(r).unwrap() <= n);
        assert!((r + 1).checked_mul(r + 1).unwrap() > n);
    }
}

#[test]
fn dist_is_rounded_euclidean() {
    assert_eq!(dist_milli(0, 0, 3000, 4000), 5000);
    assert_eq!(dist_milli(100, 200, 100, 200), 0);
    // sqrt(2) * 1000, rounded down
    assert_eq!(dist_milli(0, 0, 1000, 1000), 1414);
}

#[test]
fn sdiv_truncates_toward_zero() {
    assert_eq!(sdiv(7, 2), 3);
    assert_eq!(sdiv(-7, 2), -3);
    assert_eq!(sdiv(0, 5), 0);
    assert_eq!(sdiv(-1, 1000), 0);
}

#[test]
fn floor_div_rounds_down() {
    assert_eq!(floor_div(7, 2), 3);
    assert_eq!(floor_div(-7, 2), -4);
    assert_eq!(floor_div(-4, 2), -2);
    assert_eq!(floor_div(-1, 100_000), -1);
    assert_eq!(floor_div(99_999, 100_000), 0);
}

#[test]
fn clamp_behaves() {
    assert_eq!(clamp_i64(5, 0, 10), 5);
    assert_eq!(clamp_i64(-5, 0, 10), 0);
    assert_eq!(clamp_i64(15, 0, 10), 10);
}

#[test]
fn norm_angle_wraps_one_turn() {
    assert_eq!(norm_angle(0), 0);
    assert_eq!(norm_angle(-200), 6083);
    assert_eq!(norm_angle(6283), 0);
    assert_eq!(norm_angle(6483), 200);
}

#[test]
fn sine_tracks_the_real_sine() {
    let mut a: i64 = 0;
    while a < 6283 {
        let approx = sin_fp(a) as f64 / 1000.0;
        let exact = (a as f64 / 1000.0).sin();
        assert!(
            (approx - exact).abs() < 0.06,
            "sin mismatch at {}: {} vs {}",
            a,
            approx,
            exact
        );
        a += 37;
    }
}

#[test]
fn cosine_tracks_the_real_cosine() {
    let mut a: i64 = 0;
    while a < 6283 {
        let approx = cos_fp(a) as f64 / 1000.0;
        let exact = (a as f64 / 1000.0).cos();
        assert!(
            (approx - exact).abs() < 0.06,
            "cos mismatch at {}: {} vs {}",
            a,
            approx,
            exact
        );
        a += 41;
    }
}

#[test]
fn tanh_tracks_the_real_tanh() {
    let mut x: i64 = -6000;
    while x <= 6000 {
        let approx = tanh_fp(x) as f64 / 1000.0;
        let exact = (x as f64 / 1000.0).tanh();
        assert!(
            (approx - exact).abs() < 0.05,
            "tanh mismatch at {}: {} vs {}",
            x,
            approx,
            exact
        );
        x += 53;
    }
    assert_eq!(tanh_fp(0), 0);
    assert_eq!(tanh_fp(1_000_000), 1000);
    assert_eq!(tanh_fp(-1_000_000), -1000);
}

#[test]
fn bearing_sine_of_target_straight_left_of_heading() {
    // Heading along the x axis (sin 0, cos 999 in milli-units), target
    // straight "up": the bearing is a quarter turn, its sine nearly one.
    let r = bearing_sin(0, 5000, 5000, 0, 999);
    assert_eq!(r, 999);
    // Target straight ahead: bearing sine zero.
    let r = bearing_sin(5000, 0, 5000, 0, 999);
    assert_eq!(r, 0);
    // Zero offset falls back to the negated heading sine.
    let r = bearing_sin(0, 0, 0, 500, 866);
    assert_eq!(r, -500);
}
