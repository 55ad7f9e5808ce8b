use weather_service::position::{coords_close, Pos};

fn close_f32(a: f32, b: f32) -> bool {
    coords_close(a.to_bits(), b.to_bits())
}

/// The verified integer comparison agrees with the floating-point epsilon
/// test on coordinate-like values. (The two can part only where rounding
/// the subtraction crosses the epsilon boundary; see
/// `comparison_is_exact_at_the_boundary`.)
#[test]
fn comparator_matches_float_epsilon_test() {
    let samples: [f32; 15] = [
        0.0,
        -0.0,
        1.0,
        -1.0,
        1.0 + f32::EPSILON,
        1.0 - f32::EPSILON,
        41.85003,
        -87.65005,
        55.75222,
        37.61556,
        f32::EPSILON,
        -f32::EPSILON,
        0.5 * f32::EPSILON,
        179.99998,
        -179.99998,
    ];
    for &a in samples.iter() {
        for &b in samples.iter() {
            let float_says = (a - b).abs() <= f32::EPSILON;
            assert_eq!(
                close_f32(a, b),
                float_says,
                "disagreement on ({a}, {b})"
            );
        }
    }
}

#[test]
fn identical_coordinates_are_close() {
    assert!(close_f32(41.85003, 41.85003));
    assert!(close_f32(-87.65005, -87.65005));
    assert!(close_f32(0.0, -0.0));
}

#[test]
fn epsilon_neighbours_are_close() {
    assert!(close_f32(1.0, 1.0 + f32::EPSILON));
    assert!(close_f32(1.0 + f32::EPSILON, 1.0));
    assert!(close_f32(1.0, 1.0 - f32::EPSILON));
}

#[test]
fn distant_coordinates_are_not_close() {
    assert!(!close_f32(1.0, 1.0 + 3.0 * f32::EPSILON));
    assert!(!close_f32(41.85003, 41.85103));
    assert!(!close_f32(41.85003, -41.85003));
    assert!(!close_f32(55.75222, 37.61556));
}

#[test]
fn positions_compare_componentwise() {
    let a = Pos::new(41.85003f32.to_bits(), (-87.65005f32).to_bits());
    let b = Pos::new(41.85003f32.to_bits(), (-87.65005f32).to_bits());
    let c = Pos::new(41.85003f32.to_bits(), 37.61556f32.to_bits());
    assert!(a.close_to(&b));
    assert!(b.close_to(&a));
    assert!(!a.close_to(&c));
    assert_eq!(a.as_bits(), (41.85003f32.to_bits(), (-87.65005f32).to_bits()));
}

/// The comparison is exact: a pair whose true difference is a hair above
/// epsilon is apart, even though floating-point subtraction would round
/// that difference to exactly epsilon and call the pair close.
#[test]
fn comparison_is_exact_at_the_boundary() {
    let a = -f32::EPSILON;
    let b = 1.0e-30f32;
    // The rounded difference sits exactly on the boundary ...
    assert!((a - b).abs() <= f32::EPSILON);
    // ... but the true difference is epsilon plus 1e-30.
    assert!(!close_f32(a, b));
    assert!(!close_f32(b, a));
}
