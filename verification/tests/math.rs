use third_person_camera::math::{
    clamp_i64, cos_fx, lerp_i64, norm_angle, rotate_vec, sin_fx, Orientation, Vec3Fx, HALF_PI_FP,
    PI_FP, SCALE, TWO_PI_FP,
};

#[test]
fn clamp_within_below_above() {
    assert_eq!(clamp_i64(5, 0, 10), 5);
    assert_eq!(clamp_i64(-3, 0, 10), 0);
    assert_eq!(clamp_i64(42, 0, 10), 10);
}

#[test]
fn norm_angle_wraps_both_ways() {
    assert_eq!(norm_angle(0), 0);
    assert_eq!(norm_angle(TWO_PI_FP), 0);
    assert_eq!(norm_angle(TWO_PI_FP + 7), 7);
    assert_eq!(norm_angle(-1_570_796), TWO_PI_FP - 1_570_796);
    assert_eq!(norm_angle(-TWO_PI_FP), 0);
}

#[test]
fn lerp_endpoints_and_midpoint() {
    assert_eq!(lerp_i64(0, 10, 0), 0);
    assert_eq!(lerp_i64(0, 10, SCALE), 10);
    assert_eq!(lerp_i64(0, 10, SCALE / 2), 5);
    assert_eq!(lerp_i64(10, 0, SCALE / 2), 5);
    assert_eq!(lerp_i64(-1_000_000, 1_000_000, SCALE / 2), 0);
}

#[test]
fn trig_identity_values() {
    assert_eq!(sin_fx(0), 0);
    assert_eq!(cos_fx(0), SCALE);
}

#[test]
fn trig_quarter_turn_is_close() {
    let s = sin_fx(HALF_PI_FP);
    assert!(s > SCALE - 10_000 && s <= SCALE, "sin(pi/2) = {s}");
    let c = cos_fx(HALF_PI_FP);
    assert!(c < 25_000, "cos(pi/2) = {c}");
    // at pi the quadrant reduction hands the polynomials a zero argument,
    // so the values are exact
    assert_eq!(sin_fx(PI_FP), 0);
    assert_eq!(cos_fx(PI_FP), -SCALE);
}

#[test]
fn trig_periodic_and_symmetric() {
    for a in [1_000_000i64, 2_500_000, 4_000_000, 6_000_000] {
        // normalization is an exact remainder, so a full turn changes nothing
        assert_eq!(sin_fx(a), sin_fx(a + TWO_PI_FP));
        assert_eq!(cos_fx(a), cos_fx(a + TWO_PI_FP));
        // TWO_PI_FP rounds separately from PI_FP, so mirroring an angle may
        // land one unit off in the reduced argument
        assert!((cos_fx(a) - cos_fx(-a)).abs() <= 5);
        assert!((sin_fx(a) + sin_fx(-a)).abs() <= 5);
    }
}

#[test]
fn rotate_by_identity_returns_vector() {
    let o = Orientation::identity();
    let v = Vec3Fx { x: 3_000_000, y: -4_000_000, z: 5_000_000 };
    let r = rotate_vec(&o, &v);
    assert_eq!(r, v);
}

#[test]
fn rotate_half_turn_yaw_negates_x_and_z() {
    let o = Orientation { yaw: PI_FP, pitch: 0, roll: 0 };
    let v = Vec3Fx { x: 1_000_000, y: 2_000_000, z: -3_000_000 };
    let r = rotate_vec(&o, &v);
    // sin(pi) is exactly 0 and cos(pi) exactly -1 here, so the half turn
    // flips X and Z exactly and keeps Y.
    assert_eq!(r, Vec3Fx { x: -v.x, y: v.y, z: -v.z });
}
