use fea_engine::ramp::MotionProfiles;
use fea_engine::ramp::ProfileEval;
use fea_engine::ramp::RampProfile;
use fea_engine::ramp::SCALE;

#[test]
fn quintic_boundary_values() {
    let at0 = MotionProfiles::eval(RampProfile::S5, 0);
    assert_eq!(at0.s, 0);
    assert_eq!(at0.ds, 0);
    assert_eq!(at0.d2s, 0);
    let at1 = MotionProfiles::eval(RampProfile::S5, SCALE);
    assert_eq!(at1.s, SCALE as i64);
    assert_eq!(at1.ds, 0);
    assert_eq!(at1.d2s, 0);
}

#[test]
fn quintic_midpoint_values() {
    let mid = MotionProfiles::eval(RampProfile::S5, 5000);
    assert_eq!(mid.s, 5000);
    assert_eq!(mid.ds, 18750);
    assert_eq!(mid.d2s, 0);
}

#[test]
fn septic_boundary_values() {
    let at0 = MotionProfiles::eval(RampProfile::S7, 0);
    assert_eq!(at0.s, 0);
    assert_eq!(at0.ds, 0);
    assert_eq!(at0.d2s, 0);
    let at1 = MotionProfiles::eval(RampProfile::S7, SCALE);
    assert_eq!(at1.s, SCALE as i64);
    assert_eq!(at1.ds, 0);
    assert_eq!(at1.d2s, 0);
}

#[test]
fn septic_midpoint_values() {
    let mid = MotionProfiles::eval(RampProfile::S7, 5000);
    assert_eq!(mid.s, 5000);
    // ds/dt at the midpoint is 140 / 2^6 = 2.1875.
    assert_eq!(mid.ds, 21875);
    assert_eq!(mid.d2s, 0);
}

#[test]
fn cycloidal_boundary_values() {
    let at0 = MotionProfiles::eval(RampProfile::Cycloidal, 0);
    assert_eq!(at0.s, 0);
    assert_eq!(at0.ds, 0);
    let at1 = MotionProfiles::eval(RampProfile::Cycloidal, SCALE);
    assert_eq!(at1.s, SCALE as i64);
    assert_eq!(at1.ds, 0);
}

#[test]
fn cycloidal_interior_shape() {
    let quarter = MotionProfiles::eval(RampProfile::Cycloidal, 2500);
    let mid = MotionProfiles::eval(RampProfile::Cycloidal, 5000);
    let three_quarter = MotionProfiles::eval(RampProfile::Cycloidal, 7500);
    assert!(quarter.s < mid.s && mid.s < three_quarter.s);
    assert!(quarter.ds > 0 && mid.ds > 0 && three_quarter.ds > 0);
    // The acceleration changes sign across the midpoint.
    assert!(quarter.d2s > 0);
    assert!(three_quarter.d2s < 0);
    // s(1/2) is close to one half; the fixed Taylor tail keeps it within a
    // few units of the scale.
    assert!((mid.s - 5000).abs() <= 5);
}

#[test]
fn third_derivative_end_values_order_the_shapes() {
    assert_eq!(MotionProfiles::d3s(RampProfile::S7, 0), 0);
    assert_eq!(MotionProfiles::d3s(RampProfile::S7, SCALE), 0);
    assert_eq!(MotionProfiles::d3s(RampProfile::S5, 0), 60 * SCALE as i64);
    assert_eq!(MotionProfiles::d3s(RampProfile::S5, SCALE), 60 * SCALE as i64);
    assert_eq!(MotionProfiles::d3s(RampProfile::Cycloidal, 0), 0);
}

#[test]
fn every_ramp_integral_is_one_half() {
    assert_eq!(MotionProfiles::integral(RampProfile::S5, SCALE), SCALE / 2);
    assert_eq!(MotionProfiles::integral(RampProfile::S7, SCALE), SCALE / 2);
    assert_eq!(
        MotionProfiles::integral(RampProfile::Cycloidal, SCALE),
        SCALE / 2
    );
    assert_eq!(MotionProfiles::integral(RampProfile::S5, 0), 0);
    assert_eq!(MotionProfiles::integral(RampProfile::S7, 0), 0);
    assert_eq!(MotionProfiles::integral(RampProfile::Cycloidal, 0), 0);
}

#[test]
fn arguments_beyond_the_ramp_are_clamped() {
    let clamped = MotionProfiles::eval(RampProfile::S5, 25000);
    let end = MotionProfiles::eval(RampProfile::S5, SCALE);
    assert_eq!(clamped, end);
    assert_eq!(
        MotionProfiles::integral(RampProfile::S7, 99999),
        MotionProfiles::integral(RampProfile::S7, SCALE)
    );
}

#[test]
fn default_profile_is_the_quintic() {
    assert_eq!(RampProfile::default(), RampProfile::S5);
}

#[test]
fn profile_eval_positions_stay_in_the_unit_interval() {
    for profile in [RampProfile::S5, RampProfile::S7, RampProfile::Cycloidal] {
        for t in (0..=100).map(|k| k * 100) {
            let ProfileEval { s, ds, .. } = MotionProfiles::eval(profile, t);
            assert!(0 <= s && s <= SCALE as i64);
            assert!(ds >= 0);
        }
    }
}
