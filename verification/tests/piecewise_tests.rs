use fea_engine::piecewise::trapezoid_displacement2;
use fea_engine::piecewise::wrap_full_turn;
use fea_engine::ramp::RampProfile;
use fea_engine::piecewise::Segment;
use fea_engine::piecewise::SegmentLayout;
use fea_engine::piecewise::FULL_TURN_MDEG;

fn standard_layout() -> SegmentLayout {
    // Dwells of 20 degrees and ramps of 10 degrees, in millidegrees.
    SegmentLayout::new(20000, 20000, 10000, 10000, 10000, 10000)
}

#[test]
fn layout_boundaries_center_the_bottom_dwell() {
    let layout = standard_layout();
    assert_eq!(layout.b1, 20000);
    assert_eq!(layout.b2, 30000);
    assert_eq!(layout.b3, 160000);
    assert_eq!(layout.b4, 170000);
    assert_eq!(layout.b5, 190000);
    assert_eq!(layout.b6, 200000);
    assert_eq!(layout.b7, 350000);
    assert_eq!(layout.b8, 360000);
}

#[test]
fn segment_dispatch_follows_the_machine_order() {
    let layout = standard_layout();
    assert_eq!(layout.segment_at(0), Segment::TdcDwell);
    assert_eq!(layout.segment_at(19999), Segment::TdcDwell);
    assert_eq!(layout.segment_at(20000), Segment::RampAfterTdc);
    assert_eq!(layout.segment_at(100000), Segment::ConstVUp);
    assert_eq!(layout.segment_at(165000), Segment::RampBeforeBdc);
    assert_eq!(layout.segment_at(180000), Segment::BdcDwell);
    assert_eq!(layout.segment_at(195000), Segment::RampAfterBdc);
    assert_eq!(layout.segment_at(250000), Segment::ConstVDown);
    assert_eq!(layout.segment_at(355000), Segment::RampBeforeTdc);
    assert_eq!(layout.segment_at(359999), Segment::RampBeforeTdc);
}

#[test]
fn constant_velocity_spans_match_the_boundaries() {
    let layout = standard_layout();
    assert_eq!(layout.constant_velocity_spans(), (130000, 150000));
    // Overlapping boundaries clamp the span at zero.
    let tight = SegmentLayout::new(170000, 20000, 10000, 10000, 10000, 10000);
    assert_eq!(tight.constant_velocity_spans().0, 0);
}

#[test]
fn wrap_uses_the_nonnegative_modulo() {
    assert_eq!(wrap_full_turn(0), 0);
    assert_eq!(wrap_full_turn(90000), 90000);
    assert_eq!(wrap_full_turn(360000), 0);
    assert_eq!(wrap_full_turn(370000), 10000);
    assert_eq!(wrap_full_turn(-90000), 270000);
    assert_eq!(wrap_full_turn(-360000), 0);
    assert_eq!(wrap_full_turn(-370000), 350000);
    for x in [-720001i64, -1, 1, 719999] {
        assert!(wrap_full_turn(x) < FULL_TURN_MDEG);
    }
}

#[test]
fn velocity_dispatch_covers_all_segments() {
    let layout = standard_layout();
    let p = RampProfile::S5;
    // Dwells are at rest; constant strokes carry the full magnitudes.
    assert_eq!(layout.velocity_at(p, 10000, 20000, 0), 0);
    assert_eq!(layout.velocity_at(p, 10000, 20000, 180000), 0);
    assert_eq!(layout.velocity_at(p, 10000, 20000, 100000), 10000);
    assert_eq!(layout.velocity_at(p, 10000, 20000, 250000), -20000);
    // Ramp midpoints shape the velocity with the quintic midpoint value.
    assert_eq!(layout.velocity_at(p, 10000, 20000, 25000), 5000);
    assert_eq!(layout.velocity_at(p, 10000, 20000, 165000), 5000);
    assert_eq!(layout.velocity_at(p, 10000, 20000, 195000), -10000);
    assert_eq!(layout.velocity_at(p, 10000, 20000, 355000), -10000);
}

#[test]
fn trapezoid_accumulates_doubled_areas() {
    let v: Vec<i64> = vec![0, 10, 20, 10];
    assert_eq!(trapezoid_displacement2(&v, 100), vec![0, 1000, 4000, 7000]);
    assert_eq!(trapezoid_displacement2(&vec![5], 100), vec![0]);
    // A negative stroke integrates downward and back.
    let w: Vec<i64> = vec![0, -10, 0];
    assert_eq!(trapezoid_displacement2(&w, 10), vec![0, -100, -200]);
}

#[test]
fn stroke_denominators_double_the_ramp_halves() {
    let layout = standard_layout();
    // Up: 10 + 2 * 130 + 10 degrees; down: 10 + 2 * 150 + 10 degrees.
    assert_eq!(layout.stroke_denominators2(), (280000, 320000));
}
