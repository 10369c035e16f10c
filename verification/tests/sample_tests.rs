use curve_editor::curve::Curve;
use curve_editor::curve::Interpolation;
use curve_editor::curve::TangentControl;

#[test]
fn linear_midpoint() {
    let mut c = Curve::new();
    c.insert(0, 0, Interpolation::Linear);
    c.insert(1000, 10_000, Interpolation::Linear);
    // t = 0.5 units on a 0..1 segment from 0.0 to 10.0 gives 5.0.
    assert_eq!(c.sample(500), 5_000);
    assert_eq!(c.sample(250), 2_500);
    assert_eq!(c.sample(0), 0);
    assert_eq!(c.sample(1000), 10_000);
}

#[test]
fn step_holds_left_value_until_the_right_keyframe() {
    let mut c = Curve::new();
    c.insert(0, 0, Interpolation::Step);
    c.insert(1000, 10_000, Interpolation::Step);
    // t = 0.999 still returns the left value, t = 1.0 the right one.
    assert_eq!(c.sample(999), 0);
    assert_eq!(c.sample(1000), 10_000);
}

#[test]
fn sampling_clamps_outside_the_keyframe_range() {
    let mut c = Curve::new();
    c.insert(0, 111, Interpolation::Linear);
    c.insert(1000, 222, Interpolation::Linear);
    assert_eq!(c.sample(-5_000), 111);
    assert_eq!(c.sample(0), 111);
    assert_eq!(c.sample(1000), 222);
    assert_eq!(c.sample(99_000), 222);
}

#[test]
fn empty_and_single_keyframe_curves() {
    let c = Curve::new();
    assert_eq!(c.sample(123), 0);
    let mut c1 = Curve::new();
    c1.insert(500, 77, Interpolation::Hermite);
    assert_eq!(c1.sample(-100), 77);
    assert_eq!(c1.sample(500), 77);
    assert_eq!(c1.sample(900), 77);
}

#[test]
fn hermite_is_exact_at_segment_endpoints() {
    let times = vec![0i64, 1000, 1300, 1600, 1700, 1800, 1900, 2000];
    let values = vec![3000i64, 0, 1000, 0, 500, 0, 250, 0];
    let c = Curve::with_auto_tangents(&times, &values).unwrap();
    for i in 0..times.len() {
        assert_eq!(c.sample(times[i]), values[i]);
    }
}

#[test]
fn hermite_on_collinear_points_is_linear() {
    // Auto tangents on two keyframes are the segment secant, so the
    // Hermite arc degenerates to the straight line.
    let times = vec![0i64, 1000];
    let values = vec![0i64, 10_000];
    let c = Curve::with_auto_tangents(&times, &values).unwrap();
    assert_eq!(c.sample(500), 5_000);
    assert_eq!(c.sample(100), 1_000);
    assert_eq!(c.sample(900), 9_000);
}

#[test]
fn hermite_with_flat_tangents_eases_in_and_out() {
    let mut c = Curve::new();
    c.insert(0, 0, Interpolation::Hermite);
    c.insert(1000, 10_000, Interpolation::Hermite);
    c.set_tangent_control(0, TangentControl::Flat);
    c.set_tangent_control(1, TangentControl::Flat);
    // With zero tangents the basis gives v1 * h01(s) / SCALE^3:
    // at s = 250, h01 = 3*62_500*1000 - 2*15_625_000 = 156_250_000.
    assert_eq!(c.sample(250), 1_562);
    assert_eq!(c.sample(500), 5_000);
    assert_eq!(c.sample(750), 8_437);
    // Below the chord in the first half, above it in the second.
    assert!(c.sample(250) < 2_500);
    assert!(c.sample(750) > 7_500);
}

#[test]
fn cursor_sampling_matches_independent_sampling() {
    let times = vec![0i64, 1000, 1300, 1600, 1700, 1800, 1900, 2000];
    let values = vec![3000i64, 0, 1000, 0, 500, 0, 250, 0];
    let mut c = Curve::with_auto_tangents(&times, &values).unwrap();
    c.set_interpolation(1, Interpolation::Step);
    c.set_interpolation(3, Interpolation::Linear);
    let mut cursor = 0usize;
    let mut t = -300i64;
    while t <= 2300 {
        let (next, v) = c.sample_with_cursor(cursor, t);
        assert_eq!(v, c.sample(t), "query time {t}");
        cursor = next;
        t += 7;
    }
}

#[test]
fn cursor_can_start_from_any_valid_hint() {
    let times = vec![0i64, 1000, 2000, 3000];
    let values = vec![0i64, 1000, 2000, 3000];
    let c = Curve::with_auto_tangents(&times, &values).unwrap();
    // A cursor pointing at a keyframe at or before the query time is a
    // valid hint and never changes the value.
    let (_, v) = c.sample_with_cursor(2, 2500);
    assert_eq!(v, c.sample(2500));
    let (_, v0) = c.sample_with_cursor(0, 2500);
    assert_eq!(v0, c.sample(2500));
}

#[test]
fn step_then_linear_mixed_segments() {
    let mut c = Curve::new();
    c.insert(0, 0, Interpolation::Step);
    c.insert(1000, 1000, Interpolation::Linear);
    c.insert(2000, 3000, Interpolation::Linear);
    assert_eq!(c.sample(500), 0);
    assert_eq!(c.sample(1500), 2000);
}
