use curve_editor::curve::Curve;
use curve_editor::curve::Interpolation;
use curve_editor::curve::TangentControl;

fn times_of(c: &Curve) -> Vec<i64> {
    let mut v = Vec::new();
    let mut i = 0;
    while i < c.len() {
        v.push(c.get_time(i));
        i += 1;
    }
    v
}

#[test]
fn insert_keeps_sorted() {
    let mut c = Curve::new();
    for t in [1500i64, -200, 700, 2100, 0, 900] {
        let r = c.insert(t, 10, Interpolation::Linear);
        assert!(r.is_some());
    }
    let ts = times_of(&c);
    assert_eq!(ts, vec![-200, 0, 700, 900, 1500, 2100]);
    for w in ts.windows(2) {
        assert!(w[0] < w[1]);
    }
}

#[test]
fn insert_returns_sorted_position() {
    let mut c = Curve::new();
    assert_eq!(c.insert(1000, 0, Interpolation::Linear), Some(0));
    assert_eq!(c.insert(0, 0, Interpolation::Linear), Some(0));
    assert_eq!(c.insert(500, 0, Interpolation::Linear), Some(1));
    assert_eq!(c.insert(2000, 0, Interpolation::Linear), Some(3));
}

#[test]
fn insert_collision_rejected() {
    let mut c = Curve::new();
    assert!(c.insert(100, 5, Interpolation::Hermite).is_some());
    assert_eq!(c.insert(100, 99, Interpolation::Hermite), None);
    assert_eq!(c.len(), 1);
    assert_eq!(c.get_value(0), 5);
}

#[test]
fn set_time_crossing_returns_new_index() {
    let mut c = Curve::new();
    c.insert(0, 1, Interpolation::Linear);
    c.insert(1000, 2, Interpolation::Linear);
    c.insert(2000, 3, Interpolation::Linear);
    // Move the first keyframe past its right neighbor.
    let r = c.set_time(0, 1500);
    assert_eq!(r, Some(1));
    assert_eq!(c.get_time(1), 1500);
    assert_eq!(c.get_value(1), 1);
    let ts = times_of(&c);
    assert_eq!(ts, vec![1000, 1500, 2000]);
}

#[test]
fn set_time_without_crossing_returns_none() {
    let mut c = Curve::new();
    c.insert(0, 1, Interpolation::Linear);
    c.insert(1000, 2, Interpolation::Linear);
    c.insert(2000, 3, Interpolation::Linear);
    let r = c.set_time(1, 1200);
    assert_eq!(r, None);
    assert_eq!(c.get_time(1), 1200);
    assert_eq!(c.get_value(1), 2);
}

#[test]
fn set_time_collision_is_noop() {
    let mut c = Curve::new();
    c.insert(0, 1, Interpolation::Linear);
    c.insert(1000, 2, Interpolation::Linear);
    let r = c.set_time(0, 1000);
    assert_eq!(r, None);
    assert_eq!(c.get_time(0), 0);
}

#[test]
fn set_time_out_of_range_is_noop() {
    let mut c = Curve::new();
    c.insert(0, 1, Interpolation::Linear);
    assert_eq!(c.set_time(5, 100), None);
    assert_eq!(c.len(), 1);
    assert_eq!(c.get_time(0), 0);
}

#[test]
fn remove_out_of_range_is_noop() {
    let mut c = Curve::new();
    c.insert(0, 1, Interpolation::Linear);
    c.remove(7);
    assert_eq!(c.len(), 1);
}

#[test]
fn remove_deletes_and_shifts() {
    let mut c = Curve::new();
    c.insert(0, 1, Interpolation::Linear);
    c.insert(1000, 2, Interpolation::Linear);
    c.insert(2000, 3, Interpolation::Linear);
    c.remove(1);
    assert_eq!(c.len(), 2);
    assert_eq!(times_of(&c), vec![0, 2000]);
    assert_eq!(c.get_value(1), 3);
}

#[test]
fn with_auto_tangents_builds_and_computes_slopes() {
    let times = vec![0i64, 1000, 2000];
    let values = vec![0i64, 1000, 0];
    let c = Curve::with_auto_tangents(&times, &values).unwrap();
    assert_eq!(c.len(), 3);
    // Boundary: secant to the single neighbor.
    assert_eq!(c.get_in_out_tangent(0), (1000, 1000));
    assert_eq!(c.get_in_out_tangent(2), (-1000, -1000));
    // Interior: secant between the two neighbors.
    assert_eq!(c.get_in_out_tangent(1), (0, 0));
    assert_eq!(c.get_tangent_control(1), TangentControl::Auto);
    assert_eq!(c.get_interpolation(1), Interpolation::Hermite);
}

#[test]
fn with_auto_tangents_rejects_bad_input() {
    assert!(Curve::with_auto_tangents(&vec![0, 1], &vec![0]).is_none());
    assert!(Curve::with_auto_tangents(&vec![5, 5], &vec![0, 0]).is_none());
    assert!(Curve::with_auto_tangents(&vec![5, 4], &vec![0, 0]).is_none());
    assert!(Curve::with_auto_tangents(&vec![], &vec![]).is_some());
}

#[test]
fn tangent_setters_are_noops_under_auto() {
    let times = vec![0i64, 1000, 2000];
    let values = vec![0i64, 1000, 0];
    let mut c = Curve::with_auto_tangents(&times, &values).unwrap();
    let before = c.get_in_out_tangent(1);
    c.set_in_tangent(1, 77_000);
    c.set_out_tangent(1, 77_000);
    c.set_in_out_tangent(1, 77_000);
    assert_eq!(c.get_in_out_tangent(1), before);
    assert_eq!(c.get_tangent_control(1), TangentControl::Auto);
}

#[test]
fn auto_keyframe_value_untouched_by_neighbor_tangent_edit() {
    let times = vec![0i64, 1000, 2000];
    let values = vec![0i64, 1000, 0];
    let mut c = Curve::with_auto_tangents(&times, &values).unwrap();
    // Make keyframe 0 editable, then edit its tangents: the Auto neighbor's
    // value (and, with unchanged times/values, its recomputed slope) stays.
    c.set_tangent_control(0, TangentControl::Free);
    let auto_before = c.get_in_out_tangent(1);
    c.set_in_out_tangent(0, 55_000);
    assert_eq!(c.get_value(1), 1000);
    assert_eq!(c.get_in_out_tangent(1), auto_before);
}

#[test]
fn broken_sets_one_side_free_mirrors() {
    let mut c = Curve::new();
    c.insert(0, 0, Interpolation::Hermite);
    c.insert(1000, 1000, Interpolation::Hermite);
    c.set_tangent_control(0, TangentControl::Broken);
    c.set_in_tangent(0, 111);
    c.set_out_tangent(0, 222);
    assert_eq!(c.get_in_out_tangent(0), (111, 222));
    c.set_tangent_control(0, TangentControl::Free);
    c.set_in_tangent(0, 333);
    assert_eq!(c.get_in_out_tangent(0), (333, 333));
    c.set_out_tangent(0, 444);
    assert_eq!(c.get_in_out_tangent(0), (444, 444));
}

#[test]
fn flat_zeroes_tangents_and_blocks_edits() {
    let mut c = Curve::new();
    c.insert(0, 0, Interpolation::Hermite);
    c.insert(1000, 1000, Interpolation::Hermite);
    c.set_tangent_control(0, TangentControl::Flat);
    assert_eq!(c.get_in_out_tangent(0), (0, 0));
    c.set_in_out_tangent(0, 999);
    assert_eq!(c.get_in_out_tangent(0), (0, 0));
}

#[test]
fn leaving_auto_freezes_last_computed_tangents() {
    let times = vec![0i64, 1000];
    let values = vec![0i64, 500];
    let mut c = Curve::with_auto_tangents(&times, &values).unwrap();
    let frozen = c.get_in_out_tangent(0);
    c.set_tangent_control(0, TangentControl::Free);
    assert_eq!(c.get_in_out_tangent(0), frozen);
}

#[test]
fn set_value_updates_and_refreshes_auto_neighbors() {
    let times = vec![0i64, 1000, 2000];
    let values = vec![0i64, 0, 0];
    let mut c = Curve::with_auto_tangents(&times, &values).unwrap();
    c.set_value(1, 1000);
    assert_eq!(c.get_value(1), 1000);
    // The boundary neighbors' auto secants follow the new value.
    assert_eq!(c.get_in_out_tangent(0), (1000, 1000));
    assert_eq!(c.get_in_out_tangent(2), (-1000, -1000));
    // The interior keyframe's own slope is the secant of its neighbors.
    assert_eq!(c.get_in_out_tangent(1), (0, 0));
}

#[test]
fn set_interpolation_is_pure_metadata() {
    let mut c = Curve::new();
    c.insert(0, 0, Interpolation::Hermite);
    let tans = c.get_in_out_tangent(0);
    c.set_interpolation(0, Interpolation::Step);
    assert_eq!(c.get_interpolation(0), Interpolation::Step);
    assert_eq!(c.get_in_out_tangent(0), tans);
    c.set_interpolation(9, Interpolation::Linear);
    assert_eq!(c.get_interpolation(0), Interpolation::Step);
}
