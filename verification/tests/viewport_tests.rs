use curve_editor::viewport::ScreenRect;
use curve_editor::viewport::Viewport;

fn demo_rect() -> ScreenRect {
    ScreenRect { min_x: 0, min_y: 0, max_x: 700, max_y: 300 }
}

// The demo session: origin (0.0, -0.5), extent (2.0, 3.5) curve units.
fn demo_viewport() -> Viewport {
    Viewport::new(0, -500, 2000, 3500)
}

#[test]
fn to_screen_known_points() {
    let vp = demo_viewport();
    let r = demo_rect();
    // t = 1.0 is halfway across the 2.0-unit span: pixel column 350.
    assert_eq!(vp.to_screen_x(&r, 1000), 350);
    assert_eq!(vp.to_screen_x(&r, 0), 0);
    assert_eq!(vp.to_screen_x(&r, 2000), 700);
    // v = -0.5 is the bottom row; v = 3.0 maps 3.5 units up.
    assert_eq!(vp.to_screen_y(&r, -500), 300);
    assert_eq!(vp.to_screen_y(&r, 3000), 0);
}

#[test]
fn to_curve_known_points() {
    let vp = demo_viewport();
    let r = demo_rect();
    assert_eq!(vp.to_curve_t(&r, 350), 1000);
    assert_eq!(vp.to_curve_t(&r, 0), 0);
    assert_eq!(vp.to_curve_t(&r, 700), 2000);
    assert_eq!(vp.to_curve_v(&r, 300), -500);
    assert_eq!(vp.to_curve_v(&r, 0), 3000);
}

#[test]
fn screen_round_trip_within_tolerance() {
    let vp = demo_viewport();
    let r = demo_rect();
    // Ranges exceed the pixel extents, so the tolerance is one pixel.
    for (px, py) in [(0i64, 0i64), (1, 299), (123, 45), (350, 150), (699, 1), (700, 300)] {
        let (ct, cv) = vp.to_curve(&r, px, py);
        let (qx, qy) = vp.to_screen(&r, ct, cv);
        assert!(0 <= px - qx && px - qx <= 1, "x: {px} -> {qx}");
        assert!(0 <= qy - py && qy - py <= 1, "y: {py} -> {qy}");
    }
}

#[test]
fn zoomed_in_round_trip_error_is_bounded_by_tick_footprint() {
    // A range of 0.1 units over 700 px: one tick covers 7 px, so the
    // round trip may move a point by up to ext/range + 1 = 8 px.
    let vp = Viewport::new(0, 0, 100, 100);
    let r = demo_rect();
    for px in [0i64, 3, 77, 350, 699] {
        let ct = vp.to_curve_t(&r, px);
        let qx = vp.to_screen_x(&r, ct);
        assert!(0 <= px - qx && (px - qx) * 100 <= 700 + 100 - 1, "{px} -> {qx}");
    }
}

#[test]
fn pan_converts_pixel_delta_through_axis_scales() {
    let mut vp = demo_viewport();
    let r = demo_rect();
    vp.pan(&r, 70, 30);
    // 70 px of 700 is a tenth of the 2.0-unit span: offset moves -0.2.
    assert_eq!(vp.offset_t, -200);
    // 30 px of 300 is a tenth of the 3.5-unit span: offset moves +0.35.
    assert_eq!(vp.offset_v, -150);
    assert_eq!(vp.range_t, 2000);
    assert_eq!(vp.range_v, 3500);
}

#[test]
fn zoom_rescales_the_chosen_axis() {
    let mut vp = demo_viewport();
    let r = demo_rect();
    vp.zoom_time(&r, 0, 70);
    // 70 px of 700 shrinks the time span by a tenth; anchored at the left
    // edge the offset is unchanged.
    assert_eq!(vp.range_t, 1800);
    assert_eq!(vp.offset_t, 0);
    assert_eq!(vp.range_v, 3500);
    assert_eq!(vp.offset_v, -500);
}

#[test]
fn zoom_is_anchored_at_the_pointer() {
    let r = demo_rect();
    for px in [0i64, 123, 350, 699, 700] {
        for scroll in [70i64, -70, 33, -1] {
            let mut vp = demo_viewport();
            let before = vp.to_curve_t(&r, px);
            vp.zoom_time(&r, px, scroll);
            let after = vp.to_curve_t(&r, px);
            assert_eq!(before, after, "px {px} scroll {scroll}");
        }
    }
    for py in [0i64, 150, 300] {
        let mut vp = demo_viewport();
        let before = vp.to_curve_v(&r, py);
        vp.zoom_value(&r, py, -50);
        let after = vp.to_curve_v(&r, py);
        assert_eq!(before, after, "py {py}");
    }
}

#[test]
fn zoom_never_degenerates_the_range() {
    let mut vp = Viewport::new(0, 0, 3, 3);
    let r = demo_rect();
    for _ in 0..5 {
        vp.zoom_time(&r, 350, 1_000_000);
        vp.zoom_value(&r, 150, 1_000_000);
    }
    assert!(vp.range_t >= 1);
    assert!(vp.range_v >= 1);
}
