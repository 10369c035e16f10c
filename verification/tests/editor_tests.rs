use curve_editor::curve::Curve;
use curve_editor::curve::Interpolation;
use curve_editor::curve::TangentControl;
use curve_editor::editor::handle_delta;
use curve_editor::editor::to_dir;
use curve_editor::editor::to_tangent;
use curve_editor::editor::CurveEditor;
use curve_editor::editor::DrawCmd;
use curve_editor::editor::InputSnapshot;
use curve_editor::editor::MenuChoice;
use curve_editor::editor::ScreenPos;
use curve_editor::editor::TangentEdit;
use curve_editor::editor::Tone;
use curve_editor::viewport::ScreenRect;
use curve_editor::viewport::Viewport;

fn demo_rect() -> ScreenRect {
    ScreenRect { min_x: 0, min_y: 0, max_x: 700, max_y: 300 }
}

fn demo_editor() -> CurveEditor {
    let times = vec![0i64, 1000, 1300, 1600, 1700, 1800, 1900, 2000];
    let values = vec![3000i64, 0, 1000, 0, 500, 0, 250, 0];
    let curve = Curve::with_auto_tangents(&times, &values).unwrap();
    let viewport = Viewport::new(0, -500, 2000, 3500);
    CurveEditor::new(curve, viewport)
}

fn idle_input() -> InputSnapshot {
    InputSnapshot {
        hover_pos: None,
        pointer_down: false,
        pan_active: false,
        drag_dx: 0,
        drag_dy: 0,
        scroll_delta: 0,
        zoom_value_axis: false,
        secondary_clicked: false,
        key_insert: false,
        key_delete: false,
        menu_choice: None,
    }
}

#[test]
fn deleting_the_selection_clears_it_and_shrinks_the_curve() {
    let mut ed = demo_editor();
    ed.selected_keyframe = Some(3);
    let len = ed.curve.len();
    ed.delete_selected();
    assert_eq!(ed.selected_keyframe, None);
    assert_eq!(ed.curve.len(), len - 1);
}

#[test]
fn delete_without_selection_is_noop() {
    let mut ed = demo_editor();
    let len = ed.curve.len();
    ed.delete_selected();
    assert_eq!(ed.curve.len(), len);
    assert_eq!(ed.selected_keyframe, None);
}

#[test]
fn delete_key_through_frame() {
    let mut ed = demo_editor();
    ed.selected_keyframe = Some(0);
    let len = ed.curve.len();
    let mut input = idle_input();
    input.key_delete = true;
    ed.frame(&demo_rect(), &input);
    assert_eq!(ed.selected_keyframe, None);
    assert_eq!(ed.curve.len(), len - 1);
}

#[test]
fn insert_key_through_frame_selects_the_new_keyframe() {
    let mut ed = demo_editor();
    let len = ed.curve.len();
    // Pointer at column 175 is t = 0.5 units; the curve's value there is
    // picked up as the new keyframe's value.
    let t = ed.viewport.to_curve_t(&demo_rect(), 175);
    let expect_v = ed.curve.sample(t);
    let mut input = idle_input();
    input.hover_pos = Some(ScreenPos { x: 175, y: 40 });
    input.key_insert = true;
    ed.frame(&demo_rect(), &input);
    assert_eq!(ed.curve.len(), len + 1);
    let sel = ed.selected_keyframe.expect("insert selects the new keyframe");
    assert_eq!(ed.curve.get_time(sel), t);
    assert_eq!(ed.curve.get_value(sel), expect_v);
    assert_eq!(ed.curve.get_interpolation(sel), Interpolation::Hermite);
}

#[test]
fn insert_on_existing_time_clears_selection() {
    let mut ed = demo_editor();
    ed.selected_keyframe = Some(2);
    // Column 350 is exactly t = 1.0, an existing keyframe time.
    let mut input = idle_input();
    input.hover_pos = Some(ScreenPos { x: 350, y: 40 });
    input.key_insert = true;
    let len = ed.curve.len();
    ed.frame(&demo_rect(), &input);
    assert_eq!(ed.curve.len(), len);
    assert_eq!(ed.selected_keyframe, None);
}

#[test]
fn frame_renders_the_polyline() {
    let mut ed = demo_editor();
    let cmds = ed.frame(&demo_rect(), &idle_input());
    let lines = cmds
        .iter()
        .filter(|c| matches!(c, DrawCmd::Line { tone: Tone::Primary, .. }))
        .count();
    assert_eq!(lines, 255);
}

#[test]
fn frame_shows_insert_preview_under_the_pointer() {
    let mut ed = demo_editor();
    let mut input = idle_input();
    input.hover_pos = Some(ScreenPos { x: 123, y: 45 });
    let cmds = ed.frame(&demo_rect(), &input);
    assert!(cmds
        .iter()
        .any(|c| matches!(c, DrawCmd::Circle { x: 123, tone: Tone::Muted, .. })));
}

#[test]
fn pan_through_frame() {
    let mut ed = demo_editor();
    let mut input = idle_input();
    input.pan_active = true;
    input.drag_dx = 70;
    input.drag_dy = 30;
    ed.frame(&demo_rect(), &input);
    assert_eq!(ed.viewport.offset_t, -200);
    assert_eq!(ed.viewport.offset_v, -150);
}

#[test]
fn zoom_through_frame_is_anchored() {
    let mut ed = demo_editor();
    let rect = demo_rect();
    let before = ed.viewport.to_curve_t(&rect, 350);
    let mut input = idle_input();
    input.hover_pos = Some(ScreenPos { x: 350, y: 150 });
    input.scroll_delta = 70;
    ed.frame(&rect, &input);
    assert!(ed.viewport.range_t < 2000);
    assert_eq!(ed.viewport.to_curve_t(&rect, 350), before);
    assert_eq!(ed.viewport.range_v, 3500);
}

#[test]
fn modifier_zooms_the_value_axis() {
    let mut ed = demo_editor();
    let mut input = idle_input();
    input.hover_pos = Some(ScreenPos { x: 350, y: 150 });
    input.scroll_delta = 30;
    input.zoom_value_axis = true;
    ed.frame(&demo_rect(), &input);
    assert_eq!(ed.viewport.range_t, 2000);
    assert!(ed.viewport.range_v < 3500);
}

#[test]
fn context_menu_opens_applies_and_closes() {
    let mut ed = demo_editor();
    ed.selected_keyframe = Some(1);
    let rect = demo_rect();
    let mut open = idle_input();
    open.hover_pos = Some(ScreenPos { x: 200, y: 100 });
    open.secondary_clicked = true;
    ed.frame(&rect, &open);
    assert_eq!(ed.menu_anchor, Some(ScreenPos { x: 200, y: 100 }));
    let mut choose = idle_input();
    choose.menu_choice = Some(MenuChoice::Step);
    ed.frame(&rect, &choose);
    assert_eq!(ed.curve.get_interpolation(1), Interpolation::Step);
    assert_eq!(ed.menu_anchor, None);
}

#[test]
fn menu_choice_without_selection_is_ignored() {
    let mut ed = demo_editor();
    let rect = demo_rect();
    let mut open = idle_input();
    open.hover_pos = Some(ScreenPos { x: 200, y: 100 });
    open.secondary_clicked = true;
    ed.frame(&rect, &open);
    let before = ed.curve.get_interpolation(1);
    let mut choose = idle_input();
    choose.menu_choice = Some(MenuChoice::Linear);
    ed.frame(&rect, &choose);
    assert_eq!(ed.curve.get_interpolation(1), before);
    assert_eq!(ed.menu_anchor, None);
}

#[test]
fn press_on_a_marker_selects_and_starts_a_drag() {
    let mut ed = demo_editor();
    let rect = demo_rect();
    // Keyframe 1 sits at t = 1.0, v = 0.0.
    let px = ed.viewport.to_screen_x(&rect, 1000);
    let py = ed.viewport.to_screen_y(&rect, 0);
    let mut input = idle_input();
    input.hover_pos = Some(ScreenPos { x: px, y: py });
    input.pointer_down = true;
    ed.frame(&rect, &input);
    assert_eq!(ed.selected_keyframe, Some(1));
    assert!(ed.dragging);
}

#[test]
fn releasing_a_drag_away_from_the_marker_deselects() {
    let mut ed = demo_editor();
    ed.selected_keyframe = Some(1);
    ed.dragging = true;
    let mut input = idle_input();
    input.hover_pos = Some(ScreenPos { x: 5, y: 5 });
    ed.frame(&demo_rect(), &input);
    assert_eq!(ed.selected_keyframe, None);
    assert!(!ed.dragging);
}

#[test]
fn an_idle_selection_survives_pointer_movement() {
    let mut ed = demo_editor();
    ed.selected_keyframe = Some(1);
    let mut input = idle_input();
    input.hover_pos = Some(ScreenPos { x: 5, y: 5 });
    ed.frame(&demo_rect(), &input);
    assert_eq!(ed.selected_keyframe, Some(1));
}

#[test]
fn dragging_moves_the_selected_keyframe_value() {
    let mut ed = demo_editor();
    let rect = demo_rect();
    let px = ed.viewport.to_screen_x(&rect, 1000);
    let py = ed.viewport.to_screen_y(&rect, 0);
    // Frame 1: press on the marker of keyframe 1.
    let mut press = idle_input();
    press.hover_pos = Some(ScreenPos { x: px, y: py });
    press.pointer_down = true;
    ed.frame(&rect, &press);
    assert_eq!(ed.selected_keyframe, Some(1));
    assert!(ed.dragging);
    // Frame 2: pointer moved up 8 rows, button still held.
    let target_v = ed.viewport.to_curve_v(&rect, py - 8);
    let mut drag = idle_input();
    drag.hover_pos = Some(ScreenPos { x: px, y: py - 8 });
    drag.pointer_down = true;
    ed.frame(&rect, &drag);
    assert_eq!(ed.selected_keyframe, Some(1));
    assert_eq!(ed.curve.get_value(1), target_v);
    assert_eq!(ed.curve.get_time(1), 1000);
}

#[test]
fn releasing_the_button_ends_the_drag() {
    let mut ed = demo_editor();
    ed.dragging = true;
    ed.frame(&demo_rect(), &idle_input());
    assert!(!ed.dragging);
}

#[test]
fn dragging_a_tangent_handle_sets_the_slope() {
    let mut curve = Curve::new();
    curve.insert(0, 0, Interpolation::Hermite);
    curve.insert(1000, 0, Interpolation::Hermite);
    curve.set_tangent_control(1, TangentControl::Broken);
    let viewport = Viewport::new(0, -500, 2000, 3500);
    let rect = demo_rect();
    let mut ed = CurveEditor::new(curve, viewport);
    ed.selected_keyframe = Some(1);
    // The keyframe sits at (350, 258); its frozen tangents are 0, so the
    // outgoing handle sits 50 px to the right.
    let px = ed.viewport.to_screen_x(&rect, 1000);
    let py = ed.viewport.to_screen_y(&rect, 0);
    assert_eq!((px, py), (350, 258));
    let d = handle_delta(&ed.viewport, &rect, 0);
    assert_eq!(d, (50, 0));
    // Press on the outgoing handle: the pointer's curve-space direction
    // from the keyframe becomes the outgoing slope.
    let pointer = ScreenPos { x: px + d.0, y: py + d.1 };
    let (ct, cv) = ed.viewport.to_curve(&rect, pointer.x, pointer.y);
    let expect = curve_editor::editor::to_tangent(ct - 1000, cv - 0);
    let mut input = idle_input();
    input.hover_pos = Some(pointer);
    input.pointer_down = true;
    ed.frame(&rect, &input);
    assert_eq!(ed.tangent_drag, TangentEdit::Out);
    assert_eq!(ed.curve.get_in_out_tangent(1), (0, expect));
    assert_eq!(ed.selected_keyframe, Some(1));
}

#[test]
fn tangent_conversion_round_trips() {
    for slope in [0i64, 1, -1, 500, -1234, 100_000_000, -100_000_000] {
        let d = to_dir(slope);
        assert_eq!(d.0, 1000);
        assert_eq!(to_tangent(d.0, d.1), slope);
    }
}

#[test]
fn tangent_conversion_clamps_and_saturates() {
    assert_eq!(to_tangent(0, 5), 100_000_000);
    assert_eq!(to_tangent(0, -5), -100_000_000);
    assert_eq!(to_tangent(0, 0), 0);
    assert_eq!(to_tangent(1, 200_000_000), 100_000_000);
    assert_eq!(to_tangent(-1000, -500), 500);
    assert_eq!(to_tangent(2000, 1000), 500);
}
