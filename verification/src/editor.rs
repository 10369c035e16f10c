//! The pointer-driven interaction state machine: consumes one frame's
//! input snapshot, classifies the gesture (pan, zoom, context menu,
//! insert, delete, select, drag value/time, drag tangent), applies the
//! corresponding curve or viewport mutation, and emits draw commands for
//! the curve polyline, the keyframe markers and the tangent handles.
//!
//! One call to `frame` performs the whole read-mutate-render pass for one
//! frame; multi-frame drags are reconstructed from the edge-triggered
//! press state (`dragging` begins only on the frame where a press starts
//! on a marker) plus the level-triggered held state.

use vstd::prelude::*;
use crate::curve::make_kf;
use crate::curve::refresh_around;
use crate::curve::set_in_out_spec;
use crate::curve::set_in_spec;
use crate::curve::set_out_spec;
use crate::curve::tc_applied;
use crate::curve::with_auto_at;
use crate::curve::Curve;
use crate::curve::Interpolation;
use crate::curve::Keyframe;
use crate::curve::TangentControl;
use crate::math::clamp_i64;
use crate::math::clamp_spec;
use crate::math::fdiv_i128;
use crate::math::lemma_div_abs;
use crate::math::mulb_i128;
use crate::math::COORD_LIMIT;
use crate::math::PIX_LIMIT;
use crate::math::SCALE;
use crate::math::TAN_LIMIT;
use crate::sample::sample_spec;
use crate::viewport::rect_wf;
use crate::viewport::to_curve_t_spec;
use crate::viewport::to_curve_v_spec;
use crate::viewport::to_screen_x_spec;
use crate::viewport::to_screen_y_spec;
use crate::viewport::ScreenRect;
use crate::viewport::Viewport;
use crate::viewport::SCREEN_CLAMP;
use vstd::arithmetic::div_mod::lemma_div_is_ordered;
use vstd::arithmetic::mul::lemma_mul_inequality;
use vstd::arithmetic::mul::lemma_mul_is_commutative;

verus! {

/// A screen-space position in whole pixels.
#[derive(Clone, Copy, PartialEq, Eq, Structural, Debug)]
pub struct ScreenPos {
    pub x: i64,
    pub y: i64,
}

/// Which tangent handle of the selected keyframe is mid-drag; at most one
/// at a time.
#[derive(Clone, Copy, PartialEq, Eq, Structural, Debug)]
pub enum TangentEdit {
    No,
    In,
    Out,
}

/// An option of the context menu: an interpolation rule or (for Hermite)
/// a tangent control mode for the selected keyframe.
#[derive(Clone, Copy, PartialEq, Eq, Structural, Debug)]
pub enum MenuChoice {
    Step,
    Linear,
    Auto,
    Free,
    Flat,
    Broken,
}

/// The role of an emitted primitive, for the host to color: `Primary` for
/// the curve and plain markers, `Hovered` and `Selected` for highlighted
/// markers, `Muted` for tangent handles and the insert preview.
#[derive(Clone, Copy, PartialEq, Eq, Structural, Debug)]
pub enum Tone {
    Primary,
    Hovered,
    Selected,
    Muted,
}

/// One primitive draw call; positions in pixels, circle radii in tenths
/// of a pixel.
#[derive(Clone, Copy, PartialEq, Eq, Structural, Debug)]
pub enum DrawCmd {
    Line { x0: i64, y0: i64, x1: i64, y1: i64, tone: Tone },
    Circle { x: i64, y: i64, radius: i64, tone: Tone },
}

/// One frame's immutable snapshot of pointer and keyboard state.
#[derive(Clone, Copy, Debug)]
pub struct InputSnapshot {
    /// Pointer position, when it is over the interaction surface.
    pub hover_pos: Option<ScreenPos>,
    /// Primary button held this frame (level-triggered).
    pub pointer_down: bool,
    /// The designated pan button is held and dragging.
    pub pan_active: bool,
    /// This frame's drag delta in pixels, when panning.
    pub drag_dx: i64,
    pub drag_dy: i64,
    /// Scroll input; zooms when hovering.
    pub scroll_delta: i64,
    /// The precision modifier: scroll zooms the value axis instead of the
    /// time axis.
    pub zoom_value_axis: bool,
    /// The designated secondary action, opening the context menu.
    pub secondary_clicked: bool,
    /// Discrete key presses for insert and delete.
    pub key_insert: bool,
    pub key_delete: bool,
    /// The context-menu option activated this frame, if any.
    pub menu_choice: Option<MenuChoice>,
}

pub open spec fn input_wf(inp: InputSnapshot) -> bool {
    &&& (inp.hover_pos matches Some(p) ==> -PIX_LIMIT <= p.x <= PIX_LIMIT && -PIX_LIMIT <= p.y
        <= PIX_LIMIT)
    &&& -PIX_LIMIT <= inp.drag_dx <= PIX_LIMIT
    &&& -PIX_LIMIT <= inp.drag_dy <= PIX_LIMIT
    &&& -PIX_LIMIT <= inp.scroll_delta <= PIX_LIMIT
}

/// Whether the pointer (when present) lies in the fixed-radius hit circle
/// of radius `sr` pixels around `(x, y)`, border included.
pub open spec fn hit_spec(pointer: Option<ScreenPos>, x: int, y: int, sr: int) -> bool {
    pointer matches Some(p) && (p.x - x) * (p.x - x) + (p.y - y) * (p.y - y) <= sr * sr
}

/// Whether a keyframe's screen projection lies inside the interaction
/// rectangle (markers outside it are skipped by the keyframe pass).
pub open spec fn kf_in_rect(vp: Viewport, r: ScreenRect, k: Keyframe) -> bool {
    let px = to_screen_x_spec(vp, r, k.time as int);
    let py = to_screen_y_spec(vp, r, k.value as int);
    &&& r.min_x <= px <= r.max_x
    &&& r.min_y <= py <= r.max_y
}

/// Whether the pointer hits a keyframe's marker: the marker lies in the
/// rectangle and the pointer lies in its hit circle.
pub open spec fn kf_hit(vp: Viewport, r: ScreenRect, k: Keyframe, pointer: Option<ScreenPos>) -> bool {
    &&& kf_in_rect(vp, r, k)
    &&& hit_spec(
        pointer,
        to_screen_x_spec(vp, r, k.time as int),
        to_screen_y_spec(vp, r, k.value as int),
        HIT_RADIUS as int,
    )
}

/// The first keyframe at or after `i` whose marker the pointer hits, or
/// the sequence length when none is: overlapping markers are disambiguated
/// by the lowest index.
pub open spec fn first_hit_from(
    s: Seq<Keyframe>,
    vp: Viewport,
    r: ScreenRect,
    pointer: Option<ScreenPos>,
    i: int,
) -> int
    decreases s.len() - i,
{
    if 0 <= i < s.len() {
        if kf_hit(vp, r, s[i], pointer) {
            i
        } else {
            first_hit_from(s, vp, r, pointer, i + 1)
        }
    } else {
        s.len() as int
    }
}

/// A circle command centered at `(mx, my)`.
pub open spec fn marker_at(cmd: DrawCmd, mx: int, my: int) -> bool {
    cmd matches DrawCmd::Circle { x, y, .. } && x == mx && y == my
}

/// `first_hit_from` stays between its starting index and the length.
pub proof fn lemma_first_hit_bounds(
    s: Seq<Keyframe>,
    vp: Viewport,
    r: ScreenRect,
    pointer: Option<ScreenPos>,
    i: int,
)
    requires
        0 <= i <= s.len(),
    ensures
        i <= first_hit_from(s, vp, r, pointer, i) <= s.len(),
    decreases s.len() - i,
{
    if i < s.len() && !kf_hit(vp, r, s[i], pointer) {
        lemma_first_hit_bounds(s, vp, r, pointer, i + 1);
    }
}

/// The curve after the vertical half of a drag step: past the one-pixel
/// jitter gate the keyframe's value becomes the clamped curve-space value
/// under the pointer, with the automatic tangents around it refreshed.
pub open spec fn drag_value_spec(
    ed: CurveEditor,
    rect: ScreenRect,
    p: ScreenPos,
    i: int,
    py: int,
) -> Seq<Keyframe> {
    if p.y <= py - 1 || p.y >= py + 1 {
        let v = clamp_spec(
            to_curve_v_spec(ed.viewport, rect, p.y as int),
            -(COORD_LIMIT as int),
            COORD_LIMIT as int,
        );
        refresh_around(ed.curve@.update(i, Keyframe { value: v as i64, ..ed.curve@[i] }), i)
    } else {
        ed.curve@
    }
}

/// The clamped curve-space time under the pointer, the target of the
/// horizontal half of a drag step.
pub open spec fn drag_time_target(ed: CurveEditor, rect: ScreenRect, p: ScreenPos) -> int {
    clamp_spec(
        to_curve_t_spec(ed.viewport, rect, p.x as int),
        -(COORD_LIMIT as int),
        COORD_LIMIT as int,
    )
}

/// The editing session: the one live curve, its viewport, and the
/// transient interaction memory, owned exclusively and mutated once per
/// frame.
pub struct CurveEditor {
    pub curve: Curve,
    pub viewport: Viewport,
    /// The selected keyframe's index; must be re-targeted whenever a
    /// mutation reorders the sequence.
    pub selected_keyframe: Option<usize>,
    /// True while the selected keyframe is being dragged (edge-triggered
    /// on the frame the press begins, then held).
    pub dragging: bool,
    pub tangent_drag: TangentEdit,
    /// Where the context menu is anchored, when it is open.
    pub menu_anchor: Option<ScreenPos>,
}

impl CurveEditor {
    pub open spec fn wf(&self) -> bool {
        &&& self.curve.wf()
        &&& self.viewport.wf()
        &&& (self.selected_keyframe matches Some(i) ==> i < self.curve@.len())
        &&& (self.menu_anchor matches Some(p) ==> -PIX_LIMIT <= p.x <= PIX_LIMIT && -PIX_LIMIT
            <= p.y <= PIX_LIMIT)
    }

    /// A fresh session around an existing curve and viewport: nothing
    /// selected, nothing dragging, menu closed.
    pub fn new(curve: Curve, viewport: Viewport) -> (ed: CurveEditor)
        requires
            curve.wf(),
            viewport.wf(),
        ensures
            ed.wf(),
            ed.curve == curve,
            ed.viewport == viewport,
            ed.selected_keyframe is None,
            !ed.dragging,
            ed.tangent_drag is No,
            ed.menu_anchor is None,
    {
        CurveEditor {
            curve,
            viewport,
            selected_keyframe: None,
            dragging: false,
            tangent_drag: TangentEdit::No,
            menu_anchor: None,
        }
    }

    /// Delete the selected keyframe, if any: the curve shrinks by exactly
    /// one keyframe and the selection is cleared; a no-op without a
    /// selection.
    pub fn delete_selected(&mut self)
        requires
            old(self).wf(),
        ensures
            final(self).wf(),
            old(self).selected_keyframe is None ==> *final(self) == *old(self),
            old(self).selected_keyframe matches Some(i) ==> {
                &&& final(self).curve@.len() == old(self).curve@.len() - 1
                &&& final(self).curve@ == with_auto_at(
                    with_auto_at(old(self).curve@.remove(i as int), i as int - 1),
                    i as int,
                )
                &&& final(self).selected_keyframe is None
                &&& final(self).viewport == old(self).viewport
                &&& final(self).dragging == old(self).dragging
                &&& final(self).tangent_drag == old(self).tangent_drag
                &&& final(self).menu_anchor == old(self).menu_anchor
            },
    {
        match self.selected_keyframe {
            None => {},
            Some(i) => {
                self.curve.remove(i);
                self.selected_keyframe = None;
            },
        }
    }

    /// Insert a keyframe at the curve-space time under the pointer, with
    /// the curve's currently evaluated value at that time, defaulting to
    /// Hermite interpolation; the selection moves to the new keyframe, or
    /// is cleared when the insertion is rejected by the collision policy.
    pub fn insert_at_pointer(&mut self, rect: &ScreenRect, pos: ScreenPos)
        requires
            old(self).wf(),
            rect_wf(*rect),
            -PIX_LIMIT <= pos.x <= PIX_LIMIT,
            -PIX_LIMIT <= pos.y <= PIX_LIMIT,
        ensures
            final(self).wf(),
            final(self).viewport == old(self).viewport,
            final(self).dragging == old(self).dragging,
            final(self).tangent_drag == old(self).tangent_drag,
            final(self).menu_anchor == old(self).menu_anchor,
            ({
                let t = clamp_spec(
                    to_curve_t_spec(old(self).viewport, *rect, pos.x as int),
                    -(COORD_LIMIT as int),
                    COORD_LIMIT as int,
                );
                let v = clamp_spec(
                    sample_spec(old(self).curve@, t),
                    -(COORD_LIMIT as int),
                    COORD_LIMIT as int,
                );
                &&& ((exists|k: int|
                    0 <= k < old(self).curve@.len() && (#[trigger] old(self).curve@[k]).time
                        == t) ==> final(self).selected_keyframe is None && final(self).curve@
                    == old(self).curve@)
                &&& ((forall|k: int|
                    0 <= k < old(self).curve@.len() ==> (#[trigger] old(self).curve@[k]).time
                        != t) ==> (final(self).selected_keyframe matches Some(p)
                    && final(self).curve@ == refresh_around(
                        old(self).curve@.insert(
                            p as int,
                            make_kf(t as i64, v as i64, Interpolation::Hermite),
                        ),
                        p as int,
                    )
                    && final(self).curve@[p as int].time == t))
            }),
    {
        let tq = self.viewport.to_curve_t(rect, pos.x);
        let t = clamp_i64(tq, -COORD_LIMIT, COORD_LIMIT);
        let vq = self.curve.sample(t);
        let v = clamp_i64(vq, -COORD_LIMIT, COORD_LIMIT);
        self.selected_keyframe = self.curve.insert(t, v, Interpolation::Hermite);
    }

    /// Apply a context-menu choice to the selected keyframe: `Step` and
    /// `Linear` set the interpolation rule alone; the four tangent modes
    /// switch the keyframe to Hermite interpolation and set its tangent
    /// control. A no-op without a selection.
    pub fn apply_menu_choice(&mut self, choice: MenuChoice)
        requires
            old(self).wf(),
        ensures
            final(self).wf(),
            final(self).viewport == old(self).viewport,
            final(self).selected_keyframe == old(self).selected_keyframe,
            final(self).dragging == old(self).dragging,
            final(self).tangent_drag == old(self).tangent_drag,
            final(self).menu_anchor == old(self).menu_anchor,
            old(self).selected_keyframe is None ==> final(self).curve@ == old(self).curve@,
            old(self).selected_keyframe matches Some(i) ==> {
                let s = old(self).curve@;
                match choice {
                    MenuChoice::Step => final(self).curve@ == s.update(
                        i as int,
                        Keyframe { interpolation: Interpolation::Step, ..s[i as int] },
                    ),
                    MenuChoice::Linear => final(self).curve@ == s.update(
                        i as int,
                        Keyframe { interpolation: Interpolation::Linear, ..s[i as int] },
                    ),
                    MenuChoice::Auto => final(self).curve@ == hermite_with_tc(
                        s,
                        i as int,
                        TangentControl::Auto,
                    ),
                    MenuChoice::Free => final(self).curve@ == hermite_with_tc(
                        s,
                        i as int,
                        TangentControl::Free,
                    ),
                    MenuChoice::Flat => final(self).curve@ == hermite_with_tc(
                        s,
                        i as int,
                        TangentControl::Flat,
                    ),
                    MenuChoice::Broken => final(self).curve@ == hermite_with_tc(
                        s,
                        i as int,
                        TangentControl::Broken,
                    ),
                }
            },
    {
        let i = match self.selected_keyframe {
            None => {
                return ;
            },
            Some(i) => i,
        };
        match choice {
            MenuChoice::Step => self.curve.set_interpolation(i, Interpolation::Step),
            MenuChoice::Linear => self.curve.set_interpolation(i, Interpolation::Linear),
            MenuChoice::Auto => {
                self.curve.set_interpolation(i, Interpolation::Hermite);
                self.curve.set_tangent_control(i, TangentControl::Auto);
            },
            MenuChoice::Free => {
                self.curve.set_interpolation(i, Interpolation::Hermite);
                self.curve.set_tangent_control(i, TangentControl::Free);
            },
            MenuChoice::Flat => {
                self.curve.set_interpolation(i, Interpolation::Hermite);
                self.curve.set_tangent_control(i, TangentControl::Flat);
            },
            MenuChoice::Broken => {
                self.curve.set_interpolation(i, Interpolation::Hermite);
                self.curve.set_tangent_control(i, TangentControl::Broken);
            },
        }
    }
}

/// The sequence after switching the keyframe at `i` to Hermite
/// interpolation and then to tangent control `mode` (with the refresh the
/// switch triggers).
pub open spec fn hermite_with_tc(s: Seq<Keyframe>, i: int, mode: TangentControl) -> Seq<
    Keyframe,
> {
    let mid = s.update(i, Keyframe { interpolation: Interpolation::Hermite, ..s[i] });
    with_auto_at(mid.update(i, tc_applied(mid[i], mode)), i)
}

/// A scaled quotient that keeps the numerator's sign: a positive slope
/// smaller than one tick would floor to 0, so it saturates to 1 tick (a
/// negative one already floors to -1 or below).
pub open spec fn signed_slope(num: int, den: int) -> int {
    let q = num / den;
    if num > 0 && q == 0 {
        1
    } else {
        q
    }
}

/// Convert a curve-space direction from a keyframe toward the pointer
/// into a tangent slope: the value delta over the time delta, in
/// `SCALE`-scaled units, clamped to the tangent bound; a vertical
/// direction saturates to the bound with the sign of the value delta, and
/// a nonzero sub-tick slope keeps its sign (never flattens to 0).
pub open spec fn to_tangent_spec(dx: int, dy: int) -> int {
    if dx == 0 {
        if dy > 0 {
            TAN_LIMIT as int
        } else if dy < 0 {
            -(TAN_LIMIT as int)
        } else {
            0
        }
    } else if dx > 0 {
        clamp_spec(signed_slope(dy * (SCALE as int), dx), -(TAN_LIMIT as int), TAN_LIMIT as int)
    } else {
        clamp_spec(
            signed_slope((-dy) * (SCALE as int), -dx),
            -(TAN_LIMIT as int),
            TAN_LIMIT as int,
        )
    }
}

/// Convert a pointer direction to a tangent slope.
pub fn to_tangent(dx: i64, dy: i64) -> (slope: i64)
    requires
        -20_000_000_000_000_000 <= dx <= 20_000_000_000_000_000,
        -20_000_000_000_000_000 <= dy <= 20_000_000_000_000_000,
    ensures
        slope as int == to_tangent_spec(dx as int, dy as int),
        -TAN_LIMIT <= slope <= TAN_LIMIT,
        (dx > 0 && dy > 0) || (dx < 0 && dy < 0) ==> slope >= 1,
        (dx > 0 && dy < 0) || (dx < 0 && dy > 0) ==> slope <= -1,
        dy == 0 ==> slope == 0,
{
    if dx == 0 {
        if dy > 0 {
            TAN_LIMIT
        } else if dy < 0 {
            -TAN_LIMIT
        } else {
            0
        }
    } else if dx > 0 {
        let num: i128 = mulb_i128(dy as i128, SCALE as i128, 20_000_000_000_000_000, 1000);
        let q0: i128 = fdiv_i128(num, dx as i128);
        proof {
            lemma_div_abs(num as int, dx as int);
            if num < 0 {
                crate::math::lemma_neg_div_is_negative(num as int, dx as int);
            }
            if num > 0 {
                vstd::arithmetic::div_mod::lemma_div_pos_is_pos(num as int, dx as int);
            }
        }
        let q: i128 = if num > 0 && q0 == 0 {
            1
        } else {
            q0
        };
        clamp_i64(saturate_i64(q), -TAN_LIMIT, TAN_LIMIT)
    } else {
        let num: i128 = mulb_i128(-(dy as i128), SCALE as i128, 20_000_000_000_000_000, 1000);
        let q0: i128 = fdiv_i128(num, -(dx as i128));
        proof {
            lemma_div_abs(num as int, -(dx as int));
            if num < 0 {
                crate::math::lemma_neg_div_is_negative(num as int, -(dx as int));
            }
            if num > 0 {
                vstd::arithmetic::div_mod::lemma_div_pos_is_pos(num as int, -(dx as int));
            }
        }
        let q: i128 = if num > 0 && q0 == 0 {
            1
        } else {
            q0
        };
        clamp_i64(saturate_i64(q), -TAN_LIMIT, TAN_LIMIT)
    }
}

/// The tangent direction that `to_tangent` inverts: one time unit forward
/// and `slope` value units upward, in curve-space ticks.
pub fn to_dir(slope: i64) -> (d: (i64, i64))
    requires
        -TAN_LIMIT <= slope <= TAN_LIMIT,
    ensures
        d.0 == SCALE,
        d.1 == slope,
        to_tangent_spec(d.0 as int, d.1 as int) == slope,
{
    proof {
        lemma_slope_round_trip(slope as int);
    }
    (SCALE, slope)
}

/// The slope-to-direction conversion round-trips: reading the slope back
/// from the direction `to_dir` gives returns the slope exactly.
pub proof fn lemma_slope_round_trip(slope: int)
    requires
        -TAN_LIMIT <= slope <= TAN_LIMIT,
    ensures
        to_tangent_spec(SCALE as int, slope) == slope,
{
    crate::math::lemma_mul_div_exact(slope, SCALE as int);
}

/// Marker radii, in tenths of a pixel.
pub const KEYFRAME_RADIUS: i64 = 25;

pub const TANGENT_RADIUS: i64 = 15;

pub const PREVIEW_RADIUS: i64 = 20;

/// Half-width of a marker's square hit region, in pixels.
pub const HIT_RADIUS: i64 = 6;

/// The circle that `dot` draws: enlarged and `Hovered` under the pointer,
/// `Selected` when selected, the caller's tone otherwise.
pub open spec fn dot_cmd_spec(
    pointer: Option<ScreenPos>,
    selected: bool,
    x: i64,
    y: i64,
    radius: i64,
    select_radius: i64,
    tone: Tone,
) -> DrawCmd {
    let hit = hit_spec(pointer, x as int, y as int, select_radius as int);
    DrawCmd::Circle {
        x,
        y,
        radius: if hit {
            (radius * 12 / 10) as i64
        } else {
            radius
        },
        tone: if hit {
            Tone::Hovered
        } else if selected {
            Tone::Selected
        } else {
            tone
        },
    }
}

/// Hit-test one marker against the pointer, draw it in the tone of its
/// state, and report what the selection protocol decides:
/// `r.0` — the marker is selected after this frame: a hovered marker stays
/// or becomes selected on a press, a selected marker stays selected while
/// hovered or while the button is held (mid-drag), and is deselected once
/// the button is up away from it;
/// `r.1` — a press is acting on the marker this frame (this edge starts a
/// drag);
/// `r.2` — the pointer is over the marker's hit region.
pub fn dot(
    cmds: &mut Vec<DrawCmd>,
    pointer: Option<ScreenPos>,
    pointer_down: bool,
    selected: bool,
    x: i64,
    y: i64,
    radius: i64,
    select_radius: i64,
    tone: Tone,
) -> (r: (bool, bool, bool))
    requires
        0 <= radius <= 1000,
        0 < select_radius <= 1000,
        -SCREEN_CLAMP <= x <= SCREEN_CLAMP,
        -SCREEN_CLAMP <= y <= SCREEN_CLAMP,
        pointer matches Some(p) ==> -PIX_LIMIT <= p.x <= PIX_LIMIT && -PIX_LIMIT <= p.y
            <= PIX_LIMIT,
    ensures
        ({
            let hit = hit_spec(pointer, x as int, y as int, select_radius as int);
            &&& r.2 == hit
            &&& r.0 == if hit {
                selected || pointer_down
            } else {
                selected && pointer_down
            }
            &&& r.1 == (hit && pointer_down)
            &&& final(cmds)@ == old(cmds)@.push(
                dot_cmd_spec(pointer, selected, x, y, radius, select_radius, tone),
            )
        }),
{
    let hit = match pointer {
        Some(p) => {
            let ddx = mulb_i128((p.x - x) as i128, (p.x - x) as i128, 20_000_000, 20_000_000);
            let ddy = mulb_i128((p.y - y) as i128, (p.y - y) as i128, 20_000_000, 20_000_000);
            let rr = mulb_i128(select_radius as i128, select_radius as i128, 1000, 1000);
            ddx + ddy <= rr
        },
        None => false,
    };
    if hit {
        let grown = (((radius as u64) * 12) / 10) as i64;
        cmds.push(DrawCmd::Circle { x, y, radius: grown, tone: Tone::Hovered });
        ((selected || pointer_down), pointer_down, true)
    } else if selected {
        cmds.push(DrawCmd::Circle { x, y, radius, tone: Tone::Selected });
        (pointer_down, false, false)
    } else {
        cmds.push(DrawCmd::Circle { x, y, radius, tone });
        (false, false, false)
    }
}

/// The screen-space offset from a keyframe's marker to its outgoing
/// tangent handle: the tangent direction `(SCALE, slope)` mapped through
/// the per-axis viewport scales (value axis inverted), then scaled to a
/// handle length of about 50 pixels by its larger component.
pub open spec fn handle_delta_spec(vp: Viewport, r: ScreenRect, slope: int) -> (int, int) {
    let vx = (SCALE as int) * (r.max_x - r.min_x) / (vp.range_t as int);
    let vy = (-slope) * (r.max_y - r.min_y) / (vp.range_v as int);
    let ax = if vx < 0 {
        -vx
    } else {
        vx
    };
    let ay = if vy < 0 {
        -vy
    } else {
        vy
    };
    let m = if ax > ay && ax > 1 {
        ax
    } else if ay > 1 {
        ay
    } else {
        1
    };
    (vx * 50 / m, vy * 50 / m)
}

/// Compute the screen-space offset to the outgoing tangent handle.
pub fn handle_delta(vp: &Viewport, rect: &ScreenRect, slope: i64) -> (d: (i64, i64))
    requires
        vp.wf(),
        rect_wf(*rect),
        -TAN_LIMIT <= slope <= TAN_LIMIT,
    ensures
        (d.0 as int, d.1 as int) == handle_delta_spec(*vp, *rect, slope as int),
        -100_000_000_000 <= d.0 <= 100_000_000_000,
        -10_000_000_000_000_000 <= d.1 <= 10_000_000_000_000_000,
{
    let vx: i128 = fdiv_i128(
        mulb_i128(SCALE as i128, (rect.max_x - rect.min_x) as i128, 1000, 2_000_000),
        vp.range_t as i128,
    );
    proof {
        lemma_div_abs((SCALE as int) * ((rect.max_x - rect.min_x) as int), vp.range_t as int);
    }
    let vy: i128 = fdiv_i128(
        mulb_i128(-(slope as i128), (rect.max_y - rect.min_y) as i128, 100_000_000, 2_000_000),
        vp.range_v as i128,
    );
    proof {
        lemma_div_abs((-(slope as int)) * ((rect.max_y - rect.min_y) as int), vp.range_v as int);
    }
    let ax: i128 = if vx < 0 {
        -vx
    } else {
        vx
    };
    let ay: i128 = if vy < 0 {
        -vy
    } else {
        vy
    };
    let m: i128 = if ax > ay && ax > 1 {
        ax
    } else if ay > 1 {
        ay
    } else {
        1
    };
    let dx: i128 = fdiv_i128(mulb_i128(vx, 50, 2_000_000_000, 50), m);
    proof {
        lemma_div_abs((vx as int) * 50, m as int);
    }
    let dy: i128 = fdiv_i128(mulb_i128(vy, 50, 200_000_000_000_000, 50), m);
    proof {
        lemma_div_abs((vy as int) * 50, m as int);
    }
    (dx as i64, dy as i64)
}

/// The query time of polyline sample `i`: the visible time span split in
/// 255 equal steps from the left edge.
pub open spec fn sample_time_spec(vp: Viewport, i: int) -> int {
    vp.offset_t + (vp.range_t as int) * i / 255
}

/// Polyline segment `i` (1 to 255): a line between the screen projections
/// of samples `i - 1` and `i`.
pub open spec fn polyline_cmd_spec(s: Seq<Keyframe>, vp: Viewport, r: ScreenRect, i: int) -> DrawCmd {
    DrawCmd::Line {
        x0: to_screen_x_spec(vp, r, sample_time_spec(vp, i - 1)) as i64,
        y0: to_screen_y_spec(vp, r, sample_spec(s, sample_time_spec(vp, i - 1))) as i64,
        x1: to_screen_x_spec(vp, r, sample_time_spec(vp, i)) as i64,
        y1: to_screen_y_spec(vp, r, sample_spec(s, sample_time_spec(vp, i))) as i64,
        tone: Tone::Primary,
    }
}

/// Render the curve polyline over the visible time span as 255 line
/// segments between 256 samples, reusing one forward cursor across the
/// non-decreasing sample times.
pub fn render_curve(curve: &Curve, vp: &Viewport, rect: &ScreenRect, cmds: &mut Vec<DrawCmd>)
    requires
        curve.wf(),
        vp.wf(),
        rect_wf(*rect),
    ensures
        final(cmds)@.len() == old(cmds)@.len() + 255,
        old(cmds)@.is_prefix_of(final(cmds)@),
        forall|i: int|
            1 <= i <= 255 ==> final(cmds)@[old(cmds)@.len() + i - 1] == polyline_cmd_spec(
                curve@,
                *vp,
                *rect,
                i,
            ),
{
    let ghost base = cmds@;
    let t0: i64 = vp.offset_t;
    proof {
        assert((vp.range_t as int) * 0 == 0) by (nonlinear_arith);
        assert(sample_time_spec(*vp, 0) == vp.offset_t as int);
    }
    let r0 = curve.sample_with_cursor(0, t0);
    let mut cursor: usize = r0.0;
    let mut prev_t: i64 = t0;
    let mut prev_v: i64 = r0.1;
    let mut x0: i64 = vp.to_screen_x(rect, prev_t);
    let mut y0: i64 = vp.to_screen_y(rect, prev_v);
    let mut i: usize = 1;
    while i < 256
        invariant
            curve.wf(),
            vp.wf(),
            rect_wf(*rect),
            1 <= i <= 256,
            crate::sample::cursor_ok(curve@, cursor as int, prev_t as int),
            curve@.len() > 0 ==> (cursor as int) < curve@.len(),
            curve@.len() == 0 ==> cursor == 0,
            prev_t as int == sample_time_spec(*vp, i - 1),
            -200_000_000_000 <= prev_t <= 200_000_000_000,
            prev_v as int == sample_spec(curve@, prev_t as int),
            -crate::math::SAMPLE_LIMIT <= prev_v <= crate::math::SAMPLE_LIMIT,
            x0 as int == to_screen_x_spec(*vp, *rect, prev_t as int),
            y0 as int == to_screen_y_spec(*vp, *rect, prev_v as int),
            cmds@.len() == base.len() + i - 1,
            base.is_prefix_of(cmds@),
            forall|j: int|
                1 <= j < i ==> cmds@[base.len() + j - 1] == polyline_cmd_spec(
                    curve@,
                    *vp,
                    *rect,
                    j,
                ),
        decreases 256 - i,
    {
        let step: i128 = fdiv_i128(
            mulb_i128(vp.range_t as i128, i as i128, 4_000_000_000, 255),
            255,
        );
        proof {
            crate::math::lemma_blend_bound(vp.range_t as int, i as int, 255);
            lemma_mul_inequality(i as int - 1, i as int, vp.range_t as int);
            lemma_mul_is_commutative(i as int - 1, vp.range_t as int);
            lemma_mul_is_commutative(i as int, vp.range_t as int);
            lemma_div_is_ordered(
                (vp.range_t as int) * (i as int - 1),
                (vp.range_t as int) * (i as int),
                255,
            );
        }
        let ti: i64 = vp.offset_t + (step as i64);
        let rs = curve.sample_with_cursor(cursor, ti);
        let x1: i64 = vp.to_screen_x(rect, ti);
        let y1: i64 = vp.to_screen_y(rect, rs.1);
        cmds.push(DrawCmd::Line { x0, y0, x1, y1, tone: Tone::Primary });
        cursor = rs.0;
        prev_t = ti;
        prev_v = rs.1;
        x0 = x1;
        y0 = y1;
        i += 1;
    }
}

impl CurveEditor {
    /// One drag step of the selected keyframe `i` toward the pointer `p`,
    /// given the keyframe's rendered position `(px, py)`: a one-pixel
    /// jitter gate per axis; past the vertical gate the keyframe's value
    /// becomes the curve-space value under the pointer
    /// (`drag_value_spec`), past the horizontal gate its time becomes the
    /// curve-space time under the pointer (`drag_time_target`), and when
    /// that move crosses a neighbor the selection is re-targeted to the
    /// returned index.
    #[verifier::rlimit(100)]
    #[verifier::spinoff_prover]
    pub fn drag_selected(
        &mut self,
        rect: &ScreenRect,
        p: ScreenPos,
        i: usize,
        px: i64,
        py: i64,
    ) -> (moved: Option<usize>)
        requires
            old(self).wf(),
            rect_wf(*rect),
            i < old(self).curve@.len(),
            -PIX_LIMIT <= p.x <= PIX_LIMIT,
            -PIX_LIMIT <= p.y <= PIX_LIMIT,
            -SCREEN_CLAMP <= px <= SCREEN_CLAMP,
            -SCREEN_CLAMP <= py <= SCREEN_CLAMP,
        ensures
            final(self).wf(),
            final(self).viewport == old(self).viewport,
            final(self).menu_anchor == old(self).menu_anchor,
            final(self).dragging == old(self).dragging,
            final(self).tangent_drag == old(self).tangent_drag,
            final(self).curve@.len() == old(self).curve@.len(),
            moved is None ==> final(self).selected_keyframe == old(self).selected_keyframe,
            ({
                let s1 = drag_value_spec(*old(self), *rect, p, i as int, py as int);
                let t = drag_time_target(*old(self), *rect, p);
                let gate_x = p.x <= px - 1 || p.x >= px + 1;
                &&& (!gate_x ==> final(self).curve@ == s1 && moved is None)
                &&& ((gate_x && (exists|k: int|
                    0 <= k < s1.len() && k != i && (#[trigger] s1[k]).time == t))
                    ==> final(self).curve@ == s1 && moved is None)
                &&& ((gate_x && (forall|k: int|
                    0 <= k < s1.len() && k != i ==> (#[trigger] s1[k]).time != t)) ==> {
                    let s2 = s1.remove(i as int);
                    let movedkf = Keyframe { time: t as i64, ..s1[i as int] };
                    &&& (moved is None ==> final(self).curve@ == refresh_around(
                        refresh_around(s2.insert(i as int, movedkf), i as int),
                        i as int,
                    ) && final(self).curve@[i as int].time == t)
                    &&& (moved matches Some(k) ==> {
                        let site = if k < i {
                            i as int + 1
                        } else {
                            i as int
                        };
                        &&& k != i
                        &&& (k as int) < s1.len()
                        &&& final(self).curve@ == refresh_around(
                            refresh_around(s2.insert(k as int, movedkf), site),
                            k as int,
                        )
                        &&& final(self).curve@[k as int].time == t
                        &&& final(self).curve@[k as int].value == s1[i as int].value
                        &&& final(self).selected_keyframe == Some(k)
                    })
                })
            }),
    {
        if p.y <= py - 1 || p.y >= py + 1 {
            let vq = self.viewport.to_curve_v(rect, p.y);
            let v = clamp_i64(vq, -COORD_LIMIT, COORD_LIMIT);
            self.curve.set_value(i, v);
        }
        proof {
            assert(self.curve@ == drag_value_spec(*old(self), *rect, p, i as int, py as int));
        }
        let ghost s1 = self.curve@;
        let mut moved: Option<usize> = None;
        if p.x <= px - 1 || p.x >= px + 1 {
            let tq = self.viewport.to_curve_t(rect, p.x);
            let t = clamp_i64(tq, -COORD_LIMIT, COORD_LIMIT);
            proof {
                assert(t as int == drag_time_target(*old(self), *rect, p));
            }
            let r = self.curve.set_time(i, t);
            proof {
                if exists|k: int|
                    0 <= k < s1.len() && k != i && (#[trigger] s1[k]).time == t {
                    assert(self.curve@ == s1);
                    assert(r is None);
                }
            }
            match r {
                Some(k) => {
                    // The sequence reordered: re-target the selection.
                    self.selected_keyframe = Some(k);
                    moved = Some(k);
                },
                None => {},
            }
        }
        moved
    }

    /// Apply one tangent-handle drag for keyframe `i`: the pointer's
    /// curve-space offset from the keyframe becomes the slope; under
    /// `Broken` only the dragged side is set (`drag_out` picks it), every
    /// other hand-editable mode mirrors the slope to both sides (and under
    /// `Auto` or `Flat` the setters leave the curve unchanged).
    pub fn apply_tangent_drag(&mut self, rect: &ScreenRect, p: ScreenPos, i: usize, drag_out: bool)
        requires
            old(self).wf(),
            rect_wf(*rect),
            i < old(self).curve@.len(),
            -PIX_LIMIT <= p.x <= PIX_LIMIT,
            -PIX_LIMIT <= p.y <= PIX_LIMIT,
        ensures
            final(self).wf(),
            final(self).viewport == old(self).viewport,
            final(self).menu_anchor == old(self).menu_anchor,
            final(self).selected_keyframe == old(self).selected_keyframe,
            final(self).dragging == old(self).dragging,
            final(self).tangent_drag == old(self).tangent_drag,
            final(self).curve@.len() == old(self).curve@.len(),
            ({
                let kf = old(self).curve@[i as int];
                let vp = old(self).viewport;
                let slope = to_tangent_spec(
                    to_curve_t_spec(vp, *rect, p.x as int) - kf.time,
                    to_curve_v_spec(vp, *rect, p.y as int) - kf.value,
                );
                &&& (kf.tangent_control is Broken && drag_out ==> final(self).curve@ == old(
                    self,
                ).curve@.update(i as int, set_out_spec(kf, slope as i64)))
                &&& (kf.tangent_control is Broken && !drag_out ==> final(self).curve@ == old(
                    self,
                ).curve@.update(i as int, set_in_spec(kf, slope as i64)))
                &&& (!(kf.tangent_control is Broken) ==> final(self).curve@ == old(
                    self,
                ).curve@.update(i as int, set_in_out_spec(kf, slope as i64)))
            }),
    {
        let kf = self.curve.get_keyframe(i);
        let c = self.viewport.to_curve(rect, p.x, p.y);
        let slope = to_tangent(c.0 - kf.time, c.1 - kf.value);
        if kf.tangent_control == TangentControl::Broken {
            if drag_out {
                self.curve.set_out_tangent(i, slope);
            } else {
                self.curve.set_in_tangent(i, slope);
            }
        } else {
            self.curve.set_in_out_tangent(i, slope);
        }
    }

    /// Process every keyframe once, in index order: project it to screen
    /// space, skip it when outside the rectangle, apply the drag protocol
    /// to the selected keyframe (`drag_selected`: jitter-gated value and
    /// time updates, re-targeting the selection when a time drag reorders
    /// the sequence and abandoning the stale index), run the tangent
    /// handle protocol for a selected Hermite keyframe under an editable
    /// tangent mode (edge-triggered on the handles' hit circles, one side
    /// mid-drag at a time, `apply_tangent_drag` for the slope), and run
    /// the marker's own hit/selection protocol (`dot`). The first keyframe
    /// whose hit circle contains the pointer claims it; later keyframes
    /// see no pointer. `allow_deselect` is set on the frame where a drag's
    /// press is released: a selected marker that the pointer then neither
    /// presses nor hovers is deselected (an idle selection otherwise
    /// survives pointer movement, so the context menu can act on it).
    /// Without a held button and an ongoing drag, the curve is left
    /// untouched, every in-rectangle marker is drawn at its projection,
    /// and from an empty selection the pointer's press selects exactly the
    /// first hit keyframe and starts the drag.
    #[verifier::rlimit(100)]
    pub fn keyframe_pass(
        &mut self,
        rect: &ScreenRect,
        input: &InputSnapshot,
        allow_deselect: bool,
        cmds: &mut Vec<DrawCmd>,
    )
        requires
            old(self).wf(),
            rect_wf(*rect),
            input_wf(*input),
        ensures
            final(self).wf(),
            final(self).viewport == old(self).viewport,
            final(self).menu_anchor == old(self).menu_anchor,
            final(self).curve@.len() == old(self).curve@.len(),
            old(cmds)@.is_prefix_of(final(cmds)@),
            !input.pointer_down ==> final(self).dragging == old(self).dragging,
            !input.pointer_down ==> final(self).tangent_drag is No || final(self).tangent_drag
                == old(self).tangent_drag,
            !input.pointer_down && !old(self).dragging ==> final(self).curve@ == old(
                self,
            ).curve@,
            (!input.pointer_down && !old(self).dragging && !allow_deselect)
                ==> final(self).selected_keyframe == old(self).selected_keyframe,
            old(self).selected_keyframe is None ==> {
                let fh = first_hit_from(
                    old(self).curve@,
                    old(self).viewport,
                    *rect,
                    input.hover_pos,
                    0,
                );
                &&& final(self).curve@ == old(self).curve@
                &&& final(self).tangent_drag == old(self).tangent_drag
                &&& ((input.pointer_down && fh < old(self).curve@.len())
                    ==> final(self).selected_keyframe == Some(fh as usize)
                        && final(self).dragging)
                &&& (!(input.pointer_down && fh < old(self).curve@.len())
                    ==> final(self).selected_keyframe is None
                        && final(self).dragging == old(self).dragging)
            },
            (!input.pointer_down && !old(self).dragging) ==> (forall|j: int|
                0 <= j < old(self).curve@.len() && #[trigger] kf_in_rect(
                    old(self).viewport,
                    *rect,
                    old(self).curve@[j],
                ) ==> (exists|c: int|
                    old(cmds)@.len() <= c < final(cmds)@.len() && #[trigger] marker_at(
                        final(cmds)@[c],
                        to_screen_x_spec(old(self).viewport, *rect, old(self).curve@[j].time as int),
                        to_screen_y_spec(
                            old(self).viewport,
                            *rect,
                            old(self).curve@[j].value as int,
                        ),
                    ))),
    {
        let ghost s0 = self.curve@;
        let ghost d0 = self.dragging;
        let ghost td0 = self.tangent_drag;
        let ghost sel0 = self.selected_keyframe;
        let ghost vp0 = self.viewport;
        let ghost ptr = input.hover_pos;
        let ghost fh = first_hit_from(s0, vp0, *rect, ptr, 0);
        proof {
            lemma_first_hit_bounds(s0, vp0, *rect, ptr, 0);
        }
        let ghost base = cmds@;
        let n = self.curve.len();
        let mut taken = false;
        let mut i: usize = 0;
        while i < n
            invariant
                self.wf(),
                rect_wf(*rect),
                input_wf(*input),
                self.viewport == vp0,
                vp0 == old(self).viewport,
                self.menu_anchor == old(self).menu_anchor,
                self.curve@.len() == n,
                n == s0.len(),
                s0 == old(self).curve@,
                d0 == old(self).dragging,
                td0 == old(self).tangent_drag,
                sel0 == old(self).selected_keyframe,
                ptr == input.hover_pos,
                fh == first_hit_from(s0, vp0, *rect, ptr, 0),
                0 <= fh <= n,
                base == old(cmds)@,
                i <= n,
                base.is_prefix_of(cmds@),
                !input.pointer_down ==> self.dragging == d0,
                !input.pointer_down ==> self.tangent_drag is No || self.tangent_drag == td0,
                !input.pointer_down && !d0 ==> self.curve@ == s0,
                (!input.pointer_down && !d0 && !allow_deselect) ==> self.selected_keyframe
                    == sel0,
                sel0 is None ==> self.curve@ == s0 && self.tangent_drag == td0,
                sel0 is None && fh >= i ==> !taken && self.selected_keyframe is None
                    && self.dragging == d0 && first_hit_from(s0, vp0, *rect, ptr, i as int)
                    == fh,
                sel0 is None && fh < i ==> taken && (input.pointer_down
                    ==> self.selected_keyframe == Some(fh as usize) && self.dragging) && (
                !input.pointer_down ==> self.selected_keyframe is None && self.dragging == d0),
                (!input.pointer_down && !d0) ==> (forall|j: int|
                    0 <= j < i && #[trigger] kf_in_rect(vp0, *rect, s0[j]) ==> (exists|c: int|
                        base.len() <= c < cmds@.len() && #[trigger] marker_at(
                            cmds@[c],
                            to_screen_x_spec(vp0, *rect, s0[j].time as int),
                            to_screen_y_spec(vp0, *rect, s0[j].value as int),
                        ))),
            decreases n - i,
        {
            let ghost cmds_pre = cmds@;
            let kf0 = self.curve.get_keyframe(i);
            let px = self.viewport.to_screen_x(rect, kf0.time);
            let py = self.viewport.to_screen_y(rect, kf0.value);
            if px < rect.min_x || px > rect.max_x || py < rect.min_y || py > rect.max_y {
                proof {
                    if sel0 is None && fh >= i {
                        assert(!kf_hit(vp0, *rect, s0[i as int], ptr));
                        assert(first_hit_from(s0, vp0, *rect, ptr, i as int) == first_hit_from(
                            s0,
                            vp0,
                            *rect,
                            ptr,
                            i as int + 1,
                        ));
                        lemma_first_hit_bounds(s0, vp0, *rect, ptr, i as int + 1);
                    }
                }
                i += 1;
                continue ;
            }
            let is_sel = match self.selected_keyframe {
                Some(s) => s == i,
                None => false,
            };
            // Drag the selected keyframe toward the pointer.
            if is_sel && self.dragging {
                if let Some(p) = input.hover_pos {
                    let moved = self.drag_selected(rect, p, i, px, py);
                    if moved.is_some() {
                        // The sequence reordered: abandon the stale index.
                        i += 1;
                        continue ;
                    }
                }
            }
            // Tangent handles of a selected Hermite keyframe, when its
            // tangent mode is hand-editable.
            if is_sel {
                let kf = self.curve.get_keyframe(i);
                if kf.interpolation == Interpolation::Hermite && kf.tangent_control
                    != TangentControl::Auto && kf.tangent_control != TangentControl::Flat {
                    let din = handle_delta(&self.viewport, rect, kf.in_tangent);
                    let dout = handle_delta(&self.viewport, rect, kf.out_tangent);
                    let hix = clamp_i64(px - din.0, -SCREEN_CLAMP, SCREEN_CLAMP);
                    let hiy = clamp_i64(py - din.1, -SCREEN_CLAMP, SCREEN_CLAMP);
                    let hox = clamp_i64(px + dout.0, -SCREEN_CLAMP, SCREEN_CLAMP);
                    let hoy = clamp_i64(py + dout.1, -SCREEN_CLAMP, SCREEN_CLAMP);
                    cmds.push(DrawCmd::Line {
                        x0: px,
                        y0: py,
                        x1: hix,
                        y1: hiy,
                        tone: Tone::Muted,
                    });
                    cmds.push(DrawCmd::Line {
                        x0: px,
                        y0: py,
                        x1: hox,
                        y1: hoy,
                        tone: Tone::Muted,
                    });
                    let was_in = self.tangent_drag == TangentEdit::In;
                    let rin = dot(
                        cmds,
                        input.hover_pos,
                        input.pointer_down,
                        was_in,
                        hix,
                        hiy,
                        TANGENT_RADIUS,
                        HIT_RADIUS,
                        Tone::Muted,
                    );
                    if rin.0 && input.pointer_down {
                        self.tangent_drag = TangentEdit::In;
                        if let Some(p) = input.hover_pos {
                            self.apply_tangent_drag(rect, p, i, false);
                        }
                    } else if was_in {
                        self.tangent_drag = TangentEdit::No;
                    }
                    let was_out = self.tangent_drag == TangentEdit::Out;
                    let rout = dot(
                        cmds,
                        input.hover_pos,
                        input.pointer_down,
                        was_out,
                        hox,
                        hoy,
                        TANGENT_RADIUS,
                        HIT_RADIUS,
                        Tone::Muted,
                    );
                    if rout.0 && input.pointer_down {
                        self.tangent_drag = TangentEdit::Out;
                        if let Some(p) = input.hover_pos {
                            self.apply_tangent_drag(rect, p, i, true);
                        }
                    } else if was_out {
                        self.tangent_drag = TangentEdit::No;
                    }
                }
            }
            // The keyframe's own marker: hit, selection, drag start.
            let pointer_eff = if taken {
                None
            } else {
                input.hover_pos
            };
            let rk = dot(
                cmds,
                pointer_eff,
                input.pointer_down,
                is_sel,
                px,
                py,
                KEYFRAME_RADIUS,
                HIT_RADIUS,
                Tone::Primary,
            );
            if rk.2 {
                taken = true;
            }
            if rk.0 {
                self.selected_keyframe = Some(i);
                self.dragging = self.dragging || rk.1;
            } else if is_sel && allow_deselect {
                self.selected_keyframe = None;
            }
            proof {
                if sel0 is None && fh >= i {
                    assert(kf_hit(vp0, *rect, s0[i as int], ptr) <==> rk.2);
                    if !rk.2 {
                        assert(first_hit_from(s0, vp0, *rect, ptr, i as int) == first_hit_from(
                            s0,
                            vp0,
                            *rect,
                            ptr,
                            i as int + 1,
                        ));
                        lemma_first_hit_bounds(s0, vp0, *rect, ptr, i as int + 1);
                    } else {
                        assert(first_hit_from(s0, vp0, *rect, ptr, i as int) == i);
                    }
                }
                if !input.pointer_down && !d0 {
                    assert(marker_at(
                        cmds@[cmds@.len() - 1],
                        to_screen_x_spec(vp0, *rect, s0[i as int].time as int),
                        to_screen_y_spec(vp0, *rect, s0[i as int].value as int),
                    ));
                    assert forall|j: int|
                        0 <= j < i + 1 && #[trigger] kf_in_rect(vp0, *rect, s0[j]) implies (
                    exists|c: int|
                        base.len() <= c < cmds@.len() && #[trigger] marker_at(
                            cmds@[c],
                            to_screen_x_spec(vp0, *rect, s0[j].time as int),
                            to_screen_y_spec(vp0, *rect, s0[j].value as int),
                        )) by {
                        if j < i {
                            let c = choose|c: int|
                                base.len() <= c < cmds_pre.len() && #[trigger] marker_at(
                                    cmds_pre[c],
                                    to_screen_x_spec(vp0, *rect, s0[j].time as int),
                                    to_screen_y_spec(vp0, *rect, s0[j].value as int),
                                );
                            assert(cmds@[c] == cmds_pre[c]);
                        } else {
                            assert(marker_at(
                                cmds@[cmds@.len() - 1],
                                to_screen_x_spec(vp0, *rect, s0[j].time as int),
                                to_screen_y_spec(vp0, *rect, s0[j].value as int),
                            ));
                        }
                    }
                }
            }
            i += 1;
        }
    }

    /// One frame of the editor: read the input snapshot, update the
    /// viewport (pan or anchored zoom), run the context menu, render the
    /// curve polyline, reset a drag whose press is gone, show the insert
    /// preview and insert on the insert key, delete the selected keyframe
    /// on the delete key, then run the keyframe pass; returns the frame's
    /// draw commands.
    #[verifier::rlimit(100)]
    pub fn frame(&mut self, rect: &ScreenRect, input: &InputSnapshot) -> (cmds: Vec<DrawCmd>)
        requires
            old(self).wf(),
            rect_wf(*rect),
            input_wf(*input),
        ensures
            final(self).wf(),
            !input.pointer_down ==> !final(self).dragging,
            !input.pointer_down ==> final(self).tangent_drag is No || final(self).tangent_drag
                == old(self).tangent_drag,
            input.pan_active ==> final(self).viewport.range_t == old(self).viewport.range_t
                && final(self).viewport.range_v == old(self).viewport.range_v,
            (!input.pan_active && input.hover_pos is None) ==> final(self).viewport == old(
                self,
            ).viewport,
            (!input.pointer_down && !input.key_insert && !input.key_delete
                && input.menu_choice is None) ==> final(self).curve@ == old(self).curve@,
            input.pan_active ==> final(self).viewport.offset_t as int == clamp_spec(
                old(self).viewport.offset_t - input.drag_dx * (old(self).viewport.range_t as int)
                    / (rect.max_x - rect.min_x),
                -(crate::math::OFF_LIMIT as int),
                crate::math::OFF_LIMIT as int,
            ) && final(self).viewport.offset_v as int == clamp_spec(
                old(self).viewport.offset_v + input.drag_dy * (old(self).viewport.range_v as int)
                    / (rect.max_y - rect.min_y),
                -(crate::math::OFF_LIMIT as int),
                crate::math::OFF_LIMIT as int,
            ),
            (!input.pan_active && input.hover_pos is Some && input.scroll_delta != 0
                && !input.zoom_value_axis) ==> final(self).viewport.range_t as int
                == crate::viewport::zoom_range_spec(
                old(self).viewport.range_t as int,
                input.scroll_delta as int,
                (rect.max_x - rect.min_x) as int,
            ) && final(self).viewport.range_v == old(self).viewport.range_v,
            (!input.pan_active && input.hover_pos is Some && input.scroll_delta != 0
                && input.zoom_value_axis) ==> final(self).viewport.range_v as int
                == crate::viewport::zoom_range_spec(
                old(self).viewport.range_v as int,
                input.scroll_delta as int,
                (rect.max_y - rect.min_y) as int,
            ) && final(self).viewport.range_t == old(self).viewport.range_t,
            (input.key_delete && !input.key_insert && old(self).selected_keyframe is Some)
                ==> final(self).curve@.len() == old(self).curve@.len() - 1,
            (!input.pointer_down && !old(self).dragging && !input.key_insert
                && !input.key_delete && input.menu_choice is None)
                ==> final(self).selected_keyframe == old(self).selected_keyframe,
            input.menu_choice is None ==> {
                &&& cmds@.len() >= 255
                &&& (forall|k: int|
                    1 <= k <= 255 ==> cmds@[k - 1] == polyline_cmd_spec(
                        old(self).curve@,
                        final(self).viewport,
                        *rect,
                        k,
                    ))
            },
            input.hover_pos matches Some(p) ==> (input.menu_choice is None ==> {
                let t = clamp_spec(
                    to_curve_t_spec(final(self).viewport, *rect, p.x as int),
                    -(COORD_LIMIT as int),
                    COORD_LIMIT as int,
                );
                &&& cmds@.len() >= 256
                &&& cmds@[255] == (DrawCmd::Circle {
                    x: p.x,
                    y: to_screen_y_spec(
                        final(self).viewport,
                        *rect,
                        sample_spec(old(self).curve@, t),
                    ) as i64,
                    radius: PREVIEW_RADIUS,
                    tone: Tone::Muted,
                })
            }),
            input.hover_pos matches Some(p) ==> ((input.key_insert && !input.key_delete
                && !input.pointer_down && input.menu_choice is None) ==> {
                let t = clamp_spec(
                    to_curve_t_spec(final(self).viewport, *rect, p.x as int),
                    -(COORD_LIMIT as int),
                    COORD_LIMIT as int,
                );
                let v = clamp_spec(
                    sample_spec(old(self).curve@, t),
                    -(COORD_LIMIT as int),
                    COORD_LIMIT as int,
                );
                &&& ((exists|k: int|
                    0 <= k < old(self).curve@.len() && (#[trigger] old(self).curve@[k]).time
                        == t) ==> final(self).curve@ == old(self).curve@
                    && final(self).selected_keyframe is None)
                &&& ((forall|k: int|
                    0 <= k < old(self).curve@.len() ==> (#[trigger] old(self).curve@[k]).time
                        != t) ==> (final(self).selected_keyframe matches Some(q)
                    && final(self).curve@ == refresh_around(
                        old(self).curve@.insert(
                            q as int,
                            make_kf(t as i64, v as i64, Interpolation::Hermite),
                        ),
                        q as int,
                    )
                    && final(self).curve@[q as int].time == t))
            }),
            (old(self).menu_anchor is Some && input.menu_choice is Some)
                ==> final(self).menu_anchor is None,
            input.menu_choice matches Some(ch) ==> (old(self).selected_keyframe matches Some(
                i,
            ) ==> ((old(self).menu_anchor is Some && !input.key_insert && !input.key_delete
                && !input.pointer_down && !old(self).dragging) ==> {
                &&& final(self).selected_keyframe == old(self).selected_keyframe
                &&& match ch {
                    MenuChoice::Step => final(self).curve@ == old(self).curve@.update(
                        i as int,
                        Keyframe { interpolation: Interpolation::Step, ..old(self).curve@[i as int] },
                    ),
                    MenuChoice::Linear => final(self).curve@ == old(self).curve@.update(
                        i as int,
                        Keyframe { interpolation: Interpolation::Linear, ..old(self).curve@[i as int] },
                    ),
                    MenuChoice::Auto => final(self).curve@ == hermite_with_tc(
                        old(self).curve@,
                        i as int,
                        TangentControl::Auto,
                    ),
                    MenuChoice::Free => final(self).curve@ == hermite_with_tc(
                        old(self).curve@,
                        i as int,
                        TangentControl::Free,
                    ),
                    MenuChoice::Flat => final(self).curve@ == hermite_with_tc(
                        old(self).curve@,
                        i as int,
                        TangentControl::Flat,
                    ),
                    MenuChoice::Broken => final(self).curve@ == hermite_with_tc(
                        old(self).curve@,
                        i as int,
                        TangentControl::Broken,
                    ),
                }
            })),
    {
        let mut cmds: Vec<DrawCmd> = Vec::new();
        // 1. Pan with the designated button; otherwise zoom from scroll,
        // anchored at the pointer, on the axis the modifier picks.
        if input.pan_active {
            self.viewport.pan(rect, input.drag_dx, input.drag_dy);
        } else if let Some(p) = input.hover_pos {
            if input.scroll_delta != 0 {
                if input.zoom_value_axis {
                    let py = clamp_i64(p.y, rect.min_y, rect.max_y);
                    self.viewport.zoom_value(rect, py, input.scroll_delta);
                } else {
                    let px = clamp_i64(p.x, rect.min_x, rect.max_x);
                    self.viewport.zoom_time(rect, px, input.scroll_delta);
                }
            }
        }
        // 2. Context menu: the secondary action anchors it at the pointer;
        // an activated option applies to the selected keyframe (the menu
        // is disabled without one) and closes the menu.
        if let Some(p) = input.hover_pos {
            if input.secondary_clicked && self.menu_anchor.is_none() {
                self.menu_anchor = Some(p);
            }
        }
        if self.menu_anchor.is_some() {
            if let Some(choice) = input.menu_choice {
                if self.selected_keyframe.is_some() {
                    self.apply_menu_choice(choice);
                }
                self.menu_anchor = None;
            }
        }
        // 3. The curve polyline over the visible span.
        render_curve(&self.curve, &self.viewport, rect, &mut cmds);
        let ghost post_render = cmds@;
        // 4. Safety reset: a drag cannot outlive its press. Releasing the
        // press ends the drag; the keyframe pass then deselects a marker
        // released away from the pointer.
        let drag_released = self.dragging && !input.pointer_down;
        if !input.pointer_down {
            self.dragging = false;
        }
        // 5. Insert preview at the pointer, and insert on the insert key.
        let mut fresh_selection = false;
        if let Some(p) = input.hover_pos {
            let tq = self.viewport.to_curve_t(rect, p.x);
            let t = clamp_i64(tq, -COORD_LIMIT, COORD_LIMIT);
            let v = self.curve.sample(t);
            let pvy = self.viewport.to_screen_y(rect, v);
            cmds.push(DrawCmd::Circle { x: p.x, y: pvy, radius: PREVIEW_RADIUS, tone: Tone::Muted });
            if input.key_insert {
                self.insert_at_pointer(rect, p);
                if self.selected_keyframe.is_some() {
                    fresh_selection = true;
                }
            }
        }
        // 6. Delete the selected keyframe on the delete key.
        if input.key_delete {
            self.delete_selected();
        }
        // 7. Hit-test, select, drag and render every keyframe.
        let ghost pre_pass = cmds@;
        self.keyframe_pass(rect, input, drag_released && !fresh_selection, &mut cmds);
        proof {
            // The pass only appends: the polyline and the preview keep
            // their positions at the front of the command list.
            assert forall|k: int| 0 <= k < pre_pass.len() implies cmds@[k] == pre_pass[k] by {
                assert(cmds@.subrange(0, pre_pass.len() as int)[k] == cmds@[k]);
            }
            if input.menu_choice is None {
                assert forall|k: int| 1 <= k <= 255 implies cmds@[k - 1] == polyline_cmd_spec(
                    old(self).curve@,
                    self.viewport,
                    *rect,
                    k,
                ) by {
                    assert(pre_pass[k - 1] == post_render[k - 1]);
                    assert(cmds@[k - 1] == pre_pass[k - 1]);
                }
                if input.hover_pos is Some {
                    assert(pre_pass[255] == post_render.push(pre_pass[255])[255]);
                    assert(cmds@[255] == pre_pass[255]);
                }
            }
        }
        cmds
    }
}

/// Narrow an `i128` to `i64`, saturating at `i64`'s largest magnitude.
fn saturate_i64(x: i128) -> (r: i64)
    ensures
        r as int == clamp_spec(x as int, -0x7fff_ffff_ffff_ffff, 0x7fff_ffff_ffff_ffff),
{
    if x < -0x7fff_ffff_ffff_ffff {
        -0x7fff_ffff_ffff_ffff
    } else if x > 0x7fff_ffff_ffff_ffff {
        0x7fff_ffff_ffff_ffff
    } else {
        x as i64
    }
}

} // verus!
