//! The viewport transform: a bidirectional affine mapping between
//! curve space (time, value) and screen space (pixels), driven by a
//! pannable and zoomable offset and range pair.
//!
//! The value axis is inverted between the two spaces: values grow upward,
//! pixel rows grow downward. A zoom gesture rescales one axis of the range
//! while recomputing the offset so that the curve-space point under the
//! pointer stays fixed. A degenerate range never arises: ranges are kept
//! within [1, RANGE_LIMIT] ticks and offsets within [-OFF_LIMIT, OFF_LIMIT].

use vstd::prelude::*;
use crate::math::clamp_spec;
use crate::math::fdiv_i128;
use crate::math::lemma_blend_bound;
use crate::math::lemma_div_abs;
use crate::math::mulb_i128;
use crate::math::OFF_LIMIT;
use crate::math::PIX_LIMIT;
use crate::math::RANGE_LIMIT;
use crate::math::SAMPLE_LIMIT;
use vstd::arithmetic::div_mod::lemma_div_pos_is_pos;
use vstd::arithmetic::mul::lemma_mul_is_commutative;
use vstd::arithmetic::div_mod::lemma_fundamental_div_mod;
use vstd::arithmetic::div_mod::lemma_mod_division_less_than_divisor;

verus! {

/// Hard clamp applied to computed screen positions, far outside any real
/// drawing surface; it only keeps offscreen projections representable.
pub const SCREEN_CLAMP: i64 = 10_000_000;

/// Magnitude bound of `to_curve` results (offset plus a full pixel span
/// scaled by the range).
pub const CURVE_MAP_LIMIT: i64 = 10_000_000_000_000_000;

/// The pixel rectangle of the drawing surface allocated to the editor.
#[derive(Clone, Copy, PartialEq, Eq, Structural, Debug)]
pub struct ScreenRect {
    pub min_x: i64,
    pub min_y: i64,
    pub max_x: i64,
    pub max_y: i64,
}

pub open spec fn rect_wf(r: ScreenRect) -> bool {
    &&& -PIX_LIMIT <= r.min_x < r.max_x <= PIX_LIMIT
    &&& -PIX_LIMIT <= r.min_y < r.max_y <= PIX_LIMIT
}

/// The visible curve-space rectangle: origin (`display_offset`) and extent
/// (`display_range`) per axis, in ticks.
#[derive(Clone, Copy, PartialEq, Eq, Structural, Debug)]
pub struct Viewport {
    pub offset_t: i64,
    pub offset_v: i64,
    pub range_t: i64,
    pub range_v: i64,
}

/// The curve-space time under pixel column `px`.
pub open spec fn to_curve_t_spec(vp: Viewport, r: ScreenRect, px: int) -> int {
    vp.offset_t + (px - r.min_x) * (vp.range_t as int) / (r.max_x - r.min_x)
}

/// The curve-space value under pixel row `py` (the value axis is
/// inverted: the rectangle's bottom row maps to the offset).
pub open spec fn to_curve_v_spec(vp: Viewport, r: ScreenRect, py: int) -> int {
    vp.offset_v + (r.max_y - py) * (vp.range_v as int) / (r.max_y - r.min_y)
}

/// The pixel column of curve-space time `ct`.
pub open spec fn to_screen_x_spec(vp: Viewport, r: ScreenRect, ct: int) -> int {
    clamp_spec(
        r.min_x + (ct - vp.offset_t) * (r.max_x - r.min_x) / (vp.range_t as int),
        -(SCREEN_CLAMP as int),
        SCREEN_CLAMP as int,
    )
}

/// The pixel row of curve-space value `cv`.
pub open spec fn to_screen_y_spec(vp: Viewport, r: ScreenRect, cv: int) -> int {
    clamp_spec(
        r.max_y - (cv - vp.offset_v) * (r.max_y - r.min_y) / (vp.range_v as int),
        -(SCREEN_CLAMP as int),
        SCREEN_CLAMP as int,
    )
}

/// A zoomed axis range: rescaled by `scroll` pixels against the axis's
/// pixel extent, kept within [1, RANGE_LIMIT].
pub open spec fn zoom_range_spec(range: int, scroll: int, ext: int) -> int {
    clamp_spec(range - scroll * range / ext, 1, RANGE_LIMIT as int)
}

impl Viewport {
    pub open spec fn wf(&self) -> bool {
        &&& 1 <= self.range_t <= RANGE_LIMIT
        &&& 1 <= self.range_v <= RANGE_LIMIT
        &&& -OFF_LIMIT <= self.offset_t <= OFF_LIMIT
        &&& -OFF_LIMIT <= self.offset_v <= OFF_LIMIT
    }

    /// A viewport over the given origin and extent. A degenerate (zero or
    /// negative) or oversized span is clamped into [1, RANGE_LIMIT] — one
    /// tick is the positive epsilon that keeps every later division sound —
    /// and the origin is clamped into the offset bounds.
    pub fn new(offset_t: i64, offset_v: i64, range_t: i64, range_v: i64) -> (vp: Viewport)
        ensures
            vp.wf(),
            vp.offset_t as int == clamp_spec(offset_t as int, -(OFF_LIMIT as int), OFF_LIMIT as int),
            vp.offset_v as int == clamp_spec(offset_v as int, -(OFF_LIMIT as int), OFF_LIMIT as int),
            vp.range_t as int == clamp_spec(range_t as int, 1, RANGE_LIMIT as int),
            vp.range_v as int == clamp_spec(range_v as int, 1, RANGE_LIMIT as int),
    {
        Viewport {
            offset_t: crate::math::clamp_i64(offset_t, -OFF_LIMIT, OFF_LIMIT),
            offset_v: crate::math::clamp_i64(offset_v, -OFF_LIMIT, OFF_LIMIT),
            range_t: crate::math::clamp_i64(range_t, 1, RANGE_LIMIT),
            range_v: crate::math::clamp_i64(range_v, 1, RANGE_LIMIT),
        }
    }

    /// The curve-space time under pixel column `px`.
    pub fn to_curve_t(&self, rect: &ScreenRect, px: i64) -> (ct: i64)
        requires
            self.wf(),
            rect_wf(*rect),
            -PIX_LIMIT <= px <= PIX_LIMIT,
        ensures
            ct as int == to_curve_t_spec(*self, *rect, px as int),
            -CURVE_MAP_LIMIT <= ct <= CURVE_MAP_LIMIT,
    {
        let num: i128 = mulb_i128(
            (px - rect.min_x) as i128,
            self.range_t as i128,
            2_000_000,
            4_000_000_000,
        );
        let q: i128 = fdiv_i128(num, (rect.max_x - rect.min_x) as i128);
        proof {
            lemma_div_abs(num as int, (rect.max_x - rect.min_x) as int);
        }
        self.offset_t + (q as i64)
    }

    /// The curve-space value under pixel row `py`.
    pub fn to_curve_v(&self, rect: &ScreenRect, py: i64) -> (cv: i64)
        requires
            self.wf(),
            rect_wf(*rect),
            -PIX_LIMIT <= py <= PIX_LIMIT,
        ensures
            cv as int == to_curve_v_spec(*self, *rect, py as int),
            -CURVE_MAP_LIMIT <= cv <= CURVE_MAP_LIMIT,
    {
        let num: i128 = mulb_i128(
            (rect.max_y - py) as i128,
            self.range_v as i128,
            2_000_000,
            4_000_000_000,
        );
        let q: i128 = fdiv_i128(num, (rect.max_y - rect.min_y) as i128);
        proof {
            lemma_div_abs(num as int, (rect.max_y - rect.min_y) as int);
        }
        self.offset_v + (q as i64)
    }

    /// The pixel column of curve-space time `ct`.
    pub fn to_screen_x(&self, rect: &ScreenRect, ct: i64) -> (sx: i64)
        requires
            self.wf(),
            rect_wf(*rect),
            -SAMPLE_LIMIT <= ct <= SAMPLE_LIMIT,
        ensures
            sx as int == to_screen_x_spec(*self, *rect, ct as int),
            -SCREEN_CLAMP <= sx <= SCREEN_CLAMP,
    {
        let diff: i128 = ct as i128 - self.offset_t as i128;
        let num: i128 = mulb_i128(
            diff,
            (rect.max_x - rect.min_x) as i128,
            3_000_000_000_000_000,
            2_000_000,
        );
        let q: i128 = fdiv_i128(num, self.range_t as i128);
        proof {
            lemma_div_abs(num as int, self.range_t as int);
        }
        let raw: i128 = rect.min_x as i128 + q;
        let lo: i128 = -(SCREEN_CLAMP as i128);
        let hi: i128 = SCREEN_CLAMP as i128;
        let clamped: i128 = if raw < lo {
            lo
        } else if raw > hi {
            hi
        } else {
            raw
        };
        clamped as i64
    }

    /// The pixel row of curve-space value `cv`.
    pub fn to_screen_y(&self, rect: &ScreenRect, cv: i64) -> (sy: i64)
        requires
            self.wf(),
            rect_wf(*rect),
            -SAMPLE_LIMIT <= cv <= SAMPLE_LIMIT,
        ensures
            sy as int == to_screen_y_spec(*self, *rect, cv as int),
            -SCREEN_CLAMP <= sy <= SCREEN_CLAMP,
    {
        let diff: i128 = cv as i128 - self.offset_v as i128;
        let num: i128 = mulb_i128(
            diff,
            (rect.max_y - rect.min_y) as i128,
            3_000_000_000_000_000,
            2_000_000,
        );
        let q: i128 = fdiv_i128(num, self.range_v as i128);
        proof {
            lemma_div_abs(num as int, self.range_v as int);
        }
        let raw: i128 = rect.max_y as i128 - q;
        let lo: i128 = -(SCREEN_CLAMP as i128);
        let hi: i128 = SCREEN_CLAMP as i128;
        let clamped: i128 = if raw < lo {
            lo
        } else if raw > hi {
            hi
        } else {
            raw
        };
        clamped as i64
    }

    /// Map a curve-space point to screen space.
    pub fn to_screen(&self, rect: &ScreenRect, ct: i64, cv: i64) -> (p: (i64, i64))
        requires
            self.wf(),
            rect_wf(*rect),
            -SAMPLE_LIMIT <= ct <= SAMPLE_LIMIT,
            -SAMPLE_LIMIT <= cv <= SAMPLE_LIMIT,
        ensures
            p.0 as int == to_screen_x_spec(*self, *rect, ct as int),
            p.1 as int == to_screen_y_spec(*self, *rect, cv as int),
            -SCREEN_CLAMP <= p.0 <= SCREEN_CLAMP,
            -SCREEN_CLAMP <= p.1 <= SCREEN_CLAMP,
    {
        (self.to_screen_x(rect, ct), self.to_screen_y(rect, cv))
    }

    /// Map a screen-space point to curve space.
    pub fn to_curve(&self, rect: &ScreenRect, px: i64, py: i64) -> (p: (i64, i64))
        requires
            self.wf(),
            rect_wf(*rect),
            -PIX_LIMIT <= px <= PIX_LIMIT,
            -PIX_LIMIT <= py <= PIX_LIMIT,
        ensures
            p.0 as int == to_curve_t_spec(*self, *rect, px as int),
            p.1 as int == to_curve_v_spec(*self, *rect, py as int),
            -CURVE_MAP_LIMIT <= p.0 <= CURVE_MAP_LIMIT,
            -CURVE_MAP_LIMIT <= p.1 <= CURVE_MAP_LIMIT,
    {
        (self.to_curve_t(rect, px), self.to_curve_v(rect, py))
    }

    /// Pan by a screen-space drag delta: the delta converts to curve space
    /// through each axis's scale, with the sign flipped on the time axis
    /// (dragging the content right moves the visible origin left) and kept
    /// on the value axis (the pixel row axis is already inverted).
    pub fn pan(&mut self, rect: &ScreenRect, dx_px: i64, dy_px: i64)
        requires
            old(self).wf(),
            rect_wf(*rect),
            -PIX_LIMIT <= dx_px <= PIX_LIMIT,
            -PIX_LIMIT <= dy_px <= PIX_LIMIT,
        ensures
            final(self).wf(),
            final(self).range_t == old(self).range_t,
            final(self).range_v == old(self).range_v,
            final(self).offset_t as int == clamp_spec(
                old(self).offset_t - dx_px * (old(self).range_t as int) / (rect.max_x
                    - rect.min_x),
                -(OFF_LIMIT as int),
                OFF_LIMIT as int,
            ),
            final(self).offset_v as int == clamp_spec(
                old(self).offset_v + dy_px * (old(self).range_v as int) / (rect.max_y
                    - rect.min_y),
                -(OFF_LIMIT as int),
                OFF_LIMIT as int,
            ),
    {
        let numx: i128 = mulb_i128(dx_px as i128, self.range_t as i128, 2_000_000, 4_000_000_000);
        let qx: i128 = fdiv_i128(numx, (rect.max_x - rect.min_x) as i128);
        proof {
            lemma_div_abs(numx as int, (rect.max_x - rect.min_x) as int);
        }
        let rawx: i128 = self.offset_t as i128 - qx;
        self.offset_t = clamp128_off(rawx);
        let numy: i128 = mulb_i128(dy_px as i128, self.range_v as i128, 2_000_000, 4_000_000_000);
        let qy: i128 = fdiv_i128(numy, (rect.max_y - rect.min_y) as i128);
        proof {
            lemma_div_abs(numy as int, (rect.max_y - rect.min_y) as int);
        }
        let rawy: i128 = self.offset_v as i128 + qy;
        self.offset_v = clamp128_off(rawy);
    }

    /// Zoom the time axis by `scroll` pixels, anchored at pixel column
    /// `px`: the offset is recomputed so that the curve-space time under
    /// the pointer is the same before and after the gesture, exactly
    /// (unconditionally so while the offset stays away from its hard
    /// bound).
    pub fn zoom_time(&mut self, rect: &ScreenRect, px: i64, scroll: i64)
        requires
            old(self).wf(),
            rect_wf(*rect),
            rect.min_x <= px <= rect.max_x,
            -PIX_LIMIT <= scroll <= PIX_LIMIT,
        ensures
            final(self).wf(),
            final(self).range_v == old(self).range_v,
            final(self).offset_v == old(self).offset_v,
            final(self).range_t as int == zoom_range_spec(
                old(self).range_t as int,
                scroll as int,
                (rect.max_x - rect.min_x) as int,
            ),
            ({
                let anchor = to_curve_t_spec(*old(self), *rect, px as int);
                let raw = anchor - (px - rect.min_x) * (final(self).range_t as int) / (rect.max_x
                    - rect.min_x);
                &&& final(self).offset_t as int == clamp_spec(
                    raw,
                    -(OFF_LIMIT as int),
                    OFF_LIMIT as int,
                )
                &&& (-OFF_LIMIT <= raw <= OFF_LIMIT ==> to_curve_t_spec(*final(self), *rect, px as int)
                    == anchor)
                &&& (-(OFF_LIMIT - RANGE_LIMIT) <= old(self).offset_t <= OFF_LIMIT - RANGE_LIMIT
                    ==> to_curve_t_spec(*final(self), *rect, px as int) == anchor)
            }),
    {
        let ext: i64 = rect.max_x - rect.min_x;
        let a: i64 = px - rect.min_x;
        let num: i128 = mulb_i128(a as i128, self.range_t as i128, 2_000_000, 4_000_000_000);
        let q: i128 = fdiv_i128(num, ext as i128);
        proof {
            lemma_mul_is_commutative(self.range_t as int, a as int);
            lemma_blend_bound(self.range_t as int, a as int, ext as int);
        }
        let anchor: i64 = self.offset_t + (q as i64);
        let ds: i128 = fdiv_i128(
            mulb_i128(scroll as i128, self.range_t as i128, 2_000_000, 4_000_000_000),
            ext as i128,
        );
        proof {
            lemma_div_abs(scroll as int * (self.range_t as int), ext as int);
        }
        let r2raw: i128 = self.range_t as i128 - ds;
        let r2: i64 = if r2raw < 1 {
            1
        } else if r2raw > RANGE_LIMIT as i128 {
            RANGE_LIMIT
        } else {
            r2raw as i64
        };
        self.range_t = r2;
        let num2: i128 = mulb_i128(a as i128, r2 as i128, 2_000_000, 4_000_000_000);
        let q2: i128 = fdiv_i128(num2, ext as i128);
        proof {
            lemma_mul_is_commutative(r2 as int, a as int);
            lemma_blend_bound(r2 as int, a as int, ext as int);
        }
        let raw: i128 = anchor as i128 - q2;
        self.offset_t = clamp128_off(raw);
    }

    /// Zoom the value axis by `scroll` pixels, anchored at pixel row `py`;
    /// the mirror image of `zoom_time`.
    pub fn zoom_value(&mut self, rect: &ScreenRect, py: i64, scroll: i64)
        requires
            old(self).wf(),
            rect_wf(*rect),
            rect.min_y <= py <= rect.max_y,
            -PIX_LIMIT <= scroll <= PIX_LIMIT,
        ensures
            final(self).wf(),
            final(self).range_t == old(self).range_t,
            final(self).offset_t == old(self).offset_t,
            final(self).range_v as int == zoom_range_spec(
                old(self).range_v as int,
                scroll as int,
                (rect.max_y - rect.min_y) as int,
            ),
            ({
                let anchor = to_curve_v_spec(*old(self), *rect, py as int);
                let raw = anchor - (rect.max_y - py) * (final(self).range_v as int) / (rect.max_y
                    - rect.min_y);
                &&& final(self).offset_v as int == clamp_spec(
                    raw,
                    -(OFF_LIMIT as int),
                    OFF_LIMIT as int,
                )
                &&& (-OFF_LIMIT <= raw <= OFF_LIMIT ==> to_curve_v_spec(*final(self), *rect, py as int)
                    == anchor)
                &&& (-(OFF_LIMIT - RANGE_LIMIT) <= old(self).offset_v <= OFF_LIMIT - RANGE_LIMIT
                    ==> to_curve_v_spec(*final(self), *rect, py as int) == anchor)
            }),
    {
        let ext: i64 = rect.max_y - rect.min_y;
        let a: i64 = rect.max_y - py;
        let num: i128 = mulb_i128(a as i128, self.range_v as i128, 2_000_000, 4_000_000_000);
        let q: i128 = fdiv_i128(num, ext as i128);
        proof {
            lemma_mul_is_commutative(self.range_v as int, a as int);
            lemma_blend_bound(self.range_v as int, a as int, ext as int);
        }
        let anchor: i64 = self.offset_v + (q as i64);
        let ds: i128 = fdiv_i128(
            mulb_i128(scroll as i128, self.range_v as i128, 2_000_000, 4_000_000_000),
            ext as i128,
        );
        proof {
            lemma_div_abs(scroll as int * (self.range_v as int), ext as int);
        }
        let r2raw: i128 = self.range_v as i128 - ds;
        let r2: i64 = if r2raw < 1 {
            1
        } else if r2raw > RANGE_LIMIT as i128 {
            RANGE_LIMIT
        } else {
            r2raw as i64
        };
        self.range_v = r2;
        let num2: i128 = mulb_i128(a as i128, r2 as i128, 2_000_000, 4_000_000_000);
        let q2: i128 = fdiv_i128(num2, ext as i128);
        proof {
            lemma_mul_is_commutative(r2 as int, a as int);
            lemma_blend_bound(r2 as int, a as int, ext as int);
        }
        let raw: i128 = anchor as i128 - q2;
        self.offset_v = clamp128_off(raw);
    }
}

/// Clamp an `i128` offset into the viewport's offset bounds.
fn clamp128_off(x: i128) -> (r: i64)
    requires
        -100_000_000_000_000_000_000_000 <= x <= 100_000_000_000_000_000_000_000,
    ensures
        r as int == clamp_spec(x as int, -(OFF_LIMIT as int), OFF_LIMIT as int),
{
    if x < -(OFF_LIMIT as i128) {
        -OFF_LIMIT
    } else if x > OFF_LIMIT as i128 {
        OFF_LIMIT
    } else {
        x as i64
    }
}

/// Remapping a pixel position into curve space and back moves it at most
/// one pixel plus the pixel footprint of one curve tick: with `b` the tick
/// under pixel offset `a`, the round trip `a -> b -> a2` satisfies
/// `0 <= a - a2` and `(a - a2) * rng <= ext + rng - 1`.
pub proof fn lemma_remap_round_trip(a: int, rng: int, ext: int)
    requires
        0 <= a <= ext,
        1 <= rng,
        1 <= ext,
    ensures
        0 <= (a * rng / ext) * ext / rng <= a,
        (a - (a * rng / ext) * ext / rng) * rng <= ext + rng - 1,
{
    let b = a * rng / ext;
    let a2 = b * ext / rng;
    assert(0 <= a * rng) by (nonlinear_arith)
        requires
            0 <= a,
            1 <= rng,
    ;
    lemma_div_pos_is_pos(a * rng, ext);
    assert(0 <= b * ext) by (nonlinear_arith)
        requires
            0 <= b,
            1 <= ext,
    ;
    lemma_div_pos_is_pos(b * ext, rng);
    lemma_fundamental_div_mod(a * rng, ext);
    lemma_mod_division_less_than_divisor(a * rng, ext);
    let r1 = (a * rng) % ext;
    lemma_fundamental_div_mod(b * ext, rng);
    lemma_mod_division_less_than_divisor(b * ext, rng);
    let r2 = (b * ext) % rng;
    assert(a * rng == ext * b + r1);
    assert(b * ext == rng * a2 + r2);
    assert((a - a2) * rng == r1 + r2) by (nonlinear_arith)
        requires
            a * rng == ext * b + r1,
            b * ext == rng * a2 + r2,
    ;
    assert(0 <= a - a2 && (a - a2) * rng <= ext + rng - 1 && a2 <= a) by (nonlinear_arith)
        requires
            (a - a2) * rng == r1 + r2,
            0 <= r1 < ext,
            0 <= r2 < rng,
            1 <= rng,
            1 <= ext,
    ;
}

/// Round trip: mapping a screen point inside the interaction rectangle
/// into curve space and back returns it within tolerance: the error per
/// axis is bounded by the pixel footprint of one curve tick plus one, and
/// is at most one pixel whenever a tick maps to at most a pixel (range at
/// least the pixel extent).
pub proof fn lemma_screen_round_trip(vp: Viewport, rect: ScreenRect, px: int, py: int)
    requires
        vp.wf(),
        rect_wf(rect),
        rect.min_x <= px <= rect.max_x,
        rect.min_y <= py <= rect.max_y,
    ensures
        ({
            let qx = to_screen_x_spec(vp, rect, to_curve_t_spec(vp, rect, px));
            let qy = to_screen_y_spec(vp, rect, to_curve_v_spec(vp, rect, py));
            &&& 0 <= px - qx
            &&& (px - qx) * (vp.range_t as int) <= (rect.max_x - rect.min_x) + vp.range_t - 1
            &&& vp.range_t >= rect.max_x - rect.min_x ==> px - qx <= 1
            &&& 0 <= qy - py
            &&& (qy - py) * (vp.range_v as int) <= (rect.max_y - rect.min_y) + vp.range_v - 1
            &&& vp.range_v >= rect.max_y - rect.min_y ==> qy - py <= 1
        }),
{
    let extx = rect.max_x - rect.min_x;
    let ax = px - rect.min_x;
    let bx = ax * (vp.range_t as int) / extx;
    let ax2 = bx * extx / (vp.range_t as int);
    lemma_remap_round_trip(ax, vp.range_t as int, extx);
    let cx = to_curve_t_spec(vp, rect, px);
    assert(cx - vp.offset_t == bx);
    assert(to_screen_x_spec(vp, rect, cx) == rect.min_x + ax2) by {
        assert(0 <= ax2 <= ax);
        assert(-(SCREEN_CLAMP as int) <= rect.min_x + ax2 <= SCREEN_CLAMP as int);
    }
    assert(px - (rect.min_x + ax2) == ax - ax2);
    assert(vp.range_t >= extx ==> px - (rect.min_x + ax2) <= 1) by (nonlinear_arith)
        requires
            (ax - ax2) * (vp.range_t as int) <= extx + vp.range_t - 1,
            0 <= ax - ax2,
            1 <= vp.range_t,
            px - (rect.min_x + ax2) == ax - ax2,
            1 <= extx,
    ;
    let exty = rect.max_y - rect.min_y;
    let ay = rect.max_y - py;
    let by = ay * (vp.range_v as int) / exty;
    let ay2 = by * exty / (vp.range_v as int);
    lemma_remap_round_trip(ay, vp.range_v as int, exty);
    let cy = to_curve_v_spec(vp, rect, py);
    assert(cy - vp.offset_v == by);
    assert(to_screen_y_spec(vp, rect, cy) == rect.max_y - ay2) by {
        assert(0 <= ay2 <= ay);
        assert(-(SCREEN_CLAMP as int) <= rect.max_y - ay2 <= SCREEN_CLAMP as int);
    }
    assert((rect.max_y - ay2) - py == ay - ay2);
    assert(vp.range_v >= exty ==> (rect.max_y - ay2) - py <= 1) by (nonlinear_arith)
        requires
            (ay - ay2) * (vp.range_v as int) <= exty + vp.range_v - 1,
            0 <= ay - ay2,
            1 <= vp.range_v,
            (rect.max_y - ay2) - py == ay - ay2,
            1 <= exty,
    ;
}

} // verus!
