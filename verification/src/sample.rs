//! The sampling engine: evaluates the curve at an arbitrary time, with a
//! monotonically advancing cursor hint for amortized O(1) repeated forward
//! sampling.
//!
//! Sampling before the first or after the last keyframe clamps to the
//! boundary value (flat extrapolation); an empty curve samples to 0. Inside
//! a segment the left keyframe's interpolation rule applies: `Step` holds
//! the left value, `Linear` blends linearly, `Hermite` evaluates the cubic
//! Hermite basis with the left outgoing and right incoming tangents scaled
//! by the segment's time span. The Hermite parameter is quantized to the
//! `SCALE` tick grid; both segment endpoints are exact.

use vstd::prelude::*;
use crate::curve::kf_wf;
use crate::curve::times_sorted;
use crate::curve::Curve;
use crate::curve::Interpolation;
use crate::curve::Keyframe;
use crate::math::fdiv_i128;
use crate::math::lemma_blend_bound;
use crate::math::lemma_div_abs;
use crate::math::lemma_mul_div_exact;
use crate::math::mulb_i128;
use crate::math::SAMPLE_LIMIT;
use crate::math::SCALE;
use vstd::arithmetic::div_mod::lemma_div_is_ordered;
use vstd::arithmetic::mul::lemma_mul_is_commutative;

verus! {

/// Linear blend between the two keyframes, by the normalized position of
/// `t` inside the segment.
pub open spec fn lin_spec(a: Keyframe, b: Keyframe, t: int) -> int {
    a.value + (b.value - a.value) * (t - a.time) / (b.time - a.time)
}

/// Cubic Hermite blend between the two keyframes: the standard
/// unit-interval Hermite basis, carried on a parameter quantized to
/// [0, SCALE], with the tangents scaled by the segment's time span.
pub open spec fn hermite_spec(a: Keyframe, b: Keyframe, t: int) -> int {
    let sc = SCALE as int;
    let d = b.time - a.time;
    let s = sc * (t - a.time) / d;
    let g0 = a.out_tangent * d / sc;
    let g1 = b.in_tangent * d / sc;
    let s2 = s * s;
    let s3 = s2 * s;
    let s2sc = s2 * sc;
    let ssc2 = s * (sc * sc);
    let h00 = 2 * s3 - 3 * s2sc + sc * sc * sc;
    let h10 = s3 - 2 * s2sc + ssc2;
    let h01 = 3 * s2sc - 2 * s3;
    let h11 = s3 - s2sc;
    (a.value * h00 + g0 * h10 + b.value * h01 + g1 * h11) / (sc * sc * sc)
}

/// The value of the segment from `a` to `b` at time `t`, by `a`'s
/// interpolation rule.
pub open spec fn interp_spec(a: Keyframe, b: Keyframe, t: int) -> int {
    match a.interpolation {
        Interpolation::Step => a.value as int,
        Interpolation::Linear => lin_spec(a, b, t),
        Interpolation::Hermite => hermite_spec(a, b, t),
    }
}

/// The index of the segment containing `t`: the largest index whose
/// keyframe time is at most `t` (0 when `t` lies before every keyframe).
pub open spec fn seg_of(s: Seq<Keyframe>, t: int) -> int
    decreases s.len(),
{
    if s.len() <= 1 {
        0
    } else if s[s.len() - 1].time <= t {
        s.len() - 1
    } else {
        seg_of(s.drop_last(), t)
    }
}

/// The value of the curve at time `t`: flat extrapolation outside the
/// keyframe range, the containing segment's interpolation inside it, 0 for
/// an empty curve.
pub open spec fn sample_spec(s: Seq<Keyframe>, t: int) -> int {
    if s.len() == 0 {
        0
    } else if t <= s[0].time {
        s[0].value as int
    } else if t >= s[s.len() - 1].time {
        s[s.len() - 1].value as int
    } else {
        let i = seg_of(s, t);
        interp_spec(s[i], s[i + 1], t)
    }
}

/// A cursor is a valid hint for query time `t` when it is 0 or points at a
/// keyframe whose time is at most `t`; validity is monotone in `t`, so a
/// cursor returned for `t` remains valid for every later query time.
pub open spec fn cursor_ok(s: Seq<Keyframe>, cursor: int, t: int) -> bool {
    cursor == 0 || (0 < cursor < s.len() && s[cursor].time <= t)
}

/// The cursor never changes the sampled value — `sample_with_cursor` and
/// `sample` both return exactly `sample_spec` — and a cursor valid for one
/// query time is valid for every later one, so threading the returned
/// cursor through a non-decreasing sequence of query times yields the
/// same values that independent `sample` calls would.
pub proof fn lemma_cursor_monotone(s: Seq<Keyframe>, cursor: int, t1: int, t2: int)
    requires
        cursor_ok(s, cursor, t1),
        t1 <= t2,
    ensures
        cursor_ok(s, cursor, t2),
{
}

/// `seg_of` points at the segment containing `t`.
pub proof fn lemma_seg_of(s: Seq<Keyframe>, t: int)
    requires
        times_sorted(s),
        s.len() >= 1,
        s[0].time <= t,
    ensures
        0 <= seg_of(s, t) < s.len(),
        s[seg_of(s, t)].time <= t,
        seg_of(s, t) + 1 < s.len() ==> t < s[seg_of(s, t) + 1].time,
    decreases s.len(),
{
    if s.len() > 1 && s[s.len() - 1].time > t {
        let s2 = s.drop_last();
        assert(s2.len() == s.len() - 1);
        assert(forall|i: int| 0 <= i < s2.len() ==> s2[i] == s[i]);
        lemma_seg_of(s2, t);
        let i = seg_of(s2, t);
        if i + 1 < s.len() {
            if i + 1 < s2.len() {
                assert(t < s2[i + 1].time);
            }
        }
    }
}

/// The segment index is unique: any position whose keyframe time is at
/// most `t` while the next keyframe's time exceeds `t` is `seg_of`.
pub proof fn lemma_seg_of_unique(s: Seq<Keyframe>, t: int, i: int)
    requires
        times_sorted(s),
        0 <= i,
        i + 1 < s.len(),
        s[i].time <= t,
        t < s[i + 1].time,
    ensures
        seg_of(s, t) == i,
{
    lemma_seg_of(s, t);
    let j = seg_of(s, t);
    if j < i {
        assert(s[j + 1].time <= s[i].time);
    }
    if j > i {
        assert(s[i + 1].time <= s[j].time);
    }
}

/// Every segment begins exactly at its left keyframe's value, and a
/// `Linear` or `Hermite` segment ends exactly at its right keyframe's
/// value (the numerical continuity contract at segment boundaries).
pub proof fn lemma_segment_endpoints(a: Keyframe, b: Keyframe)
    requires
        kf_wf(a),
        kf_wf(b),
        a.time < b.time,
    ensures
        interp_spec(a, b, a.time as int) == a.value,
        !(a.interpolation is Step) ==> interp_spec(a, b, b.time as int) == b.value,
{
    let sc = SCALE as int;
    let d = b.time - a.time;
    let dv = b.value - a.value;
    let g0 = a.out_tangent * d / sc;
    let g1 = b.in_tangent * d / sc;
    // Left endpoint.
    lemma_div_abs(0, d);
    assert(dv * 0 == 0) by (nonlinear_arith);
    assert(sc * 0 == 0) by (nonlinear_arith);
    assert(lin_spec(a, b, a.time as int) == a.value);
    assert(hermite_spec(a, b, a.time as int) == a.value) by {
        let s = sc * (a.time as int - a.time) / d;
        assert(s == 0);
        let s2 = s * s;
        let s3 = s2 * s;
        let s2sc = s2 * sc;
        let ssc2 = s * (sc * sc);
        assert(s2 == 0 && s3 == 0 && s2sc == 0 && ssc2 == 0) by (nonlinear_arith)
            requires
                s == 0,
                s2 == s * s,
                s3 == s2 * s,
                s2sc == s2 * sc,
                ssc2 == s * (sc * sc),
        ;
        let h00 = 2 * s3 - 3 * s2sc + sc * sc * sc;
        let h10 = s3 - 2 * s2sc + ssc2;
        let h01 = 3 * s2sc - 2 * s3;
        let h11 = s3 - s2sc;
        assert(h00 == sc * sc * sc && h10 == 0 && h01 == 0 && h11 == 0);
        assert(g0 * h10 == 0 && g1 * h11 == 0 && (b.value as int) * h01 == 0)
            by (nonlinear_arith)
            requires
                h10 == 0,
                h11 == 0,
                h01 == 0,
        ;
        assert(a.value * h00 + g0 * h10 + b.value * h01 + g1 * h11 == a.value * (sc * sc
            * sc));
        lemma_mul_div_exact(a.value as int, sc * sc * sc);
    }
    // Right endpoint.
    assert(lin_spec(a, b, b.time as int) == b.value) by {
        lemma_mul_div_exact(dv, d);
    }
    assert(hermite_spec(a, b, b.time as int) == b.value) by {
        let s = sc * (b.time as int - a.time) / d;
        assert(s == sc) by {
            lemma_mul_is_commutative(sc, d);
            lemma_mul_div_exact(sc, d);
        }
        let s2 = s * s;
        let s3 = s2 * s;
        let s2sc = s2 * sc;
        let ssc2 = s * (sc * sc);
        assert(s2 == sc * sc && s3 == sc * sc * sc && s2sc == sc * sc * sc && ssc2 == sc * sc
            * sc) by (nonlinear_arith)
            requires
                s == sc,
                s2 == s * s,
                s3 == s2 * s,
                s2sc == s2 * sc,
                ssc2 == s * (sc * sc),
        ;
        let h00 = 2 * s3 - 3 * s2sc + sc * sc * sc;
        let h10 = s3 - 2 * s2sc + ssc2;
        let h01 = 3 * s2sc - 2 * s3;
        let h11 = s3 - s2sc;
        assert(h00 == 0 && h10 == 0 && h01 == sc * sc * sc && h11 == 0);
        assert(a.value * h00 == 0 && g0 * h10 == 0 && g1 * h11 == 0) by (nonlinear_arith)
            requires
                h00 == 0,
                h10 == 0,
                h11 == 0,
        ;
        assert(a.value * h00 + g0 * h10 + b.value * h01 + g1 * h11 == b.value * (sc * sc
            * sc));
        lemma_mul_div_exact(b.value as int, sc * sc * sc);
    }
}

/// Evaluate the segment from `a` to `b` at a time inside it.
fn interp(a: &Keyframe, b: &Keyframe, t: i64) -> (r: i64)
    requires
        kf_wf(*a),
        kf_wf(*b),
        a.time < b.time,
        a.time <= t <= b.time,
    ensures
        r as int == interp_spec(*a, *b, t as int),
        -SAMPLE_LIMIT <= r <= SAMPLE_LIMIT,
{
    match a.interpolation {
        Interpolation::Step => a.value,
        Interpolation::Linear => {
            let d: i128 = (b.time - a.time) as i128;
            let num: i128 = mulb_i128(
                (b.value - a.value) as i128,
                (t - a.time) as i128,
                2_000_000_000,
                2_000_000_000,
            );
            let q: i128 = fdiv_i128(num, d);
            proof {
                lemma_blend_bound((b.value - a.value) as int, (t - a.time) as int, d as int);
            }
            a.value + (q as i64)
        },
        Interpolation::Hermite => {
            let sc: i128 = SCALE as i128;
            let d: i128 = (b.time - a.time) as i128;
            let nn: i128 = (t - a.time) as i128;
            let s: i128 = fdiv_i128(mulb_i128(sc, nn, 1000, 2_000_000_000), d);
            proof {
                lemma_blend_bound(sc as int, nn as int, d as int);
            }
            let g0: i128 = fdiv_i128(
                mulb_i128(a.out_tangent as i128, d, 100_000_000, 2_000_000_000),
                sc,
            );
            let g1: i128 = fdiv_i128(
                mulb_i128(b.in_tangent as i128, d, 100_000_000, 2_000_000_000),
                sc,
            );
            proof {
                lemma_div_is_ordered(a.out_tangent as int * (d as int), 200_000_000_000_000_000, sc as int);
                lemma_div_is_ordered(-200_000_000_000_000_000, a.out_tangent as int * (d as int), sc as int);
                lemma_div_is_ordered(b.in_tangent as int * (d as int), 200_000_000_000_000_000, sc as int);
                lemma_div_is_ordered(-200_000_000_000_000_000, b.in_tangent as int * (d as int), sc as int);
            }
            let s2: i128 = mulb_i128(s, s, 1000, 1000);
            let s3: i128 = mulb_i128(s2, s, 1_000_000, 1000);
            let s2sc: i128 = mulb_i128(s2, sc, 1_000_000, 1000);
            let ssc2: i128 = mulb_i128(s, 1_000_000, 1000, 1_000_000);
            let h00: i128 = 2 * s3 - 3 * s2sc + 1_000_000_000;
            let h10: i128 = s3 - 2 * s2sc + ssc2;
            let h01: i128 = 3 * s2sc - 2 * s3;
            let h11: i128 = s3 - s2sc;
            let t0: i128 = mulb_i128(a.value as i128, h00, 1_000_000_000, 6_000_000_000);
            let t1: i128 = mulb_i128(g0, h10, 200_000_000_000_000, 4_000_000_000);
            let t2: i128 = mulb_i128(b.value as i128, h01, 1_000_000_000, 5_000_000_000);
            let t3: i128 = mulb_i128(g1, h11, 200_000_000_000_000, 2_000_000_000);
            let num: i128 = t0 + t1 + t2 + t3;
            let r128: i128 = fdiv_i128(num, 1_000_000_000);
            proof {
                lemma_div_is_ordered(num as int, 2_000_000_000_000_000_000_000_000, 1_000_000_000);
                lemma_div_is_ordered(-2_000_000_000_000_000_000_000_000, num as int, 1_000_000_000);
            }
            r128 as i64
        },
    }
}

impl Curve {
    /// Evaluate the curve at `t`, advancing the forward-search cursor; the
    /// cursor is purely an optimization and never changes the sampled
    /// value, and the returned cursor is a valid hint for every query time
    /// at or after `t`.
    pub fn sample_with_cursor(&self, cursor: usize, t: i64) -> (r: (usize, i64))
        requires
            self.wf(),
            cursor_ok(self@, cursor as int, t as int),
        ensures
            r.1 as int == sample_spec(self@, t as int),
            -SAMPLE_LIMIT <= r.1 <= SAMPLE_LIMIT,
            cursor_ok(self@, r.0 as int, t as int),
            self@.len() > 0 ==> (r.0 as int) < self@.len(),
            self@.len() == 0 ==> r.0 == 0,
    {
        let n = self.len();
        if n == 0 {
            return (0, 0);
        }
        let mut cur = cursor;
        while cur + 1 < n && self.get_time(cur + 1) <= t
            invariant
                self.wf(),
                n == self@.len(),
                n > 0,
                cursor_ok(self@, cur as int, t as int),
                cur < n,
            decreases n - cur,
        {
            cur += 1;
        }
        let first_time = self.get_time(0);
        if t <= first_time {
            proof {
                if cur != 0 {
                    assert(self@[cur as int].time <= t);
                    assert(self@[0].time < self@[cur as int].time);
                }
            }
            return (cur, self.get_value(0));
        }
        let last_time = self.get_time(n - 1);
        if t >= last_time {
            return (cur, self.get_value(n - 1));
        }
        // Now self@[cur].time <= t (cur == 0 gives self@[0].time < t) and
        // t < self@[cur + 1].time from the loop exit.
        proof {
            if cur as int + 1 >= n {
                assert(self@[cur as int].time <= t);
                assert(false);
            }
            lemma_seg_of_unique(self@, t as int, cur as int);
        }
        let a = self.get_keyframe(cur);
        let b = self.get_keyframe(cur + 1);
        let v = interp(&a, &b, t);
        (cur, v)
    }

    /// Evaluate the curve at `t` with a fresh cursor: the ad-hoc,
    /// single-shot entry point.
    pub fn sample(&self, t: i64) -> (v: i64)
        requires
            self.wf(),
        ensures
            v as int == sample_spec(self@, t as int),
            -SAMPLE_LIMIT <= v <= SAMPLE_LIMIT,
    {
        let (_c, v) = self.sample_with_cursor(0, t);
        v
    }
}

} // verus!
