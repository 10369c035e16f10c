//! The keyframe / curve data model: an ordered sequence of keyframes sorted
//! by strictly increasing time, with invariant-preserving mutators.
//!
//! Policy for colliding times: an `insert` whose time exactly equals an
//! existing keyframe's time is rejected (`None`), and a `set_time` whose new
//! time exactly equals another keyframe's time is a no-op (`None`). Ties are
//! exact on the fixed-point tick grid, so the policy is deterministic.
//!
//! `Auto` tangents are recomputed whenever the shape of the curve changes:
//! the slope of an interior keyframe is the secant between its two
//! neighbors (the time-delta-weighted average of the two adjacent secants),
//! a boundary keyframe takes the secant to its single neighbor, and a curve
//! with fewer than two keyframes gets slope 0. Slopes are clamped to
//! [-TAN_LIMIT, TAN_LIMIT].

use vstd::prelude::*;
use crate::math::clamp_i64;
use crate::math::clamp_spec;
use crate::math::fdiv_i128;
use crate::math::lemma_div_abs;
use crate::math::mul_i128;
use crate::math::COORD_LIMIT;
use crate::math::SCALE;
use crate::math::TAN_LIMIT;

verus! {

/// Segment interpolation rule applied from a keyframe to the next one.
#[derive(Clone, Copy, PartialEq, Eq, Structural, Debug)]
pub enum Interpolation {
    Step,
    Linear,
    Hermite,
}

/// Policy governing how a keyframe's tangents are derived or edited.
#[derive(Clone, Copy, PartialEq, Eq, Structural, Debug)]
pub enum TangentControl {
    Auto,
    Free,
    Flat,
    Broken,
}

/// One control point of the curve. Times and values are fixed-point ticks
/// (`SCALE` ticks per unit); tangents are `SCALE`-scaled slopes.
#[derive(Clone, Copy, PartialEq, Eq, Structural, Debug)]
pub struct Keyframe {
    pub time: i64,
    pub value: i64,
    pub in_tangent: i64,
    pub out_tangent: i64,
    pub interpolation: Interpolation,
    pub tangent_control: TangentControl,
}

pub open spec fn kf_wf(k: Keyframe) -> bool {
    &&& -COORD_LIMIT <= k.time <= COORD_LIMIT
    &&& -COORD_LIMIT <= k.value <= COORD_LIMIT
    &&& -TAN_LIMIT <= k.in_tangent <= TAN_LIMIT
    &&& -TAN_LIMIT <= k.out_tangent <= TAN_LIMIT
}

/// Keyframes are sorted by strictly increasing time: no two share a time.
pub open spec fn times_sorted(s: Seq<Keyframe>) -> bool {
    forall|i: int, j: int| 0 <= i < j < s.len() ==> s[i].time < s[j].time
}

pub open spec fn curve_wf(s: Seq<Keyframe>) -> bool {
    &&& times_sorted(s)
    &&& forall|i: int| 0 <= i < s.len() ==> kf_wf(#[trigger] s[i])
}

/// The keyframe a fresh `insert` adds: tangents start at 0 and are then
/// recomputed, since a fresh keyframe starts under `Auto` tangent control.
pub open spec fn make_kf(time: i64, value: i64, interpolation: Interpolation) -> Keyframe {
    Keyframe {
        time,
        value,
        in_tangent: 0,
        out_tangent: 0,
        interpolation,
        tangent_control: TangentControl::Auto,
    }
}

/// Clamped secant slope between two keyframes, in `SCALE`-scaled units.
pub open spec fn secant_spec(a: Keyframe, b: Keyframe) -> int {
    clamp_spec(
        (b.value - a.value) * (SCALE as int) / (b.time - a.time),
        -(TAN_LIMIT as int),
        TAN_LIMIT as int,
    )
}

/// The automatic tangent slope at index `i`: secant to the single neighbor
/// at a boundary, secant between the two neighbors in the interior, 0 when
/// the curve has fewer than two keyframes.
pub open spec fn auto_slope_spec(s: Seq<Keyframe>, i: int) -> int {
    if s.len() < 2 || !(0 <= i < s.len()) {
        0
    } else if i == 0 {
        secant_spec(s[0], s[1])
    } else if i == s.len() - 1 {
        secant_spec(s[i - 1], s[i])
    } else {
        secant_spec(s[i - 1], s[i + 1])
    }
}

/// The sequence after refreshing the automatic tangents of the keyframe at
/// `i`, when there is one and it is under `Auto` control; otherwise the
/// sequence unchanged.
pub open spec fn with_auto_at(s: Seq<Keyframe>, i: int) -> Seq<Keyframe> {
    if 0 <= i < s.len() && s[i].tangent_control is Auto {
        s.update(
            i,
            Keyframe {
                in_tangent: auto_slope_spec(s, i) as i64,
                out_tangent: auto_slope_spec(s, i) as i64,
                ..s[i]
            },
        )
    } else {
        s
    }
}

/// Refresh the automatic tangents of the keyframe at `i` and of both its
/// neighbors, in index order.
pub open spec fn refresh_around(s: Seq<Keyframe>, i: int) -> Seq<Keyframe> {
    with_auto_at(with_auto_at(with_auto_at(s, i - 1), i), i + 1)
}

/// Refreshing automatic tangents never changes a keyframe's time, value,
/// interpolation or tangent control, and preserves well-formedness.
pub proof fn lemma_with_auto_at_facts(s: Seq<Keyframe>, i: int)
    ensures
        with_auto_at(s, i).len() == s.len(),
        forall|j: int|
            0 <= j < s.len() ==> {
                &&& (#[trigger] with_auto_at(s, i)[j]).time == s[j].time
                &&& with_auto_at(s, i)[j].value == s[j].value
                &&& with_auto_at(s, i)[j].interpolation == s[j].interpolation
                &&& with_auto_at(s, i)[j].tangent_control == s[j].tangent_control
            },
        forall|j: int| 0 <= j < s.len() && j != i ==> #[trigger] with_auto_at(s, i)[j] == s[j],
        curve_wf(s) ==> curve_wf(with_auto_at(s, i)),
{
    if 0 <= i < s.len() && s[i].tangent_control is Auto {
        assert(-(TAN_LIMIT as int) <= auto_slope_spec(s, i) <= TAN_LIMIT as int);
    }
}

/// Same facts for the three-keyframe refresh.
pub proof fn lemma_refresh_around_facts(s: Seq<Keyframe>, i: int)
    ensures
        refresh_around(s, i).len() == s.len(),
        forall|j: int|
            0 <= j < s.len() ==> {
                &&& (#[trigger] refresh_around(s, i)[j]).time == s[j].time
                &&& refresh_around(s, i)[j].value == s[j].value
                &&& refresh_around(s, i)[j].interpolation == s[j].interpolation
                &&& refresh_around(s, i)[j].tangent_control == s[j].tangent_control
            },
        curve_wf(s) ==> curve_wf(refresh_around(s, i)),
{
    lemma_with_auto_at_facts(s, i - 1);
    lemma_with_auto_at_facts(with_auto_at(s, i - 1), i);
    lemma_with_auto_at_facts(with_auto_at(with_auto_at(s, i - 1), i), i + 1);
}

/// What `set_tangent_control` stores at the targeted keyframe: entering
/// `Flat` zeroes both tangents; every other mode keeps the stored tangents
/// (entering `Auto` is followed by a refresh, leaving `Auto` freezes the
/// last computed slopes as the new editable values).
pub open spec fn tc_applied(k: Keyframe, mode: TangentControl) -> Keyframe {
    if mode is Flat {
        Keyframe { tangent_control: mode, in_tangent: 0, out_tangent: 0, ..k }
    } else {
        Keyframe { tangent_control: mode, ..k }
    }
}

/// What `set_in_tangent` stores: a no-op under `Auto` or `Flat`; `Broken`
/// sets the incoming side alone; every other mode mirrors the slope to both
/// sides.
pub open spec fn set_in_spec(k: Keyframe, slope: i64) -> Keyframe {
    match k.tangent_control {
        TangentControl::Auto => k,
        TangentControl::Flat => k,
        TangentControl::Broken => Keyframe { in_tangent: slope, ..k },
        TangentControl::Free => Keyframe { in_tangent: slope, out_tangent: slope, ..k },
    }
}

/// What `set_out_tangent` stores, mirror image of `set_in_spec`.
pub open spec fn set_out_spec(k: Keyframe, slope: i64) -> Keyframe {
    match k.tangent_control {
        TangentControl::Auto => k,
        TangentControl::Flat => k,
        TangentControl::Broken => Keyframe { out_tangent: slope, ..k },
        TangentControl::Free => Keyframe { in_tangent: slope, out_tangent: slope, ..k },
    }
}

/// What `set_in_out_tangent` stores: a no-op under `Auto` or `Flat`, both
/// sides set equal otherwise.
pub open spec fn set_in_out_spec(k: Keyframe, slope: i64) -> Keyframe {
    match k.tangent_control {
        TangentControl::Auto => k,
        TangentControl::Flat => k,
        _ => Keyframe { in_tangent: slope, out_tangent: slope, ..k },
    }
}

/// Updating a keyframe without changing its time keeps the curve
/// well-formed.
pub proof fn lemma_update_same_time_wf(s: Seq<Keyframe>, i: int, k: Keyframe)
    requires
        curve_wf(s),
        kf_wf(k),
        0 <= i < s.len(),
        k.time == s[i].time,
    ensures
        curve_wf(s.update(i, k)),
{
    let t = s.update(i, k);
    assert forall|a: int, b: int| 0 <= a < b < t.len() implies t[a].time < t[b].time by {
        assert(s[a].time < s[b].time);
    }
}

/// Inserting a keyframe strictly between its neighbors keeps the curve
/// well-formed.
pub proof fn lemma_insert_wf(s: Seq<Keyframe>, p: int, k: Keyframe)
    requires
        curve_wf(s),
        kf_wf(k),
        0 <= p <= s.len(),
        forall|j: int| 0 <= j < p ==> (#[trigger] s[j]).time < k.time,
        forall|j: int| p <= j < s.len() ==> (#[trigger] s[j]).time > k.time,
    ensures
        curve_wf(s.insert(p, k)),
{
    s.insert_ensures(p, k);
    let t = s.insert(p, k);
    assert forall|a: int, b: int| 0 <= a < b < t.len() implies t[a].time < t[b].time by {
        if a < p && b < p {
            assert(t[a] == s[a] && t[b] == s[b]);
        } else if a < p && b == p {
            assert(t[a] == s[a]);
        } else if a < p && b > p {
            assert(t[a] == s[a] && t[b] == s[b - 1]);
        } else if a == p {
            assert(t[b] == s[b - 1]);
        } else {
            assert(t[a] == s[a - 1] && t[b] == s[b - 1]);
        }
    }
    assert forall|a: int| 0 <= a < t.len() implies kf_wf(#[trigger] t[a]) by {
        if a < p {
            assert(t[a] == s[a]);
        } else if a == p {
        } else {
            assert(t[a] == s[a - 1]);
        }
    }
}

/// Removing a keyframe keeps the curve well-formed.
pub proof fn lemma_remove_wf(s: Seq<Keyframe>, i: int)
    requires
        curve_wf(s),
        0 <= i < s.len(),
    ensures
        curve_wf(s.remove(i)),
{
    s.remove_ensures(i);
    let t = s.remove(i);
    assert forall|a: int, b: int| 0 <= a < b < t.len() implies t[a].time < t[b].time by {
        if b < i {
            assert(t[a] == s[a] && t[b] == s[b]);
        } else if a < i {
            assert(t[a] == s[a] && t[b] == s[b + 1]);
        } else {
            assert(t[a] == s[a + 1] && t[b] == s[b + 1]);
        }
    }
    assert forall|a: int| 0 <= a < t.len() implies kf_wf(#[trigger] t[a]) by {
        if a < i {
            assert(t[a] == s[a]);
        } else {
            assert(t[a] == s[a + 1]);
        }
    }
}

/// The automatic tangent slope reads only keyframe times and values, so
/// refreshing tangents anywhere never changes what it computes.
pub proof fn lemma_auto_slope_stable(s1: Seq<Keyframe>, s2: Seq<Keyframe>, i: int)
    requires
        s1.len() == s2.len(),
        forall|j: int|
            0 <= j < s1.len() ==> (#[trigger] s1[j]).time == s2[j].time && s1[j].value
                == s2[j].value,
    ensures
        auto_slope_spec(s1, i) == auto_slope_spec(s2, i),
{
}

/// A chain of strict adjacent increases makes the whole sequence
/// strictly increasing.
pub proof fn lemma_adjacent_implies_increasing(s: Seq<i64>)
    requires
        forall|k: int| 0 <= k < s.len() - 1 ==> #[trigger] s[k] < s[k + 1],
    ensures
        forall|a: int, b: int| 0 <= a < b < s.len() ==> s[a] < s[b],
{
    assert forall|a: int, b: int| 0 <= a < b < s.len() implies s[a] < s[b] by {
        lemma_increase_chain(s, a, b);
    }
}

proof fn lemma_increase_chain(s: Seq<i64>, a: int, b: int)
    requires
        forall|k: int| 0 <= k < s.len() - 1 ==> #[trigger] s[k] < s[k + 1],
        0 <= a < b < s.len(),
    ensures
        s[a] < s[b],
    decreases b - a,
{
    if a + 1 < b {
        lemma_increase_chain(s, a + 1, b);
    }
}

/// An ordered sequence of keyframes sorted by strictly increasing time.
pub struct Curve {
    keys: Vec<Keyframe>,
}

impl View for Curve {
    type V = Seq<Keyframe>;

    closed spec fn view(&self) -> Seq<Keyframe> {
        self.keys@
    }
}

impl Curve {
    pub open spec fn wf(&self) -> bool {
        curve_wf(self@)
    }

    /// An empty curve.
    pub fn new() -> (c: Curve)
        ensures
            c@.len() == 0,
            c.wf(),
    {
        Curve { keys: Vec::new() }
    }

    pub fn len(&self) -> (n: usize)
        ensures
            n == self@.len(),
    {
        self.keys.len()
    }

    /// Build a curve from matching lists of times and values: every
    /// keyframe starts with Hermite interpolation and `Auto` tangent
    /// control, and all automatic tangents are computed at once. Returns
    /// `None` when the lists differ in length, a coordinate is out of
    /// bounds, or the times are not strictly increasing.
    pub fn with_auto_tangents(times: &Vec<i64>, values: &Vec<i64>) -> (r: Option<Curve>)
        ensures
            (r is Some) <==> {
                &&& times@.len() == values@.len()
                &&& (forall|j: int|
                    0 <= j < times@.len() ==> -COORD_LIMIT <= #[trigger] times@[j]
                        <= COORD_LIMIT)
                &&& (forall|j: int|
                    0 <= j < values@.len() ==> -COORD_LIMIT <= #[trigger] values@[j]
                        <= COORD_LIMIT)
                &&& (forall|a: int, b: int|
                    0 <= a < b < times@.len() ==> times@[a] < times@[b])
            },
            r matches Some(c) ==> {
                &&& c.wf()
                &&& c@.len() == times@.len()
                &&& (forall|j: int|
                    0 <= j < c@.len() ==> {
                        &&& (#[trigger] c@[j]).time == times@[j]
                        &&& c@[j].value == values@[j]
                        &&& c@[j].interpolation is Hermite
                        &&& c@[j].tangent_control is Auto
                        &&& c@[j].in_tangent as int == auto_slope_spec(c@, j)
                        &&& c@[j].out_tangent as int == auto_slope_spec(c@, j)
                    })
            },
    {
        let n = times.len();
        if values.len() != n {
            return None;
        }
        let mut keys: Vec<Keyframe> = Vec::new();
        let mut j: usize = 0;
        while j < n
            invariant
                n == times@.len(),
                n == values@.len(),
                0 <= j <= n,
                keys@.len() == j,
                forall|k: int|
                    0 <= k < j ==> {
                        &&& (#[trigger] keys@[k]).time == times@[k]
                        &&& keys@[k].value == values@[k]
                        &&& keys@[k].in_tangent == 0
                        &&& keys@[k].out_tangent == 0
                        &&& keys@[k].interpolation is Hermite
                        &&& keys@[k].tangent_control is Auto
                    },
                forall|k: int|
                    0 <= k < j ==> -COORD_LIMIT <= #[trigger] times@[k] <= COORD_LIMIT,
                forall|k: int|
                    0 <= k < j ==> -COORD_LIMIT <= #[trigger] values@[k] <= COORD_LIMIT,
                forall|k: int| 0 <= k < j - 1 ==> #[trigger] times@[k] < times@[k + 1],
            decreases n - j,
        {
            let t = times[j];
            let v = values[j];
            if t < -COORD_LIMIT || t > COORD_LIMIT || v < -COORD_LIMIT || v > COORD_LIMIT {
                return None;
            }
            if j > 0 && times[j - 1] >= t {
                return None;
            }
            keys.push(
                Keyframe {
                    time: t,
                    value: v,
                    in_tangent: 0,
                    out_tangent: 0,
                    interpolation: Interpolation::Hermite,
                    tangent_control: TangentControl::Auto,
                },
            );
            j += 1;
        }
        proof {
            lemma_adjacent_implies_increasing(times@);
        }
        let mut c = Curve { keys };
        proof {
            assert(curve_wf(c@));
        }
        let ghost built = c@;
        let mut i: usize = 0;
        while i < n
            invariant
                c.wf(),
                n == c@.len(),
                built.len() == n,
                n == times@.len(),
                n == values@.len(),
                0 <= i <= n,
                forall|k: int|
                    0 <= k < n ==> {
                        &&& (#[trigger] built[k]).time == times@[k]
                        &&& built[k].value == values@[k]
                        &&& built[k].interpolation is Hermite
                        &&& built[k].tangent_control is Auto
                    },
                forall|k: int|
                    0 <= k < n ==> {
                        &&& (#[trigger] c@[k]).time == built[k].time
                        &&& c@[k].value == built[k].value
                        &&& c@[k].interpolation == built[k].interpolation
                        &&& c@[k].tangent_control == built[k].tangent_control
                    },
                forall|k: int|
                    0 <= k < i ==> (#[trigger] c@[k]).in_tangent as int == auto_slope_spec(c@, k)
                        && c@[k].out_tangent as int == auto_slope_spec(c@, k),
            decreases n - i,
        {
            let ghost pre = c@;
            c.recompute_auto_at(i);
            proof {
                lemma_with_auto_at_facts(pre, i as int);
                assert forall|k: int| 0 <= k < n implies auto_slope_spec(c@, k)
                    == auto_slope_spec(pre, k) by {
                    lemma_auto_slope_stable(c@, pre, k);
                }
                assert(c@[i as int].in_tangent as int == auto_slope_spec(pre, i as int));
            }
            i += 1;
        }
        proof {
            assert(times@.len() == values@.len());
            assert(forall|j: int|
                0 <= j < times@.len() ==> -COORD_LIMIT <= #[trigger] times@[j] <= COORD_LIMIT);
            assert(forall|j: int|
                0 <= j < values@.len() ==> -COORD_LIMIT <= #[trigger] values@[j] <= COORD_LIMIT);
            lemma_adjacent_implies_increasing(times@);
            assert(forall|a: int, b: int| 0 <= a < b < times@.len() ==> times@[a] < times@[b]);
        }
        Some(c)
    }

    pub fn get_time(&self, index: usize) -> (t: i64)
        requires
            index < self@.len(),
        ensures
            t == self@[index as int].time,
    {
        self.keys[index].time
    }

    pub fn get_value(&self, index: usize) -> (v: i64)
        requires
            index < self@.len(),
        ensures
            v == self@[index as int].value,
    {
        self.keys[index].value
    }

    pub fn get_interpolation(&self, index: usize) -> (m: Interpolation)
        requires
            index < self@.len(),
        ensures
            m == self@[index as int].interpolation,
    {
        self.keys[index].interpolation
    }

    pub fn get_tangent_control(&self, index: usize) -> (m: TangentControl)
        requires
            index < self@.len(),
        ensures
            m == self@[index as int].tangent_control,
    {
        self.keys[index].tangent_control
    }

    pub fn get_in_out_tangent(&self, index: usize) -> (r: (i64, i64))
        requires
            index < self@.len(),
        ensures
            r.0 == self@[index as int].in_tangent,
            r.1 == self@[index as int].out_tangent,
    {
        (self.keys[index].in_tangent, self.keys[index].out_tangent)
    }

    pub fn get_keyframe(&self, index: usize) -> (k: Keyframe)
        requires
            index < self@.len(),
        ensures
            k == self@[index as int],
    {
        self.keys[index]
    }

    /// Clamped secant slope between two keyframes.
    fn secant(a: &Keyframe, b: &Keyframe) -> (r: i64)
        requires
            kf_wf(*a),
            kf_wf(*b),
            a.time < b.time,
        ensures
            r as int == secant_spec(*a, *b),
            -TAN_LIMIT <= r <= TAN_LIMIT,
    {
        let num: i128 = mul_i128((b.value - a.value) as i128, SCALE as i128);
        let den: i128 = (b.time - a.time) as i128;
        let q: i128 = fdiv_i128(num, den);
        proof {
            lemma_div_abs(num as int, den as int);
        }
        clamp_i64(q as i64, -TAN_LIMIT, TAN_LIMIT)
    }

    /// The automatic tangent slope at `index`.
    fn auto_slope_at(&self, index: usize) -> (r: i64)
        requires
            self.wf(),
            index < self@.len(),
        ensures
            r as int == auto_slope_spec(self@, index as int),
            -TAN_LIMIT <= r <= TAN_LIMIT,
    {
        let n = self.keys.len();
        if n < 2 {
            0
        } else if index == 0 {
            Self::secant(&self.keys[0], &self.keys[1])
        } else if index == n - 1 {
            Self::secant(&self.keys[index - 1], &self.keys[index])
        } else {
            Self::secant(&self.keys[index - 1], &self.keys[index + 1])
        }
    }

    /// Refresh the tangents of the keyframe at `index` if it is under
    /// `Auto` control; no-op otherwise or when `index` is out of range.
    fn recompute_auto_at(&mut self, index: usize)
        requires
            old(self).wf(),
        ensures
            final(self)@ == with_auto_at(old(self)@, index as int),
            final(self).wf(),
    {
        proof {
            lemma_with_auto_at_facts(self@, index as int);
        }
        if index < self.keys.len() {
            if self.keys[index].tangent_control == TangentControl::Auto {
                let m = self.auto_slope_at(index);
                let mut k = self.keys[index];
                k.in_tangent = m;
                k.out_tangent = m;
                self.keys[index] = k;
            }
        }
    }

    /// Refresh the automatic tangents of the keyframe at `index` and of its
    /// two neighbors.
    fn recompute_auto_around(&mut self, index: usize)
        requires
            old(self).wf(),
        ensures
            final(self)@ == refresh_around(old(self)@, index as int),
            final(self).wf(),
    {
        let n = self.keys.len();
        if index > 0 {
            self.recompute_auto_at(index - 1);
        }
        self.recompute_auto_at(index);
        if index < n {
            self.recompute_auto_at(index + 1);
        }
    }

    /// Insert a keyframe, keeping the sort order; the new keyframe starts
    /// under `Auto` tangent control. A time that exactly collides with an
    /// existing keyframe is rejected. On success, returns the index of the
    /// new keyframe; the automatic tangents of it and of its neighbors are
    /// refreshed.
    pub fn insert(&mut self, time: i64, value: i64, interpolation: Interpolation) -> (r: Option<
        usize,
    >)
        requires
            old(self).wf(),
            -COORD_LIMIT <= time <= COORD_LIMIT,
            -COORD_LIMIT <= value <= COORD_LIMIT,
        ensures
            final(self).wf(),
            (r is Some) <==> (forall|k: int|
                0 <= k < old(self)@.len() ==> (#[trigger] old(self)@[k]).time != time),
            r is None ==> final(self)@ == old(self)@,
            r matches Some(p) ==> {
                &&& p as int <= old(self)@.len()
                &&& (p > 0 ==> old(self)@[p as int - 1].time < time)
                &&& (p as int) < old(self)@.len() ==> time < old(self)@[p as int].time
                &&& final(self)@ == refresh_around(
                    old(self)@.insert(p as int, make_kf(time, value, interpolation)),
                    p as int,
                )
                &&& final(self)@.len() == old(self)@.len() + 1
                &&& final(self)@[p as int].time == time
                &&& final(self)@[p as int].value == value
                &&& final(self)@[p as int].interpolation == interpolation
            },
    {
        let n = self.keys.len();
        let mut p: usize = 0;
        while p < n && self.keys[p].time < time
            invariant
                self == old(self),
                n == self@.len(),
                0 <= p <= n,
                forall|j: int| 0 <= j < p ==> (#[trigger] self@[j]).time < time,
            decreases n - p,
        {
            p += 1;
        }
        if p < n && self.keys[p].time == time {
            return None;
        }
        proof {
            assert forall|k: int| 0 <= k < self@.len() implies (#[trigger] self@[k]).time
                != time by {
                if k > p {
                    assert(self@[p as int].time < self@[k].time);
                }
            }
            assert forall|j: int| p <= j < self@.len() implies (#[trigger] self@[j]).time
                > time by {
                if j > p {
                    assert(self@[p as int].time < self@[j].time);
                }
            }
            lemma_insert_wf(self@, p as int, make_kf(time, value, interpolation));
        }
        let kf = Keyframe {
            time,
            value,
            in_tangent: 0,
            out_tangent: 0,
            interpolation,
            tangent_control: TangentControl::Auto,
        };
        self.keys.insert(p, kf);
        let ghost mid = self@;
        self.recompute_auto_around(p);
        proof {
            lemma_refresh_around_facts(mid, p as int);
        }
        Some(p)
    }

    /// Delete the keyframe at `index`; a no-op when `index` is out of
    /// range. The automatic tangents of the former neighbors are refreshed.
    pub fn remove(&mut self, index: usize)
        requires
            old(self).wf(),
        ensures
            final(self).wf(),
            index >= old(self)@.len() ==> final(self)@ == old(self)@,
            index < old(self)@.len() ==> {
                &&& final(self)@ == with_auto_at(
                    with_auto_at(old(self)@.remove(index as int), index as int - 1),
                    index as int,
                )
                &&& final(self)@.len() == old(self)@.len() - 1
            },
    {
        if index >= self.keys.len() {
            return ;
        }
        proof {
            lemma_remove_wf(self@, index as int);
        }
        self.keys.remove(index);
        let ghost mid = self@;
        if index > 0 {
            self.recompute_auto_at(index - 1);
        }
        self.recompute_auto_at(index);
        proof {
            lemma_with_auto_at_facts(mid, index as int - 1);
            lemma_with_auto_at_facts(with_auto_at(mid, index as int - 1), index as int);
        }
    }

    /// Update the dependent value of the keyframe at `index`; a no-op when
    /// `index` is out of range. The automatic tangents of the keyframe and
    /// of its neighbors are refreshed.
    pub fn set_value(&mut self, index: usize, value: i64)
        requires
            old(self).wf(),
            -COORD_LIMIT <= value <= COORD_LIMIT,
        ensures
            final(self).wf(),
            index >= old(self)@.len() ==> final(self)@ == old(self)@,
            index < old(self)@.len() ==> {
                let mid = old(self)@.update(
                    index as int,
                    Keyframe { value, ..old(self)@[index as int] },
                );
                &&& final(self)@ == refresh_around(mid, index as int)
                &&& final(self)@.len() == old(self)@.len()
                &&& final(self)@[index as int].value == value
                &&& final(self)@[index as int].time == old(self)@[index as int].time
            },
    {
        if index >= self.keys.len() {
            return ;
        }
        let mut k = self.keys[index];
        k.value = value;
        proof {
            lemma_update_same_time_wf(self@, index as int, k);
        }
        self.keys[index] = k;
        let ghost mid = self@;
        self.recompute_auto_around(index);
        proof {
            lemma_refresh_around_facts(mid, index as int);
        }
    }

    /// Update the independent axis of the keyframe at `index`. When the new
    /// time keeps the keyframe between its neighbors, the keyframe is
    /// updated in place and `None` is returned; when it crosses a neighbor,
    /// the sequence is re-sorted and `Some(newIndex)` is returned, which the
    /// caller must consult to re-target the moved keyframe. A no-op
    /// returning `None` when `index` is out of range or when the new time
    /// exactly collides with another keyframe's time. The automatic
    /// tangents around the old and the new position are refreshed.
    pub fn set_time(&mut self, index: usize, time: i64) -> (r: Option<usize>)
        requires
            old(self).wf(),
            -COORD_LIMIT <= time <= COORD_LIMIT,
        ensures
            final(self).wf(),
            index >= old(self)@.len() ==> r is None && final(self)@ == old(self)@,
            (index < old(self)@.len() && (exists|k: int|
                0 <= k < old(self)@.len() && k != index && (#[trigger] old(self)@[k]).time
                    == time)) ==> r is None && final(self)@ == old(self)@,
            (index < old(self)@.len() && (forall|k: int|
                0 <= k < old(self)@.len() && k != index ==> (#[trigger] old(self)@[k]).time
                    != time)) ==> {
                let s1 = old(self)@.remove(index as int);
                let moved = Keyframe { time, ..old(self)@[index as int] };
                &&& final(self)@.len() == old(self)@.len()
                &&& (r is None ==> {
                    &&& final(self)@ == refresh_around(
                        refresh_around(s1.insert(index as int, moved), index as int),
                        index as int,
                    )
                    &&& final(self)@[index as int].time == time
                    &&& final(self)@[index as int].value == old(self)@[index as int].value
                })
                &&& (r matches Some(p) ==> {
                    let site = if p < index {
                        index as int + 1
                    } else {
                        index as int
                    };
                    &&& (p as int) < old(self)@.len()
                    &&& p != index
                    &&& (p > 0 ==> s1[p as int - 1].time < time)
                    &&& ((p as int) < s1.len() ==> s1[p as int].time > time)
                    &&& final(self)@ == refresh_around(
                        refresh_around(s1.insert(p as int, moved), site),
                        p as int,
                    )
                    &&& final(self)@[p as int].time == time
                    &&& final(self)@[p as int].value == old(self)@[index as int].value
                    &&& final(self)@[p as int].interpolation == old(self)@[index as int].interpolation
                    &&& final(self)@[p as int].tangent_control == old(self)@[index as int].tangent_control
                })
            },
    {
        let n = self.keys.len();
        if index >= n {
            return None;
        }
        // Reject an exact collision with another keyframe's time.
        let mut k: usize = 0;
        while k < n
            invariant
                self == old(self),
                old(self).wf(),
                n == self@.len(),
                index < n,
                0 <= k <= n,
                forall|j: int| 0 <= j < k && j != index ==> (#[trigger] self@[j]).time != time,
            decreases n - k,
        {
            if k != index && self.keys[k].time == time {
                return None;
            }
            k += 1;
        }
        proof {
            lemma_remove_wf(self@, index as int);
            self@.remove_ensures(index as int);
        }
        let mut moved = self.keys.remove(index);
        moved.time = time;
        let ghost s1 = self@;
        // Find the insertion position among the remaining keyframes.
        let m = self.keys.len();
        let mut p: usize = 0;
        while p < m && self.keys[p].time < time
            invariant
                self@ == s1,
                m == s1.len(),
                0 <= p <= m,
                forall|j: int| 0 <= j < p ==> (#[trigger] s1[j]).time < time,
            decreases m - p,
        {
            p += 1;
        }
        proof {
            assert forall|j: int| p <= j < s1.len() implies (#[trigger] s1[j]).time > time by {
                if j > p {
                    assert(s1[p as int].time < s1[j].time);
                }
                // s1[j] is one of the other keyframes of the original curve,
                // none of which carries the new time.
                if j < index {
                    assert(s1[j] == old(self)@[j]);
                } else {
                    assert(s1[j] == old(self)@[j + 1]);
                }
            }
            lemma_insert_wf(s1, p as int, moved);
        }
        self.keys.insert(p, moved);
        let ghost s2 = self@;
        let site = if p < index {
            index + 1
        } else {
            index
        };
        self.recompute_auto_around(site);
        let ghost s3 = self@;
        self.recompute_auto_around(p);
        proof {
            s1.insert_ensures(p as int, moved);
            lemma_refresh_around_facts(s2, site as int);
            lemma_refresh_around_facts(s3, p as int);
        }
        if p == index {
            None
        } else {
            Some(p)
        }
    }

    /// Set the segment interpolation rule applied from the keyframe at
    /// `index` to the next one; a pure metadata update, and a no-op when
    /// `index` is out of range.
    pub fn set_interpolation(&mut self, index: usize, mode: Interpolation)
        requires
            old(self).wf(),
        ensures
            final(self).wf(),
            index >= old(self)@.len() ==> final(self)@ == old(self)@,
            index < old(self)@.len() ==> final(self)@ == old(self)@.update(
                index as int,
                Keyframe { interpolation: mode, ..old(self)@[index as int] },
            ),
    {
        if index >= self.keys.len() {
            return ;
        }
        let mut k = self.keys[index];
        k.interpolation = mode;
        proof {
            lemma_update_same_time_wf(self@, index as int, k);
        }
        self.keys[index] = k;
    }

    /// Set the tangent control mode of the keyframe at `index`; a no-op
    /// when `index` is out of range. Switching into `Auto` recomputes the
    /// tangents at once; switching into `Flat` zeroes them; switching out
    /// of `Auto` freezes the last computed slopes as the editable values.
    pub fn set_tangent_control(&mut self, index: usize, mode: TangentControl)
        requires
            old(self).wf(),
        ensures
            final(self).wf(),
            index >= old(self)@.len() ==> final(self)@ == old(self)@,
            index < old(self)@.len() ==> {
                let mid = old(self)@.update(
                    index as int,
                    tc_applied(old(self)@[index as int], mode),
                );
                final(self)@ == with_auto_at(mid, index as int)
            },
    {
        if index >= self.keys.len() {
            return ;
        }
        let mut k = self.keys[index];
        k.tangent_control = mode;
        if mode == TangentControl::Flat {
            k.in_tangent = 0;
            k.out_tangent = 0;
        }
        proof {
            lemma_update_same_time_wf(self@, index as int, k);
        }
        self.keys[index] = k;
        let ghost mid = self@;
        self.recompute_auto_at(index);
        proof {
            lemma_with_auto_at_facts(mid, index as int);
        }
    }

    /// Set the incoming tangent slope of the keyframe at `index`. A no-op
    /// under `Auto` or `Flat` control (automatic and flat tangents are
    /// never hand-edited), when `index` is out of range; `Broken` sets the
    /// incoming side alone, `Free` mirrors the slope to both sides.
    pub fn set_in_tangent(&mut self, index: usize, slope: i64)
        requires
            old(self).wf(),
            -TAN_LIMIT <= slope <= TAN_LIMIT,
        ensures
            final(self).wf(),
            index >= old(self)@.len() ==> final(self)@ == old(self)@,
            index < old(self)@.len() ==> final(self)@ == old(self)@.update(
                index as int,
                set_in_spec(old(self)@[index as int], slope),
            ),
            index < old(self)@.len() && old(self)@[index as int].tangent_control is Auto
                ==> final(self)@ == old(self)@,
    {
        if index >= self.keys.len() {
            return ;
        }
        let mut k = self.keys[index];
        match k.tangent_control {
            TangentControl::Auto => {
                proof {
                    assert(old(self)@.update(
                        index as int,
                        set_in_spec(old(self)@[index as int], slope),
                    ) =~= old(self)@);
                }
                return ;
            },
            TangentControl::Flat => {
                proof {
                    assert(old(self)@.update(
                        index as int,
                        set_in_spec(old(self)@[index as int], slope),
                    ) =~= old(self)@);
                }
                return ;
            },
            TangentControl::Broken => {
                k.in_tangent = slope;
            },
            TangentControl::Free => {
                k.in_tangent = slope;
                k.out_tangent = slope;
            },
        }
        proof {
            lemma_update_same_time_wf(self@, index as int, k);
        }
        self.keys[index] = k;
    }

    /// Set the outgoing tangent slope of the keyframe at `index`; the
    /// mirror image of `set_in_tangent`.
    pub fn set_out_tangent(&mut self, index: usize, slope: i64)
        requires
            old(self).wf(),
            -TAN_LIMIT <= slope <= TAN_LIMIT,
        ensures
            final(self).wf(),
            index >= old(self)@.len() ==> final(self)@ == old(self)@,
            index < old(self)@.len() ==> final(self)@ == old(self)@.update(
                index as int,
                set_out_spec(old(self)@[index as int], slope),
            ),
            index < old(self)@.len() && old(self)@[index as int].tangent_control is Auto
                ==> final(self)@ == old(self)@,
    {
        if index >= self.keys.len() {
            return ;
        }
        let mut k = self.keys[index];
        match k.tangent_control {
            TangentControl::Auto => {
                proof {
                    assert(old(self)@.update(
                        index as int,
                        set_out_spec(old(self)@[index as int], slope),
                    ) =~= old(self)@);
                }
                return ;
            },
            TangentControl::Flat => {
                proof {
                    assert(old(self)@.update(
                        index as int,
                        set_out_spec(old(self)@[index as int], slope),
                    ) =~= old(self)@);
                }
                return ;
            },
            TangentControl::Broken => {
                k.out_tangent = slope;
            },
            TangentControl::Free => {
                k.in_tangent = slope;
                k.out_tangent = slope;
            },
        }
        proof {
            lemma_update_same_time_wf(self@, index as int, k);
        }
        self.keys[index] = k;
    }

    /// Set both tangent slopes of the keyframe at `index` to one mirrored
    /// value; a no-op under `Auto` or `Flat` control or when `index` is out
    /// of range.
    pub fn set_in_out_tangent(&mut self, index: usize, slope: i64)
        requires
            old(self).wf(),
            -TAN_LIMIT <= slope <= TAN_LIMIT,
        ensures
            final(self).wf(),
            index >= old(self)@.len() ==> final(self)@ == old(self)@,
            index < old(self)@.len() ==> final(self)@ == old(self)@.update(
                index as int,
                set_in_out_spec(old(self)@[index as int], slope),
            ),
            index < old(self)@.len() && old(self)@[index as int].tangent_control is Auto
                ==> final(self)@ == old(self)@,
    {
        if index >= self.keys.len() {
            return ;
        }
        let mut k = self.keys[index];
        match k.tangent_control {
            TangentControl::Auto => {
                proof {
                    assert(old(self)@.update(
                        index as int,
                        set_in_out_spec(old(self)@[index as int], slope),
                    ) =~= old(self)@);
                }
                return ;
            },
            TangentControl::Flat => {
                proof {
                    assert(old(self)@.update(
                        index as int,
                        set_in_out_spec(old(self)@[index as int], slope),
                    ) =~= old(self)@);
                }
                return ;
            },
            _ => {
                k.in_tangent = slope;
                k.out_tangent = slope;
            },
        }
        proof {
            lemma_update_same_time_wf(self@, index as int, k);
        }
        self.keys[index] = k;
    }
}

} // verus!
