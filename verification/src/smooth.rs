//! A single clamped linear transition over time.

use vstd::prelude::*;
use crate::fixed::abs_spec;
use crate::fixed::lemma_mul_div_le;
use crate::fixed::mul_div;
use crate::fixed::mul_div_spec;
use crate::fixed::TIME_CAP;
use crate::ease::VAL_CAP;

verus! {

/// Start time, duration and endpoints of one transition, in raw units.
#[derive(Clone, Copy, Debug, PartialEq, Eq, Structural)]
pub struct TtData {
    /// Start time, raw fixed-point seconds.
    pub start: i64,
    /// Duration, raw fixed-point seconds.
    pub duration: i64,
    pub from: i64,
    pub to: i64,
}

/// A time-based value that moves linearly from `from` to `to` over
/// `duration`, clamped outside the window.
#[derive(Clone, Copy, Debug, PartialEq, Eq, Structural)]
pub struct LinearTransform {
    pub data: TtData,
}

/// The bounds a transform must keep so that sampling cannot overflow.
pub open spec fn transform_wf(t: LinearTransform) -> bool {
    &&& -TIME_CAP <= t.data.start <= TIME_CAP
    &&& 0 <= t.data.duration <= TIME_CAP
    &&& -VAL_CAP <= t.data.from <= VAL_CAP
    &&& -VAL_CAP <= t.data.to <= VAL_CAP
}

/// The transform's value at `time`: `from` up to the start, `to` past
/// the end, linear in between, divisions truncated toward zero.
pub open spec fn linear_value_at(start: int, dur: int, from: int, to: int, time: int) -> int {
    let delta = time - start;
    if delta <= 0 {
        from
    } else if delta > dur {
        to
    } else {
        from + mul_div_spec(to - from, delta, dur)
    }
}

impl TtData {
    /// Start time of the transition.
    fn t(&self) -> (r: i64)
        ensures
            r == self.start,
    {
        self.start
    }

    /// Change in value over the whole transition.
    fn diff(&self) -> (r: i64)
        requires
            -VAL_CAP <= self.from <= VAL_CAP,
            -VAL_CAP <= self.to <= VAL_CAP,
        ensures
            r == self.to - self.from,
    {
        self.to - self.from
    }

    /// Start value.
    fn b(&self) -> (r: i64)
        ensures
            r == self.from,
    {
        self.from
    }

    /// Duration of the transition.
    fn d(&self) -> (r: i64)
        ensures
            r == self.duration,
    {
        self.duration
    }
}

impl LinearTransform {
    /// A transform moving from `from` to `to` over `duration`, starting
    /// at `start`.
    pub fn new(start: i64, from: i64, to: i64, duration: i64) -> (r: LinearTransform)
        requires
            -TIME_CAP <= start <= TIME_CAP,
            0 <= duration <= TIME_CAP,
            -VAL_CAP <= from <= VAL_CAP,
            -VAL_CAP <= to <= VAL_CAP,
        ensures
            r.data == (TtData { start, duration, from, to }),
            transform_wf(r),
    {
        LinearTransform { data: TtData { start, duration, from, to } }
    }

    /// Samples the transform at `time`.
    pub fn value_at(&self, time: i64) -> (r: i64)
        requires
            transform_wf(*self),
            -TIME_CAP <= time <= TIME_CAP,
        ensures
            r == linear_value_at(
                self.data.start as int,
                self.data.duration as int,
                self.data.from as int,
                self.data.to as int,
                time as int,
            ),
    {
        let t = &self.data;
        let delta = time - t.t();
        if delta <= 0 {
            return t.b();
        }
        if delta > t.d() {
            return self.data.to;
        }
        proof {
            lemma_mul_div_le(abs_spec(t.to - t.from), delta as int, t.duration as int);
        }
        t.b() + mul_div(t.diff(), delta, t.d())
    }
}

} // verus!
