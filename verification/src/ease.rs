//! Parametric time-based interpolation.
//!
//! An [`Easer`] carries a start time, a duration and a list of
//! `(from, to)` transitions, all in raw fixed-point units, and samples
//! every transition at a given time. Before the start it clamps at
//! `from`, after the end at `to`, and in between it applies its easing
//! curve.

use vstd::prelude::*;
use crate::fixed::abs_spec;
use crate::fixed::lemma_mul_div_le;
use crate::fixed::mul_div;
use crate::fixed::mul_div_spec;
use crate::fixed::SCALE;
use crate::fixed::TIME_CAP;

verus! {

/// Largest magnitude a transition endpoint may have, in raw units.
pub const VAL_CAP: i64 = 100_000_000_000_000;

/// The easing curves an [`Easer`] can apply between its endpoints.
#[derive(Clone, Copy, Debug, PartialEq, Eq, Structural)]
pub enum Easing {
    /// Straight interpolation from `from` to `to`.
    Linear,
    /// Quadratic ease-out: fast start, smooth stop.
    QuadOut,
    /// Exponential ease-out, `1 - 2^(-10 x)`: a fast start that settles
    /// smoothly; used for view animations such as zooming.
    ExpoOut,
}

/// Time-based interpolation over a list of `(from, to)` transitions.
#[derive(Clone, Debug)]
pub struct Easer {
    /// Start time, in raw fixed-point seconds.
    pub start: i64,
    /// Duration, in raw fixed-point seconds.
    pub duration: i64,
    /// The `(from, to)` transitions sampled together.
    pub transitions: Vec<(i64, i64)>,
    /// The easing curve applied between the endpoints.
    pub easing: Easing,
}

/// The bounds every easer must keep so that sampling cannot overflow.
pub open spec fn easer_wf(e: Easer) -> bool {
    &&& 0 <= e.duration <= TIME_CAP
    &&& -TIME_CAP <= e.start <= TIME_CAP
    &&& forall|i: int|
        0 <= i < e.transitions@.len() ==> -VAL_CAP <= (#[trigger] e.transitions@[i]).0 <= VAL_CAP
            && -VAL_CAP <= e.transitions@[i].1 <= VAL_CAP
}

/// The value of one transition at progress `delta` strictly inside the
/// duration, under the given easing curve, with every division truncated
/// toward zero exactly as the executable arithmetic truncates.
pub open spec fn eased_value(kind: Easing, delta: int, dur: int, from: int, to: int) -> int {
    let c = to - from;
    match kind {
        Easing::Linear => from + mul_div_spec(c, delta, dur),
        Easing::QuadOut => to - mul_div_spec(mul_div_spec(c, dur - delta, dur), dur - delta, dur),
        Easing::ExpoOut => from + mul_div_spec(c, SCALE - exp2_neg10_spec(delta, dur), SCALE as int),
    }
}

/// The value of one transition at an arbitrary time: clamped at `from`
/// before the start, at `to` from the end of the duration on, eased in
/// between.
pub open spec fn ease_value_at(
    kind: Easing,
    start: int,
    dur: int,
    from: int,
    to: int,
    time: int,
) -> int {
    let delta = time - start;
    if delta <= 0 {
        from
    } else if delta >= dur {
        to
    } else {
        eased_value(kind, delta, dur, from, to)
    }
}

/// An eased sample never leaves the interval spanned by its endpoints:
/// whatever the curve and the time, the value lies between `from` and
/// `to`.
pub proof fn lemma_ease_value_within(
    kind: Easing,
    start: int,
    dur: int,
    from: int,
    to: int,
    time: int,
)
    ensures
        (if from <= to {
            from <= ease_value_at(kind, start, dur, from, to, time) <= to
        } else {
            to <= ease_value_at(kind, start, dur, from, to, time) <= from
        }),
{
    let delta = time - start;
    if 0 < delta < dur {
        let c = to - from;
        lemma_mul_div_le(abs_spec(c), delta, dur);
        lemma_mul_div_le(abs_spec(c), dur - delta, dur);
        lemma_mul_div_le(abs_spec(mul_div_spec(c, dur - delta, dur)), dur - delta, dur);
        lemma_exp2_neg10_range(delta, dur);
        lemma_mul_div_le(abs_spec(c), SCALE - exp2_neg10_spec(delta, dur), SCALE as int);
    }
}

impl Easer {
    /// An easer with the given curve, zero start and duration, and no
    /// transitions yet.
    pub fn using(easing: Easing) -> (r: Easer)
        ensures
            r.start == 0,
            r.duration == 0,
            r.transitions@.len() == 0,
            r.easing == easing,
            easer_wf(r),
    {
        Easer { start: 0, duration: 0, transitions: Vec::new(), easing }
    }

    /// An easer with the straight-line curve.
    pub fn linear() -> (r: Easer)
        ensures
            r.start == 0,
            r.duration == 0,
            r.transitions@.len() == 0,
            r.easing == Easing::Linear,
            easer_wf(r),
    {
        Easer::using(Easing::Linear)
    }

    /// Replaces the start time.
    pub fn start(self, start: i64) -> (r: Easer)
        requires
            -TIME_CAP <= start <= TIME_CAP,
        ensures
            r == (Easer { start, ..self }),
            easer_wf(self) ==> easer_wf(r),
    {
        Easer { start, ..self }
    }

    /// Replaces the duration.
    pub fn duration(self, duration: i64) -> (r: Easer)
        requires
            0 <= duration <= TIME_CAP,
        ensures
            r == (Easer { duration, ..self }),
            easer_wf(self) ==> easer_wf(r),
    {
        Easer { duration, ..self }
    }

    /// Appends a `(from, to)` transition.
    pub fn add_transition(self, from: i64, to: i64) -> (r: Easer)
        requires
            -VAL_CAP <= from <= VAL_CAP,
            -VAL_CAP <= to <= VAL_CAP,
        ensures
            r.start == self.start,
            r.duration == self.duration,
            r.easing == self.easing,
            r.transitions@ == self.transitions@.push((from, to)),
            easer_wf(self) ==> easer_wf(r),
    {
        let Easer { start, duration, mut transitions, easing } = self;
        transitions.push((from, to));
        Easer { start, duration, transitions, easing }
    }

    /// When `time` lies outside the easing window, the clamped endpoint
    /// values; inside the window, nothing.
    fn out_of_bound_values_at(&self, time: i64) -> (r: Option<Vec<i64>>)
        requires
            easer_wf(*self),
            -TIME_CAP <= time <= TIME_CAP,
        ensures
            (match r {
                Option::Some(vals) => (time - self.start <= 0 || time - self.start >= self.duration)
                    && vals@.len() == self.transitions@.len() && (forall|i: int|
                    0 <= i < vals@.len() ==> #[trigger] vals@[i] == ease_value_at(
                        self.easing,
                        self.start as int,
                        self.duration as int,
                        self.transitions@[i].0 as int,
                        self.transitions@[i].1 as int,
                        time as int,
                    )),
                Option::None => 0 < time - self.start < self.duration,
            }),
    {
        let delta = time - self.start;
        if delta <= 0 {
            let mut vals: Vec<i64> = Vec::new();
            let mut i: usize = 0;
            while i < self.transitions.len()
                invariant
                    easer_wf(*self),
                    delta == time - self.start,
                    delta <= 0,
                    i <= self.transitions@.len(),
                    vals@.len() == i,
                    forall|k: int| 0 <= k < i ==> #[trigger] vals@[k] == self.transitions@[k].0,
                decreases self.transitions@.len() - i,
            {
                vals.push(self.transitions[i].0);
                i = i + 1;
            }
            return Some(vals);
        }
        if delta >= self.duration {
            let mut vals: Vec<i64> = Vec::new();
            let mut i: usize = 0;
            while i < self.transitions.len()
                invariant
                    easer_wf(*self),
                    delta == time - self.start,
                    delta >= self.duration,
                    i <= self.transitions@.len(),
                    vals@.len() == i,
                    forall|k: int| 0 <= k < i ==> #[trigger] vals@[k] == self.transitions@[k].1,
                decreases self.transitions@.len() - i,
            {
                vals.push(self.transitions[i].1);
                i = i + 1;
            }
            return Some(vals);
        }
        None
    }

    /// Samples every transition at `time`.
    pub fn values_at(&self, time: i64) -> (r: Vec<i64>)
        requires
            easer_wf(*self),
            -TIME_CAP <= time <= TIME_CAP,
        ensures
            r@.len() == self.transitions@.len(),
            forall|i: int|
                0 <= i < r@.len() ==> #[trigger] r@[i] == ease_value_at(
                    self.easing,
                    self.start as int,
                    self.duration as int,
                    self.transitions@[i].0 as int,
                    self.transitions@[i].1 as int,
                    time as int,
                ),
    {
        if let Some(vals) = self.out_of_bound_values_at(time) {
            return vals;
        }
        let t = time - self.start;
        let d = self.duration;
        let mut vals: Vec<i64> = Vec::new();
        let mut i: usize = 0;
        while i < self.transitions.len()
            invariant
                easer_wf(*self),
                t == time - self.start,
                0 < t < d,
                d == self.duration,
                -TIME_CAP <= time <= TIME_CAP,
                i <= self.transitions@.len(),
                vals@.len() == i,
                forall|k: int|
                    0 <= k < i ==> #[trigger] vals@[k] == eased_value(
                        self.easing,
                        t as int,
                        d as int,
                        self.transitions@[k].0 as int,
                        self.transitions@[k].1 as int,
                    ),
            decreases self.transitions@.len() - i,
        {
            let from = self.transitions[i].0;
            let to = self.transitions[i].1;
            let c = to - from;
            proof {
                lemma_mul_div_le(abs_spec(c as int), t as int, d as int);
                lemma_mul_div_le(abs_spec(c as int), d - t, d as int);
            }
            let v: i64 = match self.easing {
                Easing::Linear => from + mul_div(c, t, d),
                Easing::QuadOut => {
                    let u = d - t;
                    let t1 = mul_div(c, u, d);
                    proof {
                        lemma_mul_div_le(abs_spec(t1 as int), u as int, d as int);
                    }
                    to - mul_div(t1, u, d)
                },
                Easing::ExpoOut => {
                    let e = exp2_neg10(t, d);
                    let frac = SCALE - e;
                    proof {
                        lemma_mul_div_le(abs_spec(c as int), frac as int, SCALE as int);
                    }
                    from + mul_div(c, frac, SCALE)
                },
            };
            vals.push(v);
            i = i + 1;
        }
        vals
    }

    /// Whether the easing window has passed at `time`.
    pub fn has_finished(&self, time: i64) -> (r: bool)
        requires
            easer_wf(*self),
            -TIME_CAP <= time <= TIME_CAP,
        ensures
            r == (time > self.start + self.duration),
    {
        time > self.start + self.duration
    }
}

} // verus!

verus! {

/// Per-bit factors of the binary exponential: entry `k` is
/// `2^(-2^-(k+1))` in raw units, used by square-and-multiply.
pub open spec fn expo_c(k: int) -> int {
    if k == 0 {
        707_106_781
    } else if k == 1 {
        840_896_415
    } else if k == 2 {
        917_004_043
    } else if k == 3 {
        957_603_281
    } else if k == 4 {
        978_572_062
    } else if k == 5 {
        989_228_013
    } else if k == 6 {
        994_599_423
    } else if k == 7 {
        997_296_056
    } else if k == 8 {
        998_647_113
    } else if k == 9 {
        999_323_328
    } else if k == 10 {
        999_661_606
    } else if k == 11 {
        999_830_789
    } else if k == 12 {
        999_915_391
    } else if k == 13 {
        999_957_695
    } else if k == 14 {
        999_978_847
    } else if k == 15 {
        999_989_423
    } else if k == 16 {
        999_994_712
    } else if k == 17 {
        999_997_356
    } else if k == 18 {
        999_998_678
    } else if k == 19 {
        999_999_339
    } else if k == 20 {
        999_999_669
    } else if k == 21 {
        999_999_835
    } else if k == 22 {
        999_999_917
    } else if k == 23 {
        999_999_959
    } else if k == 24 {
        999_999_979
    } else if k == 25 {
        999_999_990
    } else if k == 26 {
        999_999_995
    } else if k == 27 {
        999_999_997
    } else {
        999_999_999
    }
}

/// `acc` scaled by `2^(-frac)` where `frac` is the binary fraction
/// `rem / dur`, unrolled bit by bit from position `k`.
pub open spec fn exp2_frac_spec(rem: int, dur: int, acc: int, k: int) -> int
    decreases 30 - k,
{
    if k >= 30 {
        acc
    } else {
        let rem2 = 2 * rem;
        if rem2 >= dur {
            exp2_frac_spec(rem2 - dur, dur, acc * expo_c(k) / (SCALE as int), k + 1)
        } else {
            exp2_frac_spec(rem2, dur, acc, k + 1)
        }
    }
}

/// `x` halved `n` times, each halving truncated.
pub open spec fn halve_n(x: int, n: int) -> int
    decreases n,
{
    if n <= 0 {
        x
    } else {
        halve_n(x / 2, n - 1)
    }
}

/// `2^(-10 * delta / dur)` in raw units: the whole part of the exponent
/// becomes halvings, the fractional part a per-bit product.
pub open spec fn exp2_neg10_spec(delta: int, dur: int) -> int {
    let num = 10 * delta;
    let n = num / dur;
    let rem = num - n * dur;
    halve_n(exp2_frac_spec(rem, dur, SCALE as int, 0), n)
}

/// The per-bit product starting from a value in `[0, SCALE]` never
/// leaves `[0, start]`.
proof fn lemma_exp2_frac_range(rem: int, dur: int, acc: int, k: int)
    requires
        1 <= dur,
        0 <= acc <= SCALE,
    ensures
        0 <= exp2_frac_spec(rem, dur, acc, k) <= acc,
    decreases 30 - k,
{
    if k < 30 {
        let rem2 = 2 * rem;
        if rem2 >= dur {
            assert(0 <= expo_c(k) <= SCALE);
            lemma_mul_div_le(acc, expo_c(k), SCALE as int);
            lemma_exp2_frac_range(rem2 - dur, dur, acc * expo_c(k) / (SCALE as int), k + 1);
        } else {
            lemma_exp2_frac_range(rem2, dur, acc, k + 1);
        }
    }
}

/// Halving never leaves `[0, x]`.
proof fn lemma_halve_n_range(x: int, n: int)
    requires
        0 <= x,
    ensures
        0 <= halve_n(x, n) <= x,
    decreases (if n >= 0 {
        n
    } else {
        0
    }),
{
    if n > 0 {
        lemma_halve_n_range(x / 2, n - 1);
    }
}

/// The binary exponential stays within one raw unit's worth of range.
pub proof fn lemma_exp2_neg10_range(delta: int, dur: int)
    requires
        0 < delta,
        delta < dur,
    ensures
        0 <= exp2_neg10_spec(delta, dur) <= SCALE,
{
    let num = 10 * delta;
    let n = num / dur;
    let rem = num - n * dur;
    lemma_exp2_frac_range(rem, dur, SCALE as int, 0);
    lemma_halve_n_range(exp2_frac_spec(rem, dur, SCALE as int, 0), n);
}

/// `2^(-10 * delta / dur)` in raw units, executably.
fn exp2_neg10(delta: i64, dur: i64) -> (r: i64)
    requires
        0 < delta,
        delta < dur,
        dur <= TIME_CAP,
    ensures
        r == exp2_neg10_spec(delta as int, dur as int),
        0 <= r <= SCALE,
{
    proof {
        lemma_exp2_neg10_range(delta as int, dur as int);
    }
    let table: [u64; 30] = [
        707_106_781,
        840_896_415,
        917_004_043,
        957_603_281,
        978_572_062,
        989_228_013,
        994_599_423,
        997_296_056,
        998_647_113,
        999_323_328,
        999_661_606,
        999_830_789,
        999_915_391,
        999_957_695,
        999_978_847,
        999_989_423,
        999_994_712,
        999_997_356,
        999_998_678,
        999_999_339,
        999_999_669,
        999_999_835,
        999_999_917,
        999_999_959,
        999_999_979,
        999_999_990,
        999_999_995,
        999_999_997,
        999_999_999,
        999_999_999,
    ];
    let num: u64 = 10 * (delta as u64);
    let n: u64 = num / (dur as u64);
    let mut rem: u64 = num % (dur as u64);
    proof {
        vstd::arithmetic::div_mod::lemma_fundamental_div_mod(num as int, dur as int);
    }
    let mut acc: u64 = SCALE as u64;
    let ghost rem0: int = rem as int;
    let mut k: usize = 0;
    while k < 30
        invariant
            1 <= dur <= TIME_CAP,
            k <= 30,
            0 <= acc <= SCALE,
            rem < (dur as u64),
            forall|j: int| 0 <= j < 30 ==> table@[j] == expo_c(j),
            exp2_frac_spec(rem0, dur as int, SCALE as int, 0) == exp2_frac_spec(
                rem as int,
                dur as int,
                acc as int,
                k as int,
            ),
        decreases 30 - k,
    {
        rem = 2 * rem;
        if rem >= dur as u64 {
            proof {
                assert(table@[k as int] == expo_c(k as int));
                lemma_mul_div_le(acc as int, expo_c(k as int), SCALE as int);
            }
            acc = acc * table[k] / (SCALE as u64);
            rem = rem - dur as u64;
        }
        k = k + 1;
    }
    let ghost frac: int = acc as int;
    let mut out: u64 = acc;
    let mut h: u64 = 0;
    while h < n
        invariant
            0 <= out <= SCALE,
            h <= n,
            halve_n(frac, n as int) == halve_n(out as int, n as int - h as int),
        decreases n - h,
    {
        out = out / 2;
        h = h + 1;
    }
    out as i64
}

} // verus!
