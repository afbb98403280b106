//! Projected orbit curves and the minimum-distance reducer.
//!
//! A curve is an ordered sequence of plots, oldest first, produced by the
//! seer one step at a time. Before rendering, dense curves are reduced to
//! a sparse subsequence whose consecutive points are at least a minimum
//! distance apart; the reducer exploits the near-uniform spacing of seer
//! plots by retrying the previous keep-gap before falling back to a
//! linear probe.

use vstd::prelude::*;
use crate::fixed::Vec2;
use crate::fixed::dist2;
use crate::fixed::dist2_spec;
use crate::fixed::in_world;
use crate::fixed::sq;
use crate::fixed::sq_u128;
use crate::fixed::lemma_dist2_bound;
use crate::fixed::SCALE;

verus! {

/// Projected trajectory: ordered plots, oldest first, and a render
/// opacity in raw units (`SCALE` is fully opaque).
#[derive(Debug, Clone)]
pub struct OrbitCurve {
    pub plots: Vec<Vec2>,
    pub opacity: i64,
}

/// All plots of the curve lie within the world box.
pub open spec fn curve_in_world(c: OrbitCurve) -> bool {
    forall|i: int| 0 <= i < c.plots@.len() ==> in_world(#[trigger] c.plots@[i])
}

/// `kept` is a strictly increasing list of indices into an input of
/// length `len`, starting at index 0.
pub open spec fn increasing_from_zero(kept: Seq<int>, len: int) -> bool {
    &&& kept.len() >= 1
    &&& kept[0] == 0
    &&& forall|k: int| 0 <= k < kept.len() ==> 0 <= #[trigger] kept[k] < len
    &&& forall|k: int| 1 <= k < kept.len() ==> kept[k - 1] < #[trigger] kept[k]
}

/// `out` is the subsequence of `plots` selected by `kept`: it keeps the
/// head, consecutive kept points are at least `md2` apart (squared), and
/// every input point past the last kept one stays closer than `md2` to it.
pub open spec fn reduced_rel(plots: Seq<Vec2>, out: Seq<Vec2>, kept: Seq<int>, md2: int) -> bool {
    &&& increasing_from_zero(kept, plots.len() as int)
    &&& out.len() == kept.len()
    &&& forall|k: int| 0 <= k < kept.len() ==> #[trigger] out[k] == plots[kept[k]]
    &&& forall|k: int|
        1 <= k < kept.len() ==> dist2_spec(plots[kept[k - 1]], plots[#[trigger] kept[k]]) >= md2
    &&& forall|j: int|
        kept.last() < j < plots.len() ==> dist2_spec(plots[kept.last()], #[trigger] plots[j]) < md2
}


/// Whether the reducer would retry the previous keep-gap from `last`:
/// the gap is worth skipping and the target index exists.
pub open spec fn skip_tried(plots_len: int, last: int, gap: int) -> bool {
    gap > 2 && last + gap < plots_len
}

/// Whether the retried gap is accepted: the target keeps the minimum
/// spacing and stays under the ceiling set by the last accepted gap.
pub open spec fn skip_ok(plots: Seq<Vec2>, md2: int, last: int, gap: int, upper: int) -> bool {
    &&& skip_tried(plots.len() as int, last, gap)
    &&& dist2_spec(plots[last], plots[last + gap]) >= md2
    &&& dist2_spec(plots[last], plots[last + gap]) <= upper
}

/// The indices the adaptive reducer keeps after the head, unrolled from
/// the probe state it is in: `last` is the index of the last kept plot,
/// `gap` the keep-gap it will retry, `counter` the next linear probe
/// offset, and `upper` the ceiling a retried gap must stay under. This
/// pins the whole output of the reduction.
pub open spec fn reduce_from(
    plots: Seq<Vec2>,
    md2: int,
    last: int,
    gap: int,
    counter: int,
    upper: int,
) -> Seq<int>
    decreases
            (if plots.len() - last >= 0 {
                plots.len() - last
            } else {
                0
            }),
            (if plots.len() + 1 - counter >= 0 {
                plots.len() + 1 - counter
            } else {
                0
            }),
{
    if last < 0 || counter < 1 {
        Seq::empty()
    } else if skip_ok(plots, md2, last, gap, upper) {
        seq![last + gap] + reduce_from(plots, md2, last + gap, gap, counter, upper)
    } else if last + counter >= plots.len() {
        Seq::empty()
    } else {
        let d2 = dist2_spec(plots[last], plots[last + counter]);
        if d2 >= md2 {
            seq![last + counter] + reduce_from(plots, md2, last + counter, counter, 1, d2 * 11 / 10)
        } else {
            let gap2 = if skip_tried(plots.len() as int, last, gap) {
                1
            } else {
                gap
            };
            reduce_from(plots, md2, last, gap2, counter + 1, upper)
        }
    }
}

/// All indices the reducer keeps: the head, then the unrolled probe.
pub open spec fn reduce_indices(plots: Seq<Vec2>, md2: int) -> Seq<int> {
    seq![0int] + reduce_from(plots, md2, 0, 1, 1, 0)
}

/// Monotone coverage of a reduction: every input index has some kept
/// point at it or before it, since the head is always kept at index 0.
pub proof fn lemma_reducer_coverage(
    plots: Seq<Vec2>,
    out: Seq<Vec2>,
    kept: Seq<int>,
    md2: int,
    i: int,
)
    requires
        reduced_rel(plots, out, kept, md2),
        0 <= i < plots.len(),
    ensures
        exists|k: int| 0 <= k < kept.len() && #[trigger] kept[k] <= i,
{
    assert(kept[0] <= i);
}

impl OrbitCurve {
    /// An empty, fully opaque curve.
    pub fn new() -> (r: OrbitCurve)
        ensures
            r.plots@.len() == 0,
            r.opacity == SCALE,
    {
        OrbitCurve { plots: Vec::new(), opacity: SCALE }
    }

    /// Drops the `n` oldest plots; with fewer than `n` plots the curve is
    /// emptied.
    pub fn remove_oldest_plots(&mut self, n: usize)
        ensures
            final(self).opacity == old(self).opacity,
            final(self).plots@ == (if n <= old(self).plots@.len() {
                old(self).plots@.subrange(n as int, old(self).plots@.len() as int)
            } else {
                Seq::<Vec2>::empty()
            }),
    {
        if n >= self.plots.len() {
            self.plots.clear();
            proof {
                if n <= old(self).plots@.len() {
                    assert(self.plots@ =~= old(self).plots@.subrange(
                        n as int,
                        old(self).plots@.len() as int,
                    ));
                }
            }
        } else {
            let len: usize = self.plots.len();
            let mut rest: Vec<Vec2> = Vec::new();
            let mut k: usize = n;
            while k < len
                invariant
                    n <= k <= len,
                    n < len,
                    len == self.plots@.len(),
                    self.plots@ == old(self).plots@,
                    self.opacity == old(self).opacity,
                    rest@ =~= old(self).plots@.subrange(n as int, k as int),
                decreases len - k,
            {
                rest.push(self.plots[k]);
                k = k + 1;
            }
            self.plots = rest;
            proof {
                assert(self.plots@ =~= old(self).plots@.subrange(
                    n as int,
                    old(self).plots@.len() as int,
                ));
            }
        }
    }

    /// A curve is worth drawing once it has more than three plots.
    pub fn is_drawable(&self) -> (r: bool)
        ensures
            r == (self.plots@.len() > 3),
    {
        self.plots.len() > 3
    }

    /// Reduces the curve to a subsequence whose consecutive points are at
    /// least `min_distance` apart, always keeping the head plot.
    ///
    /// Near-uniform plot spacing makes consecutive keep-gaps almost
    /// constant, so after each kept point the previous gap is tried first
    /// and accepted while the squared distance stays within 1.1 times the
    /// last accepted one; a miss falls back to probing every index.
    #[verifier::rlimit(50)]
    pub fn with_minimum_plot_distance(&self, min_distance: i64) -> (r: OrbitCurve)
        requires
            self.plots@.len() >= 1,
            curve_in_world(*self),
        ensures
            r.opacity == self.opacity,
            r.plots@.len() >= 1,
            r.plots@[0] == self.plots@[0],
            curve_in_world(r),
            reduced_rel(
                self.plots@,
                r.plots@,
                reduce_indices(self.plots@, sq(min_distance as int)),
                sq(min_distance as int),
            ),
    {
        let len: usize = self.plots.len();
        let md2: u128 = sq_u128(min_distance);

        let mut plots: Vec<Vec2> = Vec::new();
        plots.push(self.plots[0]);
        let ghost mut kept: Seq<int> = seq![0int];

        let mut last_plot: Vec2 = self.plots[0];
        let mut last_plot_idx: usize = 0;
        let mut last_gap: usize = 1;
        let mut counter: usize = 1;
        let mut expect_next_max_distance2: u128 = 0;

        proof {
            assert(reduce_indices(self.plots@, md2 as int) =~= kept + reduce_from(
                self.plots@,
                md2 as int,
                0,
                1,
                1,
                0,
            ));
        }

        loop
            invariant
                len == self.plots@.len(),
                len >= 1,
                curve_in_world(*self),
                md2 == sq(min_distance as int),
                1 <= counter,
                last_plot_idx < len,
                last_plot_idx + counter <= len,
                last_gap >= 1,
                last_gap > 2 && last_plot_idx + last_gap < len ==> counter == 1,
                kept.len() == plots@.len(),
                kept.last() == last_plot_idx,
                last_plot == self.plots@[last_plot_idx as int],
                increasing_from_zero(kept, len as int),
                forall|k: int| 0 <= k < kept.len() ==> #[trigger] plots@[k] == self.plots@[kept[k]],
                forall|k: int|
                    1 <= k < kept.len() ==> dist2_spec(
                        self.plots@[kept[k - 1]],
                        self.plots@[#[trigger] kept[k]],
                    ) >= md2,
                forall|j: int|
                    last_plot_idx < j < last_plot_idx + counter ==> dist2_spec(
                        self.plots@[last_plot_idx as int],
                        #[trigger] self.plots@[j],
                    ) < md2,
                reduce_indices(self.plots@, md2 as int) =~= kept + reduce_from(
                    self.plots@,
                    md2 as int,
                    last_plot_idx as int,
                    last_gap as int,
                    counter as int,
                    expect_next_max_distance2 as int,
                ),
            ensures
                len == self.plots@.len(),
                last_plot_idx < len,
                last_plot_idx + counter >= len,
                kept.len() == plots@.len(),
                kept.last() == last_plot_idx,
                increasing_from_zero(kept, len as int),
                forall|k: int| 0 <= k < kept.len() ==> #[trigger] plots@[k] == self.plots@[kept[k]],
                forall|k: int|
                    1 <= k < kept.len() ==> dist2_spec(
                        self.plots@[kept[k - 1]],
                        self.plots@[#[trigger] kept[k]],
                    ) >= md2,
                forall|j: int|
                    last_plot_idx < j < last_plot_idx + counter ==> dist2_spec(
                        self.plots@[last_plot_idx as int],
                        #[trigger] self.plots@[j],
                    ) < md2,
                reduce_indices(self.plots@, md2 as int) =~= kept,
            decreases len - last_plot_idx, len - counter,
        {
            let ghost g_kept = kept;
            let ghost g_last: int = last_plot_idx as int;
            let ghost g_gap: int = last_gap as int;
            let ghost g_counter: int = counter as int;
            let ghost g_upper: int = expect_next_max_distance2 as int;
            let ghost rem0: Seq<int> = reduce_from(
                self.plots@,
                md2 as int,
                g_last,
                g_gap,
                g_counter,
                g_upper,
            );

            let mut did_skip = false;
            if last_gap > 2 && len - last_plot_idx > last_gap {
                // try to skip by the same gap as accepted last time
                let next = self.plots[last_plot_idx + last_gap];
                let next_distance2 = dist2(&last_plot, &next);
                if next_distance2 >= md2 && next_distance2 <= expect_next_max_distance2 {
                    proof {
                        assert(skip_ok(self.plots@, md2 as int, g_last, g_gap, g_upper));
                        assert(rem0 =~= seq![g_last + g_gap] + reduce_from(
                            self.plots@,
                            md2 as int,
                            g_last + g_gap,
                            g_gap,
                            g_counter,
                            g_upper,
                        ));
                    }
                    plots.push(next);
                    proof {
                        kept = kept.push((last_plot_idx + last_gap) as int);
                    }
                    last_plot = next;
                    last_plot_idx = last_plot_idx + last_gap;
                    did_skip = true;
                    proof {
                        assert(g_kept + rem0 =~= kept + reduce_from(
                            self.plots@,
                            md2 as int,
                            last_plot_idx as int,
                            last_gap as int,
                            counter as int,
                            expect_next_max_distance2 as int,
                        ));
                    }
                } else {
                    // the gap no longer fits, revert to probing every index
                    proof {
                        assert(!skip_ok(self.plots@, md2 as int, g_last, g_gap, g_upper));
                    }
                    last_gap = 1;
                }
            }
            if !did_skip {
                proof {
                    assert(!skip_ok(self.plots@, md2 as int, g_last, g_gap, g_upper));
                }
                if len - last_plot_idx <= counter {
                    proof {
                        assert(rem0 =~= Seq::<int>::empty());
                        assert(reduce_indices(self.plots@, md2 as int) =~= kept);
                    }
                    break;
                }
                let plot = self.plots[last_plot_idx + counter];
                let distance2 = dist2(&last_plot, &plot);
                if distance2 >= md2 {
                    proof {
                        lemma_dist2_bound(last_plot, plot);
                        assert(rem0 =~= seq![g_last + g_counter] + reduce_from(
                            self.plots@,
                            md2 as int,
                            g_last + g_counter,
                            g_counter,
                            1,
                            dist2_spec(
                                self.plots@[g_last],
                                self.plots@[g_last + g_counter],
                            ) * 11 / 10,
                        ));
                    }
                    expect_next_max_distance2 = distance2 * 11 / 10;
                    plots.push(plot);
                    proof {
                        kept = kept.push((last_plot_idx + counter) as int);
                    }
                    last_plot = plot;
                    last_plot_idx = last_plot_idx + counter;
                    last_gap = counter;
                    counter = 1;
                    proof {
                        assert(g_kept + rem0 =~= kept + reduce_from(
                            self.plots@,
                            md2 as int,
                            last_plot_idx as int,
                            last_gap as int,
                            counter as int,
                            expect_next_max_distance2 as int,
                        ));
                    }
                } else {
                    proof {
                        assert(rem0 =~= reduce_from(
                            self.plots@,
                            md2 as int,
                            g_last,
                            last_gap as int,
                            g_counter + 1,
                            g_upper,
                        ));
                    }
                    counter = counter + 1;
                }
            }
        }

        let ghost out_kept = kept;
        let r = OrbitCurve { plots, opacity: self.opacity };
        proof {
            assert(reduce_indices(self.plots@, md2 as int) == out_kept);
            assert(reduced_rel(self.plots@, r.plots@, out_kept, sq(min_distance as int)));
        }
        r
    }
}

} // verus!
