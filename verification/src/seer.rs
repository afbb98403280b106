//! The seer: a forward simulation of the world that projects orbit
//! curves ahead of real time, and the apprentice protocol that replaces
//! a drifting seer.
//!
//! A seer runs on its own thread. This module holds everything the
//! worker decides and computes — seeding, reconciliation against the
//! main timeline, advancing, filtering, and the supervisor's spawn and
//! promotion rules — as verified functions over a [`SeerSim`] value.
//! The thread itself, being I/O, lives with the caller: it drains the
//! delta channel, drives the simulation and publishes filtered curves
//! through a latest-value channel.

use vstd::prelude::*;
use std::sync::mpsc::Receiver;
use std::sync::mpsc::Sender;
use rayon::iter::IntoParallelIterator;
use rayon::iter::ParallelIterator;
use crate::compute::compute_state;
use crate::compute::velocity_updated_body;
use crate::orbitbody::moved_body;
use crate::compute::MAX_BODIES;
use crate::fixed::Vec2;
use crate::fixed::in_world;
use crate::fixed::sq;
use crate::fixed::SCALE;
use crate::fixed::TIME_CAP;
use crate::input::Tasks;
use crate::input::current_target_zoom;
use crate::input::tasks_wf;
use crate::ease::VAL_CAP;
use crate::orbitcurve::OrbitCurve;
use crate::orbitcurve::curve_in_world;
use crate::orbitcurve::reduce_indices;
use crate::orbitcurve::reduced_rel;
use crate::state::State;
use crate::state::mismatch_spec;
use crate::state::state_wf;
use crate::svsc::Getter;

verus! {

/// Time the seer advances per step, in raw seconds (one millisecond).
pub const SEER_COMPUTE_DELTA: i64 = 1_000_000;

/// Plot budget: the seer pauses once this many steps lie ahead.
pub const SEER_MAX_PLOTS: usize = 50_000;

/// How far a body may drift from its curve's head before the seer is
/// considered at fault, in raw world units.
pub const SEER_FAULT_TOLERANCE: i64 = 500_000_000;

#[verifier::external_type_specification]
#[verifier::external_body]
#[verifier::reject_recursive_types(T)]
pub struct ExSender<T>(Sender<T>);

#[verifier::external_type_specification]
#[verifier::external_body]
#[verifier::reject_recursive_types(T)]
pub struct ExReceiver<T>(Receiver<T>);

/// Relies on std::sync::mpsc::channel to create a connected pair.
#[verifier::external_body]
pub fn delta_channel() -> (Sender<i64>, Receiver<i64>) {
    std::sync::mpsc::channel()
}

/// Relies on std::sync::mpsc::Sender::send: delivers the value unless
/// the receiver is gone; which of the two depends on the other thread.
#[verifier::external_body]
pub fn send_delta(tx: &Sender<i64>, delta: i64) -> bool {
    tx.send(delta).is_ok()
}

/// Relies on std::sync::mpsc::Receiver::try_recv: the next queued value
/// without blocking, or nothing when the queue is empty or the sender
/// is gone; which of the two depends on the other thread.
#[verifier::external_body]
pub fn try_recv_delta(rx: &Receiver<i64>) -> Option<i64> {
    rx.try_recv().ok()
}

/// Handle to a running seer: the latest filtered projection, the delta
/// channel feeding it real time, and the plot spacing it was born with.
pub struct Seer {
    pub projection: Getter<Vec<OrbitCurve>>,
    pub main_deltas: Sender<i64>,
    pub min_plot_distance: i64,
}

/// The plot spacing a seer uses at a given zoom, chosen so curve visual
/// density stays roughly constant across zoom levels.
pub open spec fn mpd_at_zoom(zoom: int) -> int {
    if zoom >= 8_500_000_000 {
        270_000_000
    } else if zoom >= 4_500_000_000 {
        180_000_000
    } else if zoom >= 2_500_000_000 {
        150_000_000
    } else if zoom >= 1_500_000_000 {
        100_000_000
    } else {
        50_000_000
    }
}

/// A seer's projected length: plots of its first curve times its plot
/// spacing.
pub open spec fn seer_score(curves: Vec<OrbitCurve>, mpd: int) -> int {
    (if curves@.len() > 0 {
        curves@[0].plots@.len() as int
    } else {
        0
    }) * mpd
}

impl Seer {
    /// The plot spacing for the current zoom level.
    pub fn min_plot_distance_at_zoom(zoom: i64) -> (r: i64)
        ensures
            r == mpd_at_zoom(zoom as int),
    {
        if zoom >= 8_500_000_000 {
            270_000_000
        } else if zoom >= 4_500_000_000 {
            180_000_000
        } else if zoom >= 2_500_000_000 {
            150_000_000
        } else if zoom >= 1_500_000_000 {
            100_000_000
        } else {
            50_000_000
        }
    }

    /// The plot spacing a freshly spawned seer adopts: that of the zoom
    /// the view is heading for.
    pub fn spawn_min_plot_distance(initial_state: &State, tasks: &Tasks) -> (r: i64)
        requires
            state_wf(*initial_state),
            tasks_wf(*tasks),
        ensures
            r == mpd_at_zoom(current_target_zoom(*tasks, *initial_state)),
    {
        let zoom = match &tasks.zoom {
            Some(z) => z.zoom_destination(),
            None => initial_state.zoom,
        };
        Seer::min_plot_distance_at_zoom(zoom)
    }

    /// Whether this seer's projection has practically caught up with the
    /// other's: its projected length reaches 99 percent of the other's.
    pub fn is_approx_as_good_as(&mut self, other: &mut Seer) -> (r: bool)
        requires
            0 <= old(self).min_plot_distance <= VAL_CAP,
            0 <= old(other).min_plot_distance <= VAL_CAP,
        ensures
            final(self).min_plot_distance == old(self).min_plot_distance,
            final(other).min_plot_distance == old(other).min_plot_distance,
            r == (100 * seer_score(
                final(self).projection.current(),
                final(self).min_plot_distance as int,
            ) >= 99 * seer_score(
                final(other).projection.current(),
                final(other).min_plot_distance as int,
            )),
    {
        let mine = self.projection.latest();
        let my_len: usize = if mine.len() > 0 {
            mine[0].plots.len()
        } else {
            0
        };
        proof {
            assert((my_len as int) * (self.min_plot_distance as int) <= 0x1_0000_0000_0000_0000
                * 100_000_000_000_000 && (my_len as int) * (self.min_plot_distance as int) >= 0)
                by (nonlinear_arith)
                requires
                    0 <= my_len <= 0x1_0000_0000_0000_0000,
                    0 <= self.min_plot_distance <= 100_000_000_000_000,
            ;
        }
        let my_score: u128 = (my_len as u128) * (self.min_plot_distance as u128);
        let theirs = other.projection.latest();
        let their_len: usize = if theirs.len() > 0 {
            theirs[0].plots.len()
        } else {
            0
        };
        proof {
            assert((their_len as int) * (other.min_plot_distance as int) <= 0x1_0000_0000_0000_0000
                * 100_000_000_000_000 && (their_len as int) * (other.min_plot_distance as int) >= 0)
                by (nonlinear_arith)
                requires
                    0 <= their_len <= 0x1_0000_0000_0000_0000,
                    0 <= other.min_plot_distance <= 100_000_000_000_000,
            ;
        }
        let their_score: u128 = (their_len as u128) * (other.min_plot_distance as u128);
        100 * my_score >= 99 * their_score
    }
}

} // verus!

verus! {

/// The worker-local model of a running seer: its own world copy, the
/// stripped task set, how many steps lie ahead of real time, and how
/// much real time has passed that the projection has not absorbed yet.
pub struct SeerSim {
    pub state: State,
    pub tasks: Tasks,
    pub plots: usize,
    pub main_deltas_ahead: i64,
}

/// The shape a seer simulation keeps between iterations.
pub open spec fn sim_wf(s: SeerSim) -> bool {
    &&& state_wf(s.state)
    &&& s.tasks.zoom is None
    &&& s.tasks.follow is None
    &&& 0 <= s.main_deltas_ahead < SEER_COMPUTE_DELTA
    &&& s.plots <= SEER_MAX_PLOTS
    &&& s.state.drawables.orbit_curves@.len() == s.state.drawables.orbit_bodies@.len()
    &&& s.state.drawables.orbit_bodies@.len() <= MAX_BODIES
}

/// Drops the `n` oldest plots of every curve, in place.
fn truncate_curves(curves: &mut Vec<OrbitCurve>, n: usize)
    ensures
        final(curves)@.len() == old(curves)@.len(),
        forall|i: int|
            0 <= i < old(curves)@.len() ==> (#[trigger] final(curves)@[i]).opacity
                == old(curves)@[i].opacity && final(curves)@[i].plots@ == (
            if n <= old(curves)@[i].plots@.len() {
                old(curves)@[i].plots@.subrange(n as int, old(curves)@[i].plots@.len() as int)
            } else {
                Seq::<Vec2>::empty()
            }),
        forall|i: int|
            0 <= i < final(curves)@.len() && curve_in_world(old(curves)@[i]) ==> curve_in_world(
                #[trigger] final(curves)@[i],
            ),
{
    let len = curves.len();
    let mut i: usize = 0;
    while i < len
        invariant
            len == curves@.len(),
            len == old(curves)@.len(),
            i <= len,
            forall|k: int| i <= k < len ==> curves@[k] == old(curves)@[k],
            forall|k: int|
                0 <= k < i ==> (#[trigger] curves@[k]).opacity == old(curves)@[k].opacity
                    && curves@[k].plots@ == (if n <= old(curves)@[k].plots@.len() {
                    old(curves)@[k].plots@.subrange(
                        n as int,
                        old(curves)@[k].plots@.len() as int,
                    )
                } else {
                    Seq::<Vec2>::empty()
                }),
        decreases len - i,
    {
        let curve = &mut curves[i];
        curve.remove_oldest_plots(n);
        i = i + 1;
    }
}

/// Appends `p` to the plots of curve `i`, in place.
fn push_plot(curves: &mut Vec<OrbitCurve>, i: usize, p: Vec2)
    requires
        i < old(curves)@.len(),
    ensures
        final(curves)@.len() == old(curves)@.len(),
        (#[trigger] final(curves)@[i as int]).plots@ == old(curves)@[i as int].plots@.push(p),
        final(curves)@[i as int].opacity == old(curves)@[i as int].opacity,
        forall|k: int|
            0 <= k < old(curves)@.len() && k != i ==> final(curves)@[k] == #[trigger] old(
                curves,
            )@[k],
{
    let curve = &mut curves[i];
    curve.plots.push(p);
}

impl SeerSim {
    /// A fresh simulation seeded from a snapshot: every body gets a one
    /// plot curve at its center, the tasks are stripped to those that
    /// affect the world (none do), and no time lies ahead.
    pub fn seed(initial_state: State, tasks: &Tasks) -> (r: SeerSim)
        requires
            state_wf(initial_state),
            initial_state.drawables.orbit_bodies@.len() <= MAX_BODIES,
        ensures
            sim_wf(r),
            r.state.drawables.orbit_bodies == initial_state.drawables.orbit_bodies,
            r.state.origin == initial_state.origin,
            r.state.zoom == initial_state.zoom,
            r.state.screen_width == initial_state.screen_width,
            r.state.screen_height == initial_state.screen_height,
            r.state.drawables.orbit_curves@.len()
                == initial_state.drawables.orbit_bodies@.len(),
            forall|i: int|
                0 <= i < r.state.drawables.orbit_curves@.len() ==> (
                #[trigger] r.state.drawables.orbit_curves@[i]).plots@ == seq![
                    initial_state.drawables.orbit_bodies@[i].center,
                ] && r.state.drawables.orbit_curves@[i].opacity == SCALE,
            r.plots == 0,
            r.main_deltas_ahead == 0,
    {
        let mut state = initial_state;
        let n = state.drawables.orbit_bodies.len();
        let mut curves: Vec<OrbitCurve> = Vec::new();
        let mut i: usize = 0;
        while i < n
            invariant
                state == initial_state,
                state_wf(state),
                n == state.drawables.orbit_bodies@.len(),
                i <= n,
                curves@.len() == i,
                forall|k: int|
                    0 <= k < i ==> (#[trigger] curves@[k]).plots@ =~= seq![
                        state.drawables.orbit_bodies@[k].center,
                    ] && curves@[k].opacity == SCALE,
            decreases n - i,
        {
            let mut curve = OrbitCurve::new();
            curve.plots.push(state.drawables.orbit_bodies[i].center);
            curves.push(curve);
            i = i + 1;
        }
        state.drawables.orbit_curves = curves;
        SeerSim { state, tasks: tasks.world_affecting(), plots: 0, main_deltas_ahead: 0 }
    }

    /// Absorbs `drained` raw seconds of real time: whole seer steps that
    /// reality has caught up with are dropped from the front of every
    /// curve and from the plot counter, and the remainder is kept.
    pub fn reconcile(&mut self, drained: i64)
        requires
            sim_wf(*old(self)),
            0 <= drained <= TIME_CAP,
        ensures
            sim_wf(*final(self)),
            ({
                let total = old(self).main_deltas_ahead + drained;
                let dropped = total / (SEER_COMPUTE_DELTA as int);
                &&& final(self).main_deltas_ahead == total % (SEER_COMPUTE_DELTA as int)
                &&& final(self).plots == (if old(self).plots > dropped {
                    old(self).plots - dropped
                } else {
                    0
                })
                &&& final(self).state.drawables.orbit_curves@.len() == old(
                    self,
                ).state.drawables.orbit_curves@.len()
                &&& forall|i: int|
                    0 <= i < old(self).state.drawables.orbit_curves@.len() ==> (
                    #[trigger] final(self).state.drawables.orbit_curves@[i]).plots@ == ({
                        let oldp = old(self).state.drawables.orbit_curves@[i].plots@;
                        if dropped <= oldp.len() {
                            oldp.subrange(dropped, oldp.len() as int)
                        } else {
                            Seq::<Vec2>::empty()
                        }
                    })
            }),
            final(self).state.drawables.orbit_bodies == old(self).state.drawables.orbit_bodies,
            final(self).state.origin == old(self).state.origin,
            final(self).state.zoom == old(self).state.zoom,
            final(self).tasks == old(self).tasks,
    {
        let total: i64 = self.main_deltas_ahead + drained;
        let outdated: i64 = ((total as u64) / (SEER_COMPUTE_DELTA as u64)) as i64;
        proof {
            vstd::arithmetic::div_mod::lemma_fundamental_div_mod(
                total as int,
                SEER_COMPUTE_DELTA as int,
            );
            vstd::arithmetic::div_mod::lemma_mod_bound(total as int, SEER_COMPUTE_DELTA as int);
        }
        if outdated > 0 {
            self.main_deltas_ahead = total - outdated * SEER_COMPUTE_DELTA;
            let dropped: usize = outdated as usize;
            if self.plots > dropped {
                self.plots = self.plots - dropped;
            } else {
                self.plots = 0;
            }
            truncate_curves(&mut self.state.drawables.orbit_curves, dropped);
        } else {
            self.main_deltas_ahead = total;
        }
    }

    /// Whether the plot budget is exhausted; a saturated seer sleeps
    /// instead of advancing.
    pub fn budget_exhausted(&self) -> (r: bool)
        ensures
            r == (self.plots >= SEER_MAX_PLOTS),
    {
        self.plots >= SEER_MAX_PLOTS
    }

    /// Advances the simulated world one seer step and appends each
    /// body's new center to its curve.
    pub fn advance(&mut self)
        requires
            sim_wf(*old(self)),
            old(self).plots < SEER_MAX_PLOTS,
        ensures
            sim_wf(*final(self)),
            final(self).plots == old(self).plots + 1,
            final(self).main_deltas_ahead == old(self).main_deltas_ahead,
            final(self).tasks.zoom is None,
            final(self).tasks.follow is None,
            final(self).state.origin == old(self).state.origin,
            final(self).state.zoom == old(self).state.zoom,
            ({
                let b0 = old(self).state.drawables.orbit_bodies@;
                let bodies = final(self).state.drawables.orbit_bodies@;
                &&& bodies.len() == b0.len()
                &&& forall|i: int|
                    0 <= i < b0.len() ==> bodies[i] == moved_body(
                        velocity_updated_body(b0, i, SEER_COMPUTE_DELTA as int),
                        SEER_COMPUTE_DELTA as int,
                    )
                &&& final(self).state.drawables.orbit_curves@.len() == b0.len()
                &&& forall|i: int|
                    0 <= i < b0.len() ==> (
                    #[trigger] final(self).state.drawables.orbit_curves@[i]).plots@ == old(
                        self,
                    ).state.drawables.orbit_curves@[i].plots@.push(bodies[i].center)
                        && final(self).state.drawables.orbit_curves@[i].opacity == old(
                        self,
                    ).state.drawables.orbit_curves@[i].opacity
            }),
    {
        let ghost pre = *self;
        compute_state(&mut self.state, &mut self.tasks, SEER_COMPUTE_DELTA, 0);
        let n = self.state.drawables.orbit_bodies.len();
        let mut i: usize = 0;
        while i < n
            invariant
                n == self.state.drawables.orbit_bodies@.len(),
                n == pre.state.drawables.orbit_bodies@.len(),
                n == self.state.drawables.orbit_curves@.len(),
                n == pre.state.drawables.orbit_curves@.len(),
                i <= n,
                state_wf(self.state),
                self.tasks.zoom is None,
                self.tasks.follow is None,
                self.plots == pre.plots,
                self.main_deltas_ahead == pre.main_deltas_ahead,
                self.state.origin == pre.state.origin,
                self.state.zoom == pre.state.zoom,
                self.state.screen_width == pre.state.screen_width,
                self.state.screen_height == pre.state.screen_height,
                forall|k: int|
                    0 <= k < n ==> self.state.drawables.orbit_bodies@[k] == moved_body(
                        velocity_updated_body(
                            pre.state.drawables.orbit_bodies@,
                            k,
                            SEER_COMPUTE_DELTA as int,
                        ),
                        SEER_COMPUTE_DELTA as int,
                    ),
                forall|k: int|
                    0 <= k < i ==> (#[trigger] self.state.drawables.orbit_curves@[k]).plots@
                        == pre.state.drawables.orbit_curves@[k].plots@.push(
                        self.state.drawables.orbit_bodies@[k].center,
                    ) && self.state.drawables.orbit_curves@[k].opacity
                        == pre.state.drawables.orbit_curves@[k].opacity,
                forall|k: int|
                    i <= k < n ==> self.state.drawables.orbit_curves@[k]
                        == pre.state.drawables.orbit_curves@[k],
                forall|k: int|
                    0 <= k < n ==> curve_in_world(#[trigger] self.state.drawables.orbit_curves@[k]),
            decreases n - i,
        {
            let center = self.state.drawables.orbit_bodies[i].center;
            let ghost prev = self.state.drawables.orbit_curves@;
            push_plot(&mut self.state.drawables.orbit_curves, i, center);
            proof {
                assert forall|k: int|
                    0 <= k < n implies curve_in_world(
                    #[trigger] self.state.drawables.orbit_curves@[k],
                ) by {
                    let c = self.state.drawables.orbit_curves@[k];
                    if k == i as int {
                        assert(c.plots@ == prev[k].plots@.push(center));
                        assert(curve_in_world(prev[k]));
                        assert forall|j: int| 0 <= j < c.plots@.len() implies in_world(
                            #[trigger] c.plots@[j],
                        ) by {
                            if j < c.plots@.len() - 1 {
                                assert(c.plots@[j] == prev[k].plots@[j]);
                            } else {
                                assert(c.plots@[j] == center);
                            }
                        }
                    } else {
                        assert(c == prev[k]);
                    }
                }
                assert forall|k: int|
                    0 <= k <= i implies ((#[trigger] self.state.drawables.orbit_curves@[k]).plots@
                    == pre.state.drawables.orbit_curves@[k].plots@.push(
                    self.state.drawables.orbit_bodies@[k].center,
                ) && self.state.drawables.orbit_curves@[k].opacity
                    == pre.state.drawables.orbit_curves@[k].opacity) by {
                    if k == i as int {
                        assert(prev[k] == pre.state.drawables.orbit_curves@[k]);
                        assert(self.state.drawables.orbit_curves@[k].plots@ == prev[k].plots@.push(
                            center,
                        ));
                    } else {
                        assert(self.state.drawables.orbit_curves@[k] == prev[k]);
                    }
                }
            }
            i = i + 1;
        }
        self.plots = self.plots + 1;
    }
}

} // verus!

verus! {

/// At most this many queued deltas are absorbed per drain; leftovers
/// stay queued for the next iteration.
pub const DRAIN_BATCH: usize = 100_000;

/// A running drain total with one more received delta folded in:
/// negative deltas are discarded (time never runs backward), and the
/// total saturates at the largest time the simulation handles.
pub open spec fn absorbed_delta(sum: int, d: int) -> int {
    if d > 0 {
        if sum + d > TIME_CAP {
            TIME_CAP as int
        } else {
            sum + d
        }
    } else {
        sum
    }
}

/// Folds one received delta into the running drain total.
pub fn absorb_delta(sum: i64, d: i64) -> (r: i64)
    requires
        0 <= sum <= TIME_CAP,
    ensures
        r == absorbed_delta(sum as int, d as int),
        0 <= r <= TIME_CAP,
{
    if d > 0 {
        if d > TIME_CAP - sum {
            TIME_CAP
        } else {
            sum + d
        }
    } else {
        sum
    }
}

/// Drains the delta channel without blocking: every queued delta is
/// folded into the total by [`absorb_delta`]. What arrives depends on
/// the concurrent sender, so only the fold step and the resulting
/// bounds can be promised here.
pub fn drain_deltas(rx: &Receiver<i64>) -> (r: i64)
    ensures
        0 <= r <= TIME_CAP,
{
    let mut sum: i64 = 0;
    let mut budget: usize = DRAIN_BATCH;
    let mut done = false;
    while budget > 0 && !done
        invariant
            0 <= sum <= TIME_CAP,
        decreases budget,
    {
        match try_recv_delta(rx) {
            Some(d) => {
                sum = absorb_delta(sum, d);
            },
            None => {
                done = true;
            },
        }
        budget = budget - 1;
    }
    sum
}

/// Relies on rayon's indexed parallel iterator over a range with map
/// and collect, in index order; the closure only calls the verified
/// [`OrbitCurve::with_minimum_plot_distance`]. Reducing dense curves is
/// the seer's heaviest work, so it runs data-parallel on a thread of
/// its own.
#[verifier::external_body]
pub fn par_filter_curves(curves: &Vec<OrbitCurve>, min_plot_distance: i64) -> (r: Vec<OrbitCurve>)
    requires
        forall|i: int|
            0 <= i < curves@.len() ==> (#[trigger] curves@[i]).plots@.len() >= 1 && curve_in_world(
                curves@[i],
            ),
    ensures
        r@.len() == curves@.len(),
        forall|i: int|
            0 <= i < r@.len() ==> {
                &&& (#[trigger] r@[i]).opacity == curves@[i].opacity
                &&& r@[i].plots@.len() >= 1
                &&& r@[i].plots@[0] == curves@[i].plots@[0]
                &&& curve_in_world(r@[i])
                &&& reduced_rel(
                    curves@[i].plots@,
                    r@[i].plots@,
                    reduce_indices(curves@[i].plots@, sq(min_plot_distance as int)),
                    sq(min_plot_distance as int),
                )
            },
{
    (0..curves.len())
        .into_par_iter()
        .map(|i| curves[i].with_minimum_plot_distance(min_plot_distance))
        .collect()
}

/// The zoom level whose plot spacing the supervisor wants: the zoom the
/// view is heading for, but never finer than the current zoom warrants.
pub open spec fn supervise_zoom(t: Tasks, s: State) -> int {
    let z = current_target_zoom(t, s);
    if z > s.zoom {
        s.zoom as int
    } else {
        z
    }
}

/// One supervision pass. Without an apprentice it decides whether one
/// should be spawned: when a body has drifted further than the fault
/// tolerance from its curve's head, or when the zoom level calls for a
/// different plot spacing. With an apprentice, and live curves to judge
/// by, it promotes the apprentice as soon as its projection has
/// practically caught up with its master's, dropping the master.
///
/// The apprentice slot is a single option that this pass only ever
/// empties; a new apprentice enters only through the caller, when this
/// pass asks for one, so there are never two apprentices.
pub fn supervise(state: &State, tasks: &Tasks, seer: &mut Seer, apprentice: &mut Option<Seer>) -> (
    spawn: bool)
    requires
        state_wf(*state),
        tasks_wf(*tasks),
        0 <= old(seer).min_plot_distance <= VAL_CAP,
        (match *old(apprentice) {
            Option::Some(a) => 0 <= a.min_plot_distance <= VAL_CAP,
            Option::None => true,
        }),
    ensures
        spawn == ((*old(apprentice)) is None && (mismatch_spec(
            state.drawables,
            SEER_FAULT_TOLERANCE as int,
        ) || old(seer).min_plot_distance != mpd_at_zoom(supervise_zoom(*tasks, *state)))),
        (*old(apprentice)) is None ==> *final(seer) == *old(seer) && (*final(apprentice)) is None,
        (*final(apprentice)) is Some ==> (*old(apprentice)) is Some,
        state.drawables.orbit_curves@.len() == 0 && (*old(apprentice)) is Some ==> *final(apprentice)
            == *old(apprentice) && *final(seer) == *old(seer),
        0 <= final(seer).min_plot_distance <= VAL_CAP,
        (match *final(apprentice) {
            Option::Some(a) => 0 <= a.min_plot_distance <= VAL_CAP,
            Option::None => true,
        }),
        final(seer).min_plot_distance == old(seer).min_plot_distance || (match *old(apprentice) {
            Option::Some(a) => final(seer).min_plot_distance == a.min_plot_distance,
            Option::None => false,
        }),
{
    if apprentice.is_none() {
        let mut zoom = match &tasks.zoom {
            Some(z) => z.zoom_destination(),
            None => state.zoom,
        };
        if zoom > state.zoom {
            zoom = state.zoom;
        }
        if state.drawables.curve_body_mismatch(SEER_FAULT_TOLERANCE) {
            return true;
        }
        if seer.min_plot_distance != Seer::min_plot_distance_at_zoom(zoom) {
            return true;
        }
        false
    } else {
        if let Some(mut trained) = apprentice.take() {
            if state.drawables.orbit_curves.len() > 0 {
                if trained.is_approx_as_good_as(seer) {
                    *seer = trained;
                } else {
                    *apprentice = Some(trained);
                }
            } else {
                *apprentice = Some(trained);
            }
        }
        false
    }
}

} // verus!
