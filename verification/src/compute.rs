//! One physics step of the n-body world.
//!
//! Every body's velocity gains the gravitational pull of every other
//! body, the pending user tasks are applied, and every body's position
//! advances by its velocity. The arithmetic is staged fixed-point
//! integer math, so one step has a single exact meaning, stated by
//! [`stepped`]; the single-threaded and the data-parallel path both
//! satisfy it, which makes their outputs identical.
//!
//! There is no softening: bodies that pass very close produce huge,
//! clamped velocities, and two bodies at the very same point exert no
//! force on each other (the distance's square root is zero).

use vstd::prelude::*;
use rayon::iter::IntoParallelIterator;
use rayon::iter::ParallelIterator;
use crate::fixed::Vec2;
use crate::fixed::abs_spec;
use crate::fixed::clamp_spec;
use crate::fixed::dist2;
use crate::fixed::dist2_spec;
use crate::fixed::isqrt;
use crate::fixed::isqrt_spec;
use crate::fixed::lemma_isqrt_spec_char;
use crate::fixed::lemma_mul_div_le;
use crate::fixed::lemma_sq_monotone;
use crate::fixed::lemma_sq_nonneg;
use crate::fixed::sq;
use crate::fixed::DT_CAP;
use crate::fixed::POS_CAP;
use crate::fixed::SCALE;
use crate::fixed::TIME_CAP;
use crate::input::Tasks;
use crate::input::InputEvent;
use crate::input::KeyCode;
use crate::input::UserKeys;
use crate::input::UserMouse;
use crate::input::event_wf;
use crate::input::keys_handle_rel;
use crate::input::mouse_handle_rel;
use crate::input::applied_state;
use crate::input::tasks_update_rel;
use crate::input::tasks_wf;
use crate::orbitbody::OrbitBody;
use crate::orbitbody::body_wf;
use crate::orbitbody::moved_body;
use crate::orbitcurve::OrbitCurve;
use crate::orbitcurve::curve_in_world;
use crate::state::State;
use crate::state::state_wf;

verus! {

/// Gravitational constant, in raw units.
pub const G_FX: i64 = 10_000_000;

/// Above this body count the data-parallel step is used.
pub const PARALLEL_THRESHOLD: usize = 64;

/// Largest body count one step accepts; it bounds the accumulated pull.
pub const MAX_BODIES: usize = 1_000_000;

/// Largest magnitude one pair can add to a velocity in one step.
pub const DV_CAP: i128 = 100_000_000_000_000_000_000_000_000_000;

/// One axis of the velocity change body `j` causes: the staged integer
/// evaluation of `G * m_j * dx * dt / dist^3`, each division truncated.
pub open spec fn dv_axis(m: int, dx: int, rt: int, dt: int) -> int {
    let q1 = (G_FX * m) / rt;
    let q2 = (q1 * abs_spec(dx)) / rt;
    let acc = (q2 * SCALE) / rt;
    let mag = (acc * dt) / (SCALE as int);
    if dx < 0 {
        -mag
    } else {
        mag
    }
}

/// The velocity change `bj` causes on `bi` over `dt`, both axes;
/// coincident bodies exert no pull.
pub open spec fn pair_dv(bi: OrbitBody, bj: OrbitBody, dt: int) -> (int, int) {
    let d2 = dist2_spec(bi.center, bj.center);
    let rt = isqrt_spec(d2);
    if rt == 0 {
        (0, 0)
    } else {
        (
            dv_axis(bj.mass as int, bj.center.x - bi.center.x, rt, dt),
            dv_axis(bj.mass as int, bj.center.y - bi.center.y, rt, dt),
        )
    }
}

/// The pull of the first `j` bodies on body `i`, itself excluded.
pub open spec fn dv_sums(bodies: Seq<OrbitBody>, i: int, dt: int, j: int) -> (int, int)
    decreases j,
{
    if j <= 0 {
        (0, 0)
    } else {
        let prev = dv_sums(bodies, i, dt, j - 1);
        if j - 1 == i {
            prev
        } else {
            let d = pair_dv(bodies[i], bodies[j - 1], dt);
            (prev.0 + d.0, prev.1 + d.1)
        }
    }
}

/// Body `i` with its velocity updated by the pull of all other bodies,
/// clamped into the world box.
pub open spec fn velocity_updated_body(bodies: Seq<OrbitBody>, i: int, dt: int) -> OrbitBody {
    let s = dv_sums(bodies, i, dt, bodies.len() as int);
    let b = bodies[i];
    OrbitBody {
        velocity: Vec2 {
            x: clamp_spec(b.velocity.x + s.0, -POS_CAP as int, POS_CAP as int) as i64,
            y: clamp_spec(b.velocity.y + s.1, -POS_CAP as int, POS_CAP as int) as i64,
        },
        ..b
    }
}

/// The whole step relation: every body's velocity gains the pull of the
/// others and its position advances, the pending tasks drive zoom and
/// origin, and everything else is untouched.
pub open spec fn stepped(s0: State, t0: Tasks, dt: int, now: int, s1: State, t1: Tasks) -> bool {
    let b0 = s0.drawables.orbit_bodies@;
    &&& s1.drawables.orbit_bodies@.len() == b0.len()
    &&& forall|i: int|
        0 <= i < b0.len() ==> s1.drawables.orbit_bodies@[i] == moved_body(
            velocity_updated_body(b0, i, dt),
            dt,
        )
    &&& s1.origin == applied_state(t0, s0, now).origin
    &&& s1.zoom == applied_state(t0, s0, now).zoom
    &&& s1.drawables.orbit_curves == s0.drawables.orbit_curves
    &&& s1.screen_width == s0.screen_width
    &&& s1.screen_height == s0.screen_height
    &&& s1.user_quit == s0.user_quit
    &&& s1.pause == s0.pause
    &&& s1.debug_info == s0.debug_info
    &&& tasks_update_rel(t0, s0, now, t1)
}

/// The step relation pins its result: any two states and task sets it
/// admits for the same input agree on the bodies, the view and the
/// surviving follow target, so the single-threaded and the parallel
/// step produce identical output.
pub proof fn lemma_step_deterministic(
    s0: State,
    t0: Tasks,
    dt: int,
    now: int,
    sa: State,
    ta: Tasks,
    sb: State,
    tb: Tasks,
)
    requires
        stepped(s0, t0, dt, now, sa, ta),
        stepped(s0, t0, dt, now, sb, tb),
    ensures
        sa.drawables.orbit_bodies@ =~= sb.drawables.orbit_bodies@,
        sa.origin == sb.origin,
        sa.zoom == sb.zoom,
        ta.follow == tb.follow,
{
}

/// A body without mass exerts no pull: both axes of its contribution
/// are zero whatever the distance, so holding a massless probe in a
/// field never changes the field's momentum.
pub proof fn lemma_massless_body_pulls_nothing(bi: OrbitBody, bj: OrbitBody, dt: int)
    requires
        bj.mass == 0,
    ensures
        pair_dv(bi, bj, dt) == (0int, 0int),
{
    let d2 = dist2_spec(bi.center, bj.center);
    let rt = isqrt_spec(d2);
    if rt != 0 {
        lemma_sq_nonneg(bj.center.x - bi.center.x as int);
        lemma_sq_nonneg(bj.center.y - bi.center.y as int);
        lemma_isqrt_spec_char(d2);
        assert((G_FX * 0) / rt == 0) by (nonlinear_arith)
            requires
                rt >= 1,
        ;
        assert((0 * abs_spec(bj.center.x - bi.center.x as int)) / rt == 0) by (nonlinear_arith)
            requires
                rt >= 1,
        ;
        assert((0 * abs_spec(bj.center.y - bi.center.y as int)) / rt == 0) by (nonlinear_arith)
            requires
                rt >= 1,
        ;
        assert((0 * SCALE) / rt == 0) by (nonlinear_arith)
            requires
                rt >= 1,
        ;
        assert((0 * dt) / (SCALE as int) == 0) by (nonlinear_arith);
    }
}

/// The velocity change `bj` causes on `bi`, executably.
fn pair_dv_exec(bi: &OrbitBody, bj: &OrbitBody, dt: i64) -> (r: (i128, i128))
    requires
        body_wf(*bi),
        body_wf(*bj),
        0 <= dt <= DT_CAP,
    ensures
        (r.0 as int, r.1 as int) == pair_dv(*bi, *bj, dt as int),
        -DV_CAP <= r.0 <= DV_CAP,
        -DV_CAP <= r.1 <= DV_CAP,
{
    let d2 = dist2(&bi.center, &bj.center);
    let rt64 = isqrt(d2);
    if rt64 == 0 {
        return (0, 0);
    }
    let rt: u128 = rt64 as u128;
    let dx: i64 = bj.center.x - bi.center.x;
    let dy: i64 = bj.center.y - bi.center.y;
    let dxa: u128 = if dx < 0 {
        (-(dx as i128)) as u128
    } else {
        dx as u128
    };
    let dya: u128 = if dy < 0 {
        (-(dy as i128)) as u128
    } else {
        dy as u128
    };
    proof {
        lemma_sq_nonneg(dx as int);
        lemma_sq_nonneg(dy as int);
        assert(sq(dxa as int) == sq(dx as int)) by (nonlinear_arith)
            requires
                dxa == abs_spec(dx as int),
        ;
        assert(sq(dya as int) == sq(dy as int)) by (nonlinear_arith)
            requires
                dya == abs_spec(dy as int),
        ;
        if dxa > rt {
            lemma_sq_monotone(rt as int + 1, dxa as int);
            assert(false);
        }
        if dya > rt {
            lemma_sq_monotone(rt as int + 1, dya as int);
            assert(false);
        }
    }
    let num1: u128 = (G_FX as u128) * (bj.mass as u128);
    let q1: u128 = num1 / rt;
    proof {
        assert(num1 <= 100_000_000_000_000_000_000u128) by (nonlinear_arith)
            requires
                num1 == 10_000_000 * (bj.mass as int),
                0 <= bj.mass <= 10_000_000_000_000,
        ;
        assert(q1 <= num1) by (nonlinear_arith)
            requires
                rt >= 1,
                q1 == num1 / rt,
        ;
        assert(q1 <= 100_000_000_000_000_000_000u128);
        lemma_mul_div_le(q1 as int, dxa as int, rt as int);
        lemma_mul_div_le(q1 as int, dya as int, rt as int);
        assert(q1 * dxa <= 100_000_000_000_000_000_000u128 * 400_000_000_000_000u128)
            by (nonlinear_arith)
            requires
                q1 <= 100_000_000_000_000_000_000u128,
                dxa <= 400_000_000_000_000u128,
        ;
        assert(q1 * dya <= 100_000_000_000_000_000_000u128 * 400_000_000_000_000u128)
            by (nonlinear_arith)
            requires
                q1 <= 100_000_000_000_000_000_000u128,
                dya <= 400_000_000_000_000u128,
        ;
    }
    let q2x: u128 = (q1 * dxa) / rt;
    let q2y: u128 = (q1 * dya) / rt;
    proof {
        assert(q2x * (SCALE as int) / (rt as int) <= q2x * (SCALE as int)) by (nonlinear_arith)
            requires
                rt >= 1,
                q2x * (SCALE as int) >= 0,
        ;
        assert(q2y * (SCALE as int) / (rt as int) <= q2y * (SCALE as int)) by (nonlinear_arith)
            requires
                rt >= 1,
                q2y * (SCALE as int) >= 0,
        ;
    }
    let accx: u128 = (q2x * (SCALE as u128)) / rt;
    let accy: u128 = (q2y * (SCALE as u128)) / rt;
    proof {
        lemma_mul_div_le(accx as int, dt as int, SCALE as int);
        lemma_mul_div_le(accy as int, dt as int, SCALE as int);
    }
    let magx: u128 = (accx * (dt as u128)) / (SCALE as u128);
    let magy: u128 = (accy * (dt as u128)) / (SCALE as u128);
    let sx: i128 = if dx < 0 {
        -(magx as i128)
    } else {
        magx as i128
    };
    let sy: i128 = if dy < 0 {
        -(magy as i128)
    } else {
        magy as i128
    };
    (sx, sy)
}

/// Body `i` with the pull of every other body folded into its velocity.
pub fn body_with_updated_velocity(bodies: &Vec<OrbitBody>, i: usize, dt: i64) -> (r: OrbitBody)
    requires
        forall|k: int| 0 <= k < bodies@.len() ==> body_wf(#[trigger] bodies@[k]),
        i < bodies@.len(),
        bodies@.len() <= MAX_BODIES,
        0 <= dt <= DT_CAP,
    ensures
        r == velocity_updated_body(bodies@, i as int, dt as int),
        body_wf(r),
{
    let n = bodies.len();
    let mut accx: i128 = 0;
    let mut accy: i128 = 0;
    let mut j: usize = 0;
    while j < n
        invariant
            n == bodies@.len(),
            n <= MAX_BODIES,
            forall|k: int| 0 <= k < bodies@.len() ==> body_wf(#[trigger] bodies@[k]),
            i < n,
            0 <= dt <= DT_CAP,
            j <= n,
            -(j as int) * DV_CAP <= accx <= (j as int) * DV_CAP,
            -(j as int) * DV_CAP <= accy <= (j as int) * DV_CAP,
            (accx as int, accy as int) == dv_sums(bodies@, i as int, dt as int, j as int),
        decreases n - j,
    {
        proof {
            assert((j as int + 1) * DV_CAP <= 1_000_001 * DV_CAP && (j as int) * DV_CAP <= 1_000_000
                * DV_CAP) by (nonlinear_arith)
                requires
                    0 <= j < 1_000_001,
            ;
        }
        if j != i {
            let (dvx, dvy) = pair_dv_exec(&bodies[i], &bodies[j], dt);
            accx = accx + dvx;
            accy = accy + dvy;
        }
        j = j + 1;
        proof {
            assert((j as int - 1) * DV_CAP + DV_CAP == (j as int) * DV_CAP) by (nonlinear_arith);
            assert(-((j as int)) * DV_CAP == -((j as int) * DV_CAP)) by (nonlinear_arith);
        }
    }
    let b = &bodies[i];
    proof {
        assert((n as int) * DV_CAP <= 1_000_000 * DV_CAP) by (nonlinear_arith)
            requires
                0 <= n <= 1_000_000,
        ;
        assert(-((n as int)) * DV_CAP == -((n as int) * DV_CAP)) by (nonlinear_arith);
    }
    let rawx: i128 = (b.velocity.x as i128) + accx;
    let rawy: i128 = (b.velocity.y as i128) + accy;
    let vx: i64 = if rawx < -(POS_CAP as i128) {
        -POS_CAP
    } else if rawx > POS_CAP as i128 {
        POS_CAP
    } else {
        rawx as i64
    };
    let vy: i64 = if rawy < -(POS_CAP as i128) {
        -POS_CAP
    } else if rawy > POS_CAP as i128 {
        POS_CAP
    } else {
        rawy as i64
    };
    OrbitBody { velocity: Vec2 { x: vx, y: vy }, ..*b }
}

} // verus!

verus! {

/// Scanning for a body id gives the same index in any two body lists
/// that agree on ids.
proof fn lemma_find_body_congruent(b1: Seq<OrbitBody>, b2: Seq<OrbitBody>, id: u128, i: int)
    requires
        b1.len() == b2.len(),
        forall|k: int| 0 <= k < b1.len() ==> (#[trigger] b1[k]).id == b2[k].id,
    ensures
        crate::input::find_body_from(b1, id, i) == crate::input::find_body_from(b2, id, i),
    decreases b1.len() - i,
{
    if 0 <= i < b1.len() {
        lemma_find_body_congruent(b1, b2, id, i + 1);
    }
}

/// A found index lies within the list and carries the id looked for.
proof fn lemma_find_body_in_bounds(bodies: Seq<OrbitBody>, id: u128, i: int)
    requires
        i >= 0,
    ensures
        (match crate::input::find_body_from(bodies, id, i) {
            Option::Some(j) => i <= j < bodies.len() && bodies[j].id == id,
            Option::None => true,
        }),
    decreases bodies.len() - i,
{
    if 0 <= i < bodies.len() {
        lemma_find_body_in_bounds(bodies, id, i + 1);
    }
}

/// Task application reads only body ids and centers, so two states that
/// agree on those (and on the view) see the same application.
proof fn lemma_applied_congruent(t: Tasks, s1: State, s2: State, now: int, t1: Tasks)
    requires
        s1.drawables.orbit_bodies@.len() == s2.drawables.orbit_bodies@.len(),
        forall|k: int|
            0 <= k < s1.drawables.orbit_bodies@.len() ==> (#[trigger] s1.drawables.orbit_bodies@[k]).id
                == s2.drawables.orbit_bodies@[k].id && s1.drawables.orbit_bodies@[k].center
                == s2.drawables.orbit_bodies@[k].center,
        s1.origin == s2.origin,
        s1.zoom == s2.zoom,
        tasks_update_rel(t, s1, now, t1),
    ensures
        applied_state(t, s1, now).origin == applied_state(t, s2, now).origin,
        applied_state(t, s1, now).zoom == applied_state(t, s2, now).zoom,
        tasks_update_rel(t, s2, now, t1),
{
    if let Option::Some(id) = t.follow {
        lemma_find_body_congruent(
            s1.drawables.orbit_bodies@,
            s2.drawables.orbit_bodies@,
            id,
            0,
        );
        lemma_find_body_in_bounds(s1.drawables.orbit_bodies@, id, 0);
    }
}

/// Every body advanced one position step, in place.
fn move_bodies(bodies: &mut Vec<OrbitBody>, dt: i64)
    requires
        forall|k: int| 0 <= k < old(bodies)@.len() ==> body_wf(#[trigger] old(bodies)@[k]),
        0 <= dt <= DT_CAP,
    ensures
        final(bodies)@.len() == old(bodies)@.len(),
        forall|k: int|
            0 <= k < old(bodies)@.len() ==> final(bodies)@[k] == moved_body(
                #[trigger] old(bodies)@[k],
                dt as int,
            ),
        forall|k: int| 0 <= k < final(bodies)@.len() ==> body_wf(#[trigger] final(bodies)@[k]),
{
    let n = bodies.len();
    let mut i: usize = 0;
    while i < n
        invariant
            n == bodies@.len(),
            n == old(bodies)@.len(),
            i <= n,
            0 <= dt <= DT_CAP,
            forall|k: int| i <= k < n ==> bodies@[k] == old(bodies)@[k],
            forall|k: int| 0 <= k < old(bodies)@.len() ==> body_wf(#[trigger] old(bodies)@[k]),
            forall|k: int|
                0 <= k < i ==> bodies@[k] == moved_body(#[trigger] old(bodies)@[k], dt as int),
            forall|k: int| 0 <= k < i ==> body_wf(#[trigger] bodies@[k]),
        decreases n - i,
    {
        let mut b = bodies[i];
        proof {
            assert(bodies@[i as int] == old(bodies)@[i as int]);
            assert(body_wf(old(bodies)@[i as int]));
        }
        b.update(dt);
        bodies.set(i, b);
        i = i + 1;
    }
}

/// Relies on rayon's indexed parallel iterator over a range with map
/// and collect: the closure runs once per index and the results are
/// collected in index order. The closure only calls the verified
/// [`body_with_updated_velocity`].
#[verifier::external_body]
fn par_velocity_phase(bodies: &Vec<OrbitBody>, dt: i64) -> (r: Vec<OrbitBody>)
    requires
        forall|k: int| 0 <= k < bodies@.len() ==> body_wf(#[trigger] bodies@[k]),
        bodies@.len() <= MAX_BODIES,
        0 <= dt <= DT_CAP,
    ensures
        r@.len() == bodies@.len(),
        forall|i: int|
            0 <= i < r@.len() ==> r@[i] == velocity_updated_body(bodies@, i, dt as int),
{
    (0..bodies.len()).into_par_iter().map(|i| body_with_updated_velocity(bodies, i, dt)).collect()
}

/// Relies on rayon's indexed parallel iterator over a range with map
/// and collect, in index order; the closure only calls the verified
/// [`OrbitBody::update`].
#[verifier::external_body]
fn par_position_phase(bodies: &Vec<OrbitBody>, dt: i64) -> (r: Vec<OrbitBody>)
    requires
        forall|k: int| 0 <= k < bodies@.len() ==> body_wf(#[trigger] bodies@[k]),
        0 <= dt <= DT_CAP,
    ensures
        r@.len() == bodies@.len(),
        forall|i: int| 0 <= i < r@.len() ==> r@[i] == moved_body(bodies@[i], dt as int),
{
    (0..bodies.len())
        .into_par_iter()
        .map(|i| {
            let mut b = bodies[i];
            b.update(dt);
            b
        })
        .collect()
}

/// One step, single-threaded: velocities, then tasks, then positions.
pub fn compute_state_single(state: &mut State, tasks: &mut Tasks, delta: i64, now: i64)
    requires
        state_wf(*old(state)),
        tasks_wf(*old(tasks)),
        0 <= delta <= DT_CAP,
        -TIME_CAP <= now <= TIME_CAP,
        old(state).drawables.orbit_bodies@.len() <= MAX_BODIES,
    ensures
        stepped(*old(state), *old(tasks), delta as int, now as int, *final(state), *final(tasks)),
        state_wf(*final(state)),
        tasks_wf(*final(tasks)),
{
    let ghost s0 = *state;
    let ghost t0 = *tasks;
    let n = state.drawables.orbit_bodies.len();
    let mut newv: Vec<OrbitBody> = Vec::new();
    let mut i: usize = 0;
    while i < n
        invariant
            *state == s0,
            state_wf(s0),
            n == state.drawables.orbit_bodies@.len(),
            n <= MAX_BODIES,
            0 <= delta <= DT_CAP,
            i <= n,
            newv@.len() == i,
            forall|k: int|
                0 <= k < i ==> newv@[k] == velocity_updated_body(
                    s0.drawables.orbit_bodies@,
                    k,
                    delta as int,
                ),
            forall|k: int| 0 <= k < i ==> body_wf(#[trigger] newv@[k]),
        decreases n - i,
    {
        newv.push(body_with_updated_velocity(&state.drawables.orbit_bodies, i, delta));
        i = i + 1;
    }
    state.drawables.orbit_bodies = newv;
    let ghost smid = *state;
    tasks.update(state, now);
    proof {
        lemma_applied_congruent(t0, smid, s0, now as int, *tasks);
    }
    move_bodies(&mut state.drawables.orbit_bodies, delta);
    proof {
        let b0 = s0.drawables.orbit_bodies@;
        assert(state.drawables.orbit_bodies@.len() == b0.len());
        assert forall|k: int| 0 <= k < b0.len() implies state.drawables.orbit_bodies@[k]
            == moved_body(velocity_updated_body(b0, k, delta as int), delta as int) by {
            assert(smid.drawables.orbit_bodies@[k] == velocity_updated_body(b0, k, delta as int));
        }
        assert(state.origin == applied_state(t0, s0, now as int).origin);
        assert(state.zoom == applied_state(t0, s0, now as int).zoom);
        assert(state.drawables.orbit_curves == s0.drawables.orbit_curves);
        assert(tasks_update_rel(t0, s0, now as int, *tasks));
    }
}

/// One step, data-parallel: the same relation, computed with rayon.
pub fn compute_state_par(state: &mut State, tasks: &mut Tasks, delta: i64, now: i64)
    requires
        state_wf(*old(state)),
        tasks_wf(*old(tasks)),
        0 <= delta <= DT_CAP,
        -TIME_CAP <= now <= TIME_CAP,
        old(state).drawables.orbit_bodies@.len() <= MAX_BODIES,
    ensures
        stepped(*old(state), *old(tasks), delta as int, now as int, *final(state), *final(tasks)),
        state_wf(*final(state)),
        tasks_wf(*final(tasks)),
{
    let ghost s0 = *state;
    let ghost t0 = *tasks;
    let newv = par_velocity_phase(&state.drawables.orbit_bodies, delta);
    proof {
        assert forall|k: int| 0 <= k < newv@.len() implies body_wf(#[trigger] newv@[k]) by {
            assert(newv@[k] == velocity_updated_body(s0.drawables.orbit_bodies@, k, delta as int));
        }
    }
    state.drawables.orbit_bodies = newv;
    let ghost smid = *state;
    tasks.update(state, now);
    proof {
        lemma_applied_congruent(t0, smid, s0, now as int, *tasks);
    }
    let moved = par_position_phase(&state.drawables.orbit_bodies, delta);
    proof {
        assert forall|k: int| 0 <= k < moved@.len() implies body_wf(#[trigger] moved@[k]) by {
            assert(moved@[k] == moved_body(smid.drawables.orbit_bodies@[k], delta as int));
        }
    }
    state.drawables.orbit_bodies = moved;
}

/// One step: worlds small enough go single-threaded, larger ones go
/// data-parallel; both meet the same step relation.
pub fn compute_state(state: &mut State, tasks: &mut Tasks, delta: i64, now: i64)
    requires
        state_wf(*old(state)),
        tasks_wf(*old(tasks)),
        0 <= delta <= DT_CAP,
        -TIME_CAP <= now <= TIME_CAP,
        old(state).drawables.orbit_bodies@.len() <= MAX_BODIES,
    ensures
        stepped(*old(state), *old(tasks), delta as int, now as int, *final(state), *final(tasks)),
        state_wf(*final(state)),
        tasks_wf(*final(tasks)),
{
    if state.drawables.orbit_bodies.len() > PARALLEL_THRESHOLD {
        compute_state_par(state, tasks, delta, now)
    } else {
        compute_state_single(state, tasks, delta, now)
    }
}

/// The render opacity of projected curves at a zoom: fully opaque up to
/// ten world units, fading linearly to fully transparent at twenty.
pub open spec fn opacity_at_zoom(zoom: int) -> int {
    if zoom > 20 * SCALE {
        0
    } else if zoom > 10 * SCALE {
        SCALE - (zoom - 10 * SCALE) / 10
    } else {
        SCALE as int
    }
}

/// A fresh copy of a plot list.
fn copy_plots(src: &Vec<Vec2>) -> (r: Vec<Vec2>)
    ensures
        r@ == src@,
{
    let n = src.len();
    let mut r: Vec<Vec2> = Vec::new();
    let mut i: usize = 0;
    while i < n
        invariant
            n == src@.len(),
            i <= n,
            r@ =~= src@.subrange(0, i as int),
        decreases n - i,
    {
        r.push(src[i]);
        i = i + 1;
    }
    proof {
        assert(r@ =~= src@);
    }
    r
}

/// Folds the seer's latest projected curves into the state, fading them
/// out as the view zooms away.
pub fn handle_seer_projections(state: &mut State, curves: &Vec<OrbitCurve>)
    requires
        state_wf(*old(state)),
        forall|i: int| 0 <= i < curves@.len() ==> curve_in_world(#[trigger] curves@[i]),
    ensures
        final(state).drawables.orbit_curves@.len() == curves@.len(),
        forall|i: int|
            0 <= i < curves@.len() ==> (#[trigger] final(state).drawables.orbit_curves@[i]).plots@
                == curves@[i].plots@ && final(state).drawables.orbit_curves@[i].opacity
                == opacity_at_zoom(old(state).zoom as int),
        final(state).drawables.orbit_bodies == old(state).drawables.orbit_bodies,
        final(state).origin == old(state).origin,
        final(state).zoom == old(state).zoom,
        final(state).screen_width == old(state).screen_width,
        final(state).screen_height == old(state).screen_height,
        final(state).user_quit == old(state).user_quit,
        final(state).pause == old(state).pause,
        final(state).debug_info == old(state).debug_info,
        state_wf(*final(state)),
{
    let opacity: i64 = if state.zoom > 20 * SCALE {
        0
    } else if state.zoom > 10 * SCALE {
        SCALE - (((state.zoom - 10 * SCALE) as u64) / 10) as i64
    } else {
        SCALE
    };
    let n = curves.len();
    let mut out: Vec<OrbitCurve> = Vec::new();
    let mut i: usize = 0;
    while i < n
        invariant
            state_wf(*state),
            *state == *old(state),
            opacity == opacity_at_zoom(state.zoom as int),
            n == curves@.len(),
            forall|k: int| 0 <= k < curves@.len() ==> curve_in_world(#[trigger] curves@[k]),
            i <= n,
            out@.len() == i,
            forall|k: int|
                0 <= k < i ==> (#[trigger] out@[k]).plots@ == curves@[k].plots@ && out@[k].opacity
                    == opacity,
            forall|k: int| 0 <= k < i ==> curve_in_world(#[trigger] out@[k]),
        decreases n - i,
    {
        let plots = copy_plots(&curves[i].plots);
        out.push(OrbitCurve { plots, opacity });
        i = i + 1;
    }
    state.drawables.orbit_curves = out;
}

} // verus!

verus! {

/// Target compute steps per second.
pub const DESIRED_CPS: u32 = 1080;

/// Target time per step: one second over the target cadence, in raw
/// seconds (nanoseconds).
pub const DESIRED_DELTA: i64 = 925_925;

/// Whether an event asks the program to quit.
pub open spec fn is_quit_event(e: InputEvent) -> bool {
    match e {
        InputEvent::Close => true,
        InputEvent::KeyDown { key } => key == KeyCode::Escape,
        _ => false,
    }
}

/// The state with the quit flag raised when the event asks for it.
pub open spec fn quit_applied(s0: State, e: InputEvent) -> State {
    if is_quit_event(e) {
        State { user_quit: true, ..s0 }
    } else {
        s0
    }
}

/// The exact effect of one event on the loop's input state: the quit
/// flag is raised first when the event asks for it, then the pointer
/// handler runs, then the keyboard handler.
pub open spec fn event_step_rel(
    m0: UserMouse,
    s0: State,
    t0: Tasks,
    e: InputEvent,
    now: int,
    m1: UserMouse,
    s1: State,
    t1: Tasks,
) -> bool {
    exists|sm: State, tm: Tasks|
        #[trigger] mouse_handle_rel(m0, quit_applied(s0, e), t0, e, now, m1, sm, tm)
            && keys_handle_rel(
            sm,
            tm,
            e,
            now,
            s1,
            t1,
        )
}

/// The exact effect of a whole batch of events: the left fold of
/// [`event_step_rel`] over the list, oldest event first.
pub open spec fn events_fold_rel(
    m0: UserMouse,
    s0: State,
    t0: Tasks,
    events: Seq<InputEvent>,
    now: int,
    m1: UserMouse,
    s1: State,
    t1: Tasks,
) -> bool
    decreases events.len(),
{
    if events.len() <= 0 {
        m1 == m0 && s1 == s0 && t1 == t0
    } else {
        exists|mm: UserMouse, sm: State, tm: Tasks|
            #[trigger] event_step_rel(m0, s0, t0, events[0], now, mm, sm, tm) && events_fold_rel(
                mm,
                sm,
                tm,
                events.skip(1),
                now,
                m1,
                s1,
                t1,
            )
    }
}

/// A fold extends on the right by one more event step.
proof fn lemma_events_fold_snoc(
    m0: UserMouse,
    s0: State,
    t0: Tasks,
    events: Seq<InputEvent>,
    e: InputEvent,
    now: int,
    mm: UserMouse,
    sm: State,
    tm: Tasks,
    m1: UserMouse,
    s1: State,
    t1: Tasks,
)
    requires
        events_fold_rel(m0, s0, t0, events, now, mm, sm, tm),
        event_step_rel(mm, sm, tm, e, now, m1, s1, t1),
    ensures
        events_fold_rel(m0, s0, t0, events.push(e), now, m1, s1, t1),
    decreases events.len(),
{
    if events.len() == 0 {
        assert(events.push(e)[0] == e);
        assert(events.push(e).skip(1) =~= Seq::<InputEvent>::empty());
        assert(event_step_rel(m0, s0, t0, events.push(e)[0], now, m1, s1, t1));
        assert(events_fold_rel(m1, s1, t1, events.push(e).skip(1), now, m1, s1, t1));
    } else {
        let (ma, sa, ta) = choose|ma: UserMouse, sa: State, ta: Tasks|
            #[trigger] event_step_rel(m0, s0, t0, events[0], now, ma, sa, ta) && events_fold_rel(
                ma,
                sa,
                ta,
                events.skip(1),
                now,
                mm,
                sm,
                tm,
            );
        lemma_events_fold_snoc(ma, sa, ta, events.skip(1), e, now, mm, sm, tm, m1, s1, t1);
        assert(events.push(e)[0] == events[0]);
        assert(events.push(e).skip(1) =~= events.skip(1).push(e));
        assert(event_step_rel(m0, s0, t0, events.push(e)[0], now, ma, sa, ta));
        assert(events_fold_rel(ma, sa, ta, events.push(e).skip(1), now, m1, s1, t1));
    }
}

/// Folds a batch of input events into the state and the pending tasks:
/// an escape or close raises the quit flag, everything else goes through
/// the pointer and keyboard handlers. Only the view and the tasks can
/// change; the world itself never does.
pub fn handle_events(
    state: &mut State,
    tasks: &mut Tasks,
    mouse: &mut UserMouse,
    keys: &mut UserKeys,
    events: &Vec<InputEvent>,
    now: i64,
)
    requires
        state_wf(*old(state)),
        tasks_wf(*old(tasks)),
        forall|i: int| 0 <= i < events@.len() ==> event_wf(#[trigger] events@[i]),
        -TIME_CAP <= now <= TIME_CAP,
        -TIME_CAP <= old(mouse).last_left_click <= TIME_CAP,
    ensures
        state_wf(*final(state)),
        tasks_wf(*final(tasks)),
        -TIME_CAP <= final(mouse).last_left_click <= TIME_CAP,
        events_fold_rel(
            *old(mouse),
            *old(state),
            *old(tasks),
            events@,
            now as int,
            *final(mouse),
            *final(state),
            *final(tasks),
        ),
        final(state).drawables == old(state).drawables,
        final(state).screen_width == old(state).screen_width,
        final(state).screen_height == old(state).screen_height,
        final(state).pause == old(state).pause,
        final(state).debug_info == old(state).debug_info,
        final(state).user_quit == (old(state).user_quit || exists|i: int|
            0 <= i < events@.len() && is_quit_event(#[trigger] events@[i])),
{
    let n = events.len();
    let mut i: usize = 0;
    while i < n
        invariant
            state_wf(*state),
            tasks_wf(*tasks),
            -TIME_CAP <= now <= TIME_CAP,
            -TIME_CAP <= mouse.last_left_click <= TIME_CAP,
            n == events@.len(),
            forall|k: int| 0 <= k < events@.len() ==> event_wf(#[trigger] events@[k]),
            i <= n,
            events_fold_rel(
                *old(mouse),
                *old(state),
                *old(tasks),
                events@.subrange(0, i as int),
                now as int,
                *mouse,
                *state,
                *tasks,
            ),
            state.drawables == old(state).drawables,
            state.screen_width == old(state).screen_width,
            state.screen_height == old(state).screen_height,
            state.pause == old(state).pause,
            state.debug_info == old(state).debug_info,
            state.user_quit == (old(state).user_quit || exists|k: int|
                0 <= k < i && is_quit_event(#[trigger] events@[k])),
        decreases n - i,
    {
        let ghost m_pre = *mouse;
        let ghost s_pre = *state;
        let ghost t_pre = *tasks;
        let event = events[i];
        let quit = match event {
            InputEvent::Close => true,
            InputEvent::KeyDown { key: KeyCode::Escape } => true,
            _ => false,
        };
        if quit {
            state.user_quit = true;
        }
        let ghost s_quit = *state;
        mouse.handle(state, &event, tasks, now);
        let ghost m_mid = *mouse;
        let ghost s_mid = *state;
        let ghost t_mid = *tasks;
        keys.handle(state, &event, tasks, now);
        proof {
            assert(s_quit == quit_applied(s_pre, event));
            assert(mouse_handle_rel(
                m_pre,
                s_quit,
                t_pre,
                event,
                now as int,
                m_mid,
                s_mid,
                t_mid,
            ));
            assert(keys_handle_rel(s_mid, t_mid, event, now as int, *state, *tasks));
            assert(mouse_handle_rel(
                m_pre,
                quit_applied(s_pre, event),
                t_pre,
                event,
                now as int,
                m_mid,
                s_mid,
                t_mid,
            ));
            assert(exists|sm: State, tm: Tasks|
                #[trigger] mouse_handle_rel(
                    m_pre,
                    quit_applied(s_pre, event),
                    t_pre,
                    event,
                    now as int,
                    m_mid,
                    sm,
                    tm,
                ) && keys_handle_rel(sm, tm, event, now as int, *state, *tasks));
            assert(event_step_rel(m_pre, s_pre, t_pre, event, now as int, m_mid, *state, *tasks));
            lemma_events_fold_snoc(
                *old(mouse),
                *old(state),
                *old(tasks),
                events@.subrange(0, i as int),
                event,
                now as int,
                m_pre,
                s_pre,
                t_pre,
                m_mid,
                *state,
                *tasks,
            );
            assert(events@.subrange(0, i as int + 1) =~= events@.subrange(0, i as int).push(
                event,
            ));
        }
        i = i + 1;
    }
    proof {
        assert(events@.subrange(0, n as int) =~= events@);
    }
}

/// Folds one measured tick into the cadence statistics: once a second's
/// worth of deltas has accumulated, the mean steps-per-second is
/// republished and the accumulators reset.
pub fn fold_cps_stats(delta_sum: &mut i64, delta_count: &mut u32, delta: i64, mean_cps: &mut u32)
    requires
        0 <= *old(delta_sum) < SCALE,
        0 <= delta <= DT_CAP,
        *old(delta_count) < 1_000_000_000,
    ensures
        ({
            let total = *old(delta_sum) + delta;
            let cnt = *old(delta_count) + 1;
            if total >= SCALE {
                &&& *final(delta_sum) == 0
                &&& *final(delta_count) == 0
                &&& *final(mean_cps) == (cnt * (SCALE as int) + total / 2) / total
            } else {
                &&& *final(delta_sum) == total
                &&& *final(delta_count) == cnt
                &&& *final(mean_cps) == *old(mean_cps)
            }
        }),
        0 <= *final(delta_sum) < SCALE,
        *final(delta_count) <= *old(delta_count) + 1,
{
    let total: i64 = *delta_sum + delta;
    let cnt: u32 = *delta_count + 1;
    if total >= SCALE {
        let num: u128 = (cnt as u128) * (SCALE as u128) + (total as u128) / 2;
        let mean: u128 = num / (total as u128);
        proof {
            assert((cnt as int) * (SCALE as int) <= 1_000_000_000 * (SCALE as int))
                by (nonlinear_arith)
                requires
                    0 <= cnt <= 1_000_000_000,
            ;
            assert(num / (total as u128) <= num) by (nonlinear_arith)
                requires
                    total >= 1,
                    num >= 0,
            ;
            assert(((cnt as int) * (SCALE as int) + (total as int) / 2) / (total as int) <= (cnt
                as int) + 1) by (nonlinear_arith)
                requires
                    total >= SCALE,
                    SCALE == 1_000_000_000,
                    cnt >= 1,
            ;
        }
        *mean_cps = mean as u32;
        *delta_sum = 0;
        *delta_count = 0;
    } else {
        *delta_sum = total;
        *delta_count = cnt;
    }
}

/// How long the compute loop should sleep after a tick that took
/// `elapsed` raw seconds: the rest of the tick budget, in nanoseconds.
pub fn sleep_nanos(elapsed: i64) -> (r: u64)
    requires
        0 <= elapsed,
    ensures
        r == (if elapsed < DESIRED_DELTA {
            DESIRED_DELTA - elapsed
        } else {
            0
        }),
{
    if elapsed < DESIRED_DELTA {
        (DESIRED_DELTA - elapsed) as u64
    } else {
        0
    }
}

} // verus!
