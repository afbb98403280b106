use orbitsim::compute::compute_state;
use orbitsim::compute::compute_state_par;
use orbitsim::compute::compute_state_single;
use orbitsim::compute::fold_cps_stats;
use orbitsim::compute::handle_seer_projections;
use orbitsim::compute::sleep_nanos;
use orbitsim::compute::DESIRED_DELTA;
use orbitsim::debug::ComputeDebugInfo;
use orbitsim::fixed::Vec2;
use orbitsim::fixed::SCALE;
use orbitsim::input::Tasks;
use orbitsim::orbitbody::OrbitBody;
use orbitsim::orbitcurve::OrbitCurve;
use orbitsim::state::Drawables;
use orbitsim::state::State;

fn grid_state(side: i64) -> State {
    let mut state = State::new(1280, 720);
    let mut bodies = Vec::new();
    for i in 0..side {
        for j in 0..side {
            bodies.push(OrbitBody {
                id: (i * side + j) as u128,
                center: Vec2 { x: i * 5 * SCALE, y: j * 5 * SCALE },
                radius: SCALE / 2,
                mass: (100 + i * 7 + j * 3) * SCALE,
                velocity: Vec2 { x: j * SCALE / 10, y: -i * SCALE / 10 },
            });
        }
    }
    state.drawables = Drawables { orbit_bodies: bodies, orbit_curves: Vec::new() };
    state
}

#[test]
fn single_and_parallel_steps_agree() {
    // 81 bodies: large enough that the dispatcher would go parallel
    let base = grid_state(9);
    let mut a = base.clone();
    let mut b = base.clone();
    let mut ta = Tasks::new();
    let mut tb = Tasks::new();
    compute_state_single(&mut a, &mut ta, 1_000_000, 0);
    compute_state_par(&mut b, &mut tb, 1_000_000, 0);
    assert_eq!(a.drawables.orbit_bodies.len(), b.drawables.orbit_bodies.len());
    for i in 0..a.drawables.orbit_bodies.len() {
        assert_eq!(a.drawables.orbit_bodies[i], b.drawables.orbit_bodies[i]);
    }
    assert_eq!(a.origin, b.origin);
    assert_eq!(a.zoom, b.zoom);
}

fn momentum(state: &State) -> (i128, i128) {
    let mut px: i128 = 0;
    let mut py: i128 = 0;
    for b in &state.drawables.orbit_bodies {
        px += (b.mass as i128) * (b.velocity.x as i128);
        py += (b.mass as i128) * (b.velocity.y as i128);
    }
    (px, py)
}

#[test]
fn momentum_is_conserved_within_rounding() {
    let mut state = State::new(1280, 720);
    let mut tasks = Tasks::new();
    let (px0, py0) = momentum(&state);
    compute_state(&mut state, &mut tasks, 1_000_000, 0);
    let (px1, py1) = momentum(&state);
    // exact in the reals for pairwise forces; integer rounding leaves a
    // residue far below one thousandth of a world unit of momentum
    let tol: i128 = 1_000_000_000_000_000;
    assert!((px1 - px0).abs() < tol, "x momentum drift: {}", px1 - px0);
    assert!((py1 - py0).abs() < tol, "y momentum drift: {}", py1 - py0);
}

#[test]
fn two_body_circular_orbit() {
    // a light body circles a heavy one once and comes back to its start
    let mut state = State::new(100, 100);
    state.drawables = Drawables {
        orbit_bodies: vec![
            OrbitBody {
                id: 1,
                center: Vec2 { x: 0, y: 0 },
                radius: SCALE,
                mass: 1_000 * SCALE,
                velocity: Vec2 { x: 0, y: 0 },
            },
            OrbitBody {
                id: 2,
                center: Vec2 { x: SCALE, y: 0 },
                radius: SCALE / 10,
                mass: 0,
                // sqrt(G * m) = sqrt(10) world units per second
                velocity: Vec2 { x: 0, y: 3_162_277_660 },
            },
        ],
        orbit_curves: Vec::new(),
    };
    let mut tasks = Tasks::new();
    let dt: i64 = 100_000; // 1e-4 s
    let steps = 19_869; // one period, 2*pi/sqrt(10) seconds
    for _ in 0..steps {
        compute_state(&mut state, &mut tasks, dt, 0);
    }
    let b = state.drawables.orbit_bodies[1];
    let dx = (b.center.x - SCALE) as i128;
    let dy = b.center.y as i128;
    let lim = 10_000_000i128; // 0.01 world units
    assert!(
        dx * dx + dy * dy < lim * lim,
        "ended at ({}, {})",
        b.center.x,
        b.center.y
    );
    // the heavy body felt no pull from the massless one
    assert_eq!(state.drawables.orbit_bodies[0].center, Vec2 { x: 0, y: 0 });
}

#[test]
fn projection_fold_fades_with_zoom() {
    let mut curve = OrbitCurve::new();
    curve.plots.push(Vec2 { x: 0, y: 0 });
    curve.plots.push(Vec2 { x: SCALE, y: 0 });
    let curves = vec![curve];

    let mut state = State::new(100, 100);
    state.zoom = 15 * SCALE;
    handle_seer_projections(&mut state, &curves);
    assert_eq!(state.drawables.orbit_curves.len(), 1);
    assert_eq!(state.drawables.orbit_curves[0].opacity, SCALE / 2);
    assert_eq!(state.drawables.orbit_curves[0].plots.len(), 2);

    state.zoom = 25 * SCALE;
    handle_seer_projections(&mut state, &curves);
    assert_eq!(state.drawables.orbit_curves[0].opacity, 0);

    state.zoom = 5 * SCALE;
    handle_seer_projections(&mut state, &curves);
    assert_eq!(state.drawables.orbit_curves[0].opacity, SCALE);
}

#[test]
fn cadence_stats_fold_and_reset() {
    let mut sum: i64 = 999_000_000;
    let mut count: u32 = 1_079;
    let mut mean: u32 = 0;
    fold_cps_stats(&mut sum, &mut count, 1_000_000, &mut mean);
    assert_eq!(sum, 0);
    assert_eq!(count, 0);
    assert_eq!(mean, 1_080);

    // under a second of samples: accumulate, no publish
    let mut mean2: u32 = 77;
    let mut sum2: i64 = 0;
    let mut count2: u32 = 0;
    fold_cps_stats(&mut sum2, &mut count2, 925_925, &mut mean2);
    assert_eq!(sum2, 925_925);
    assert_eq!(count2, 1);
    assert_eq!(mean2, 77);
}

#[test]
fn sleep_budget_is_remainder_of_tick() {
    assert_eq!(sleep_nanos(0), DESIRED_DELTA as u64);
    assert_eq!(sleep_nanos(DESIRED_DELTA - 1), 1);
    assert_eq!(sleep_nanos(DESIRED_DELTA), 0);
    assert_eq!(sleep_nanos(SCALE), 0);
}

#[test]
fn debug_info_combines_rates() {
    let compute = ComputeDebugInfo::initial();
    assert_eq!(compute.mean_cps, 0);
    let combined = compute.add_render_info(60);
    assert_eq!(combined.mean_fps, 60);
    assert_eq!(combined.compute.mean_cps, 0);
}
