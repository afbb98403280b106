use orbitsim::fixed::Vec2;
use orbitsim::fixed::SCALE;
use orbitsim::fixed::TIME_CAP;
use orbitsim::input::Tasks;
use orbitsim::orbitcurve::OrbitCurve;
use orbitsim::seer::delta_channel;
use orbitsim::seer::drain_deltas;
use orbitsim::seer::par_filter_curves;
use orbitsim::seer::send_delta;
use orbitsim::seer::supervise;
use orbitsim::seer::Seer;
use orbitsim::seer::SeerSim;
use orbitsim::seer::SEER_MAX_PLOTS;
use orbitsim::state::Drawables;
use orbitsim::state::State;
use orbitsim::svsc::channel;
use orbitsim::orbitbody::OrbitBody;

fn resting_body_state() -> State {
    let mut state = State::new(100, 100);
    state.drawables = Drawables {
        orbit_bodies: vec![OrbitBody {
            id: 7,
            center: Vec2 { x: 0, y: 0 },
            radius: SCALE,
            mass: 1_000 * SCALE,
            velocity: Vec2 { x: 0, y: 0 },
        }],
        orbit_curves: Vec::new(),
    };
    state
}

#[test]
fn plot_distance_follows_the_zoom_table() {
    assert_eq!(Seer::min_plot_distance_at_zoom(9_000_000_000), 270_000_000);
    assert_eq!(Seer::min_plot_distance_at_zoom(8_500_000_000), 270_000_000);
    assert_eq!(Seer::min_plot_distance_at_zoom(5_000_000_000), 180_000_000);
    assert_eq!(Seer::min_plot_distance_at_zoom(3_000_000_000), 150_000_000);
    assert_eq!(Seer::min_plot_distance_at_zoom(2_000_000_000), 100_000_000);
    assert_eq!(Seer::min_plot_distance_at_zoom(1_000_000_000), 50_000_000);
}

#[test]
fn seeding_gives_every_body_a_one_plot_curve() {
    let state = State::new(100, 100);
    let centers: Vec<Vec2> = state.drawables.orbit_bodies.iter().map(|b| b.center).collect();
    let sim = SeerSim::seed(state, &Tasks::new());
    assert_eq!(sim.plots, 0);
    assert_eq!(sim.main_deltas_ahead, 0);
    assert_eq!(sim.state.drawables.orbit_curves.len(), centers.len());
    for (i, c) in sim.state.drawables.orbit_curves.iter().enumerate() {
        assert_eq!(c.plots.len(), 1);
        assert_eq!(c.plots[0], centers[i]);
    }
}

#[test]
fn advancing_appends_the_new_centers() {
    let mut sim = SeerSim::seed(resting_body_state(), &Tasks::new());
    sim.advance();
    assert_eq!(sim.plots, 1);
    let curve = &sim.state.drawables.orbit_curves[0];
    assert_eq!(curve.plots.len(), 2);
    assert_eq!(curve.plots[1], sim.state.drawables.orbit_bodies[0].center);
}

#[test]
fn reconciling_drops_outdated_plots() {
    let mut sim = SeerSim::seed(resting_body_state(), &Tasks::new());
    for _ in 0..10 {
        sim.advance();
    }
    assert_eq!(sim.plots, 10);
    assert_eq!(sim.state.drawables.orbit_curves[0].plots.len(), 11);

    // 3.5 seer steps of real time have passed: drop 3, keep the rest
    sim.reconcile(3_500_000);
    assert_eq!(sim.plots, 7);
    assert_eq!(sim.main_deltas_ahead, 500_000);
    assert_eq!(sim.state.drawables.orbit_curves[0].plots.len(), 8);

    // far more real time than plots: curves empty out, counter at zero
    sim.reconcile(60_000_000);
    assert_eq!(sim.plots, 0);
    assert_eq!(sim.state.drawables.orbit_curves[0].plots.len(), 0);
}

#[test]
fn budget_pauses_at_the_plot_cap() {
    let mut sim = SeerSim::seed(resting_body_state(), &Tasks::new());
    assert!(!sim.budget_exhausted());
    sim.plots = SEER_MAX_PLOTS;
    assert!(sim.budget_exhausted());
}

#[test]
fn parallel_filter_matches_the_reducer() {
    let mut a = OrbitCurve::new();
    let mut b = OrbitCurve::new();
    for i in 0..300 {
        a.plots.push(Vec2 { x: i * SCALE / 10, y: 0 });
        b.plots.push(Vec2 { x: 0, y: i * SCALE / 7 });
    }
    b.opacity = SCALE / 2;
    let curves = vec![a, b];
    let filtered = par_filter_curves(&curves, SCALE / 2);
    assert_eq!(filtered.len(), 2);
    for i in 0..2 {
        let alone = curves[i].with_minimum_plot_distance(SCALE / 2);
        assert_eq!(filtered[i].plots, alone.plots);
        assert_eq!(filtered[i].opacity, curves[i].opacity);
    }
    assert!(filtered[0].plots.len() > 1, "the reducer kept a sparse subsequence");
    assert!(filtered[0].plots.len() < curves[0].plots.len(), "the reducer dropped plots");
}

#[test]
fn deltas_drain_in_order_and_saturate_at_zero() {
    let (tx, rx) = delta_channel();
    assert!(send_delta(&tx, 1_000));
    assert!(send_delta(&tx, -5_000)); // discarded: time never runs backward
    assert!(send_delta(&tx, 2_000));
    assert_eq!(drain_deltas(&rx), 3_000);
    assert_eq!(drain_deltas(&rx), 0, "queue is empty now");
    drop(rx);
    assert!(!send_delta(&tx, 1), "receiver is gone");

    // absurdly large deltas saturate at the largest handled time
    let (tx2, rx2) = delta_channel();
    assert!(send_delta(&tx2, i64::MAX));
    assert!(send_delta(&tx2, i64::MAX));
    assert_eq!(drain_deltas(&rx2), TIME_CAP);
}

#[test]
fn apprentice_is_spawned_on_mismatch_and_promoted_when_caught_up() {
    let mut state = resting_body_state();
    let tasks = Tasks::new();

    // the master seer has published a projection rooted at the body
    let mut master_curve = OrbitCurve::new();
    master_curve.plots.push(Vec2 { x: 0, y: 0 });
    let (master_get, _master_upd) = channel(vec![master_curve.clone()]);
    let (master_tx, _master_rx) = delta_channel();
    let mut seer = Seer {
        projection: master_get,
        main_deltas: master_tx,
        min_plot_distance: Seer::min_plot_distance_at_zoom(state.zoom),
    };
    state.drawables.orbit_curves = vec![master_curve];

    let mut apprentice: Option<Seer> = None;

    // a healthy seer needs no apprentice
    assert!(!supervise(&state, &tasks, &mut seer, &mut apprentice));

    // translating the body two units puts it far from its curve's head
    state.drawables.orbit_bodies[0].center.x = 2 * SCALE;
    assert!(supervise(&state, &tasks, &mut seer, &mut apprentice));

    // the caller spawns the apprentice the supervisor asked for
    let (apprentice_get, apprentice_upd) = channel(Vec::new());
    let (apprentice_tx, apprentice_rx) = delta_channel();
    let apprentice_mpd = Seer::spawn_min_plot_distance(&state, &tasks);
    apprentice = Some(Seer {
        projection: apprentice_get,
        main_deltas: apprentice_tx,
        min_plot_distance: apprentice_mpd,
    });

    // train the apprentice: its worker loop advances, filters, publishes
    let mut sim = SeerSim::seed(state.clone(), &tasks);
    let mut promoted = false;
    for tick in 0..50 {
        assert!(send_delta(&apprentice.as_ref().unwrap().main_deltas, 1_000_000) || tick > 0);
        sim.reconcile(drain_deltas(&apprentice_rx));
        if !sim.budget_exhausted() {
            sim.advance();
        }
        let filtered = par_filter_curves(&sim.state.drawables.orbit_curves, apprentice_mpd);
        apprentice_upd.update(filtered).unwrap();

        assert!(
            !state.drawables.orbit_curves.is_empty(),
            "curves stay on screen during training"
        );
        assert!(!supervise(&state, &tasks, &mut seer, &mut apprentice));
        if apprentice.is_none() {
            promoted = true;
            break;
        }
    }
    assert!(promoted, "the apprentice caught up and took over");
    assert_eq!(seer.min_plot_distance, apprentice_mpd);
    assert!(!state.drawables.orbit_curves.is_empty());
}

#[test]
fn reconciling_nothing_changes_nothing() {
    let mut sim = SeerSim::seed(resting_body_state(), &Tasks::new());
    for _ in 0..3 {
        sim.advance();
    }
    sim.reconcile(0);
    assert_eq!(sim.plots, 3);
    assert_eq!(sim.main_deltas_ahead, 0);
    assert_eq!(sim.state.drawables.orbit_curves[0].plots.len(), 4);
}
