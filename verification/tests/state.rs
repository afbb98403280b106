use orbitsim::fixed::Vec2;
use orbitsim::fixed::SCALE;
use orbitsim::orbitbody::OrbitBody;
use orbitsim::orbitcurve::OrbitCurve;
use orbitsim::state::Drawables;
use orbitsim::state::State;

// world corners of the orthographic view:
// (0,0)
//     +-+
//     +-+
//        (width-px, height-px)
//      |
//      v
// (-az,z)
//     +-+
//     +-+
//        (az,-z)
// a: aspect ratio, z: zoom
fn check_screen_to_world(s: &State) {
    let a = s.aspect_ratio() as i128;
    let z = s.zoom as i128;
    let az = (a * z / (SCALE as i128)) as i64;
    let zz = s.zoom;
    let w = s.screen_width as i32;
    let h = s.screen_height as i32;
    assert_eq!(s.screen_to_world(0, 0), Vec2 { x: -az, y: zz }, "top-left");
    assert_eq!(s.screen_to_world(w, 0), Vec2 { x: az, y: zz }, "top-right");
    assert_eq!(s.screen_to_world(0, h), Vec2 { x: -az, y: -zz }, "bottom-left");
    assert_eq!(s.screen_to_world(w, h), Vec2 { x: az, y: -zz }, "bottom-right");
    assert_eq!(s.screen_to_world(w / 2, h / 2), Vec2 { x: 0, y: 0 }, "center");
}

#[test]
fn screen_to_world_zoom_1_aspect_1() {
    check_screen_to_world(&State::new(100, 100));
}

#[test]
fn screen_to_world_zoom_1() {
    check_screen_to_world(&State::new(160, 90));
}

#[test]
fn screen_to_world() {
    let mut state = State::new(160, 90);
    state.zoom = 330_000_000; // 0.33
    check_screen_to_world(&state);
}

#[test]
fn pan_invariance_reference_points() {
    // origin (0,0), zoom 1, screen 1920x1080
    let mut s = State::new(1920, 1080);
    s.zoom = SCALE;
    assert_eq!(s.screen_to_world(960, 540), Vec2 { x: 0, y: 0 });
    let aspect = s.aspect_ratio(); // 1.777... in raw units
    assert_eq!(aspect, 1_777_777_777);
    assert_eq!(s.screen_to_world(0, 0), Vec2 { x: -aspect, y: SCALE });
}

#[test]
fn aspect_ratio_is_width_over_height() {
    let s = State::new(1920, 1080);
    assert_eq!(s.aspect_ratio(), 1920 * SCALE / 1080);
    let square = State::new(512, 512);
    assert_eq!(square.aspect_ratio(), SCALE);
}

#[test]
fn curve_body_mismatch_by_tolerance() {
    let body = OrbitBody {
        id: 9,
        center: Vec2 { x: 0, y: 0 },
        radius: SCALE,
        mass: 1_000 * SCALE,
        velocity: Vec2 { x: 0, y: 0 },
    };
    let mut close = OrbitCurve::new();
    close.plots.push(Vec2 { x: 400_000_000, y: 0 }); // 0.4 away
    let mut far = OrbitCurve::new();
    far.plots.push(Vec2 { x: 600_000_000, y: 0 }); // 0.6 away

    let tol = 500_000_000; // 0.5
    let fine = Drawables { orbit_bodies: vec![body], orbit_curves: vec![close] };
    assert!(!fine.curve_body_mismatch(tol));

    let body2 = fine.orbit_bodies[0];
    let drifted = Drawables { orbit_bodies: vec![body2], orbit_curves: vec![far] };
    assert!(drifted.curve_body_mismatch(tol));

    // an empty curve never mismatches
    let body3 = drifted.orbit_bodies[0];
    let empty = Drawables { orbit_bodies: vec![body3], orbit_curves: vec![OrbitCurve::new()] };
    assert!(!empty.curve_body_mismatch(tol));
}

#[test]
fn new_state_has_four_distinct_bodies() {
    let s = State::new(800, 600);
    let bodies = &s.drawables.orbit_bodies;
    assert_eq!(bodies.len(), 4);
    for i in 0..4 {
        for j in 0..4 {
            if i != j {
                assert_ne!(bodies[i].id, bodies[j].id);
            }
        }
    }
    // the documented roster: masses 1660, 1000, 1 and 2 world units
    let masses: Vec<i64> = bodies.iter().map(|b| b.mass).collect();
    assert_eq!(
        masses,
        vec![1_660 * SCALE, 1_000 * SCALE, 1 * SCALE, 2 * SCALE]
    );
    let xs: Vec<i64> = bodies.iter().map(|b| b.center.x).collect();
    assert_eq!(xs, vec![0, 3_500_000_000, 9 * SCALE, -12 * SCALE]);
    let vys: Vec<i64> = bodies.iter().map(|b| b.velocity.y).collect();
    assert_eq!(vys, vec![-1 * SCALE, 1_600_000_000, 2 * SCALE, -1_500_000_000]);
    assert!(s.drawables.orbit_curves.is_empty());
    assert!(!s.user_quit);
    assert!(!s.pause);
}
