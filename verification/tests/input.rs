use orbitsim::compute::handle_events;
use orbitsim::fixed::Vec2;
use orbitsim::fixed::SCALE;
use orbitsim::input::InputEvent;
use orbitsim::input::KeyCode;
use orbitsim::input::Tasks;
use orbitsim::input::UserKeys;
use orbitsim::input::UserMouse;
use orbitsim::input::Zoomer;
use orbitsim::input::MAX_ZOOM;
use orbitsim::input::MIN_ZOOM;
use orbitsim::state::State;

#[test]
fn tasks_update_twice_at_same_instant_is_idempotent() {
    let mut state = State::new(100, 100);
    let followed = state.drawables.orbit_bodies[0].id;
    let now: i64 = 500_000_000; // mid-animation
    let mut tasks = Tasks {
        zoom: Some(Zoomer::just_zoom(state.zoom, &state, 0)),
        follow: Some(followed),
    };

    tasks.update(&mut state, now);
    let after_once = state.clone();
    tasks.update(&mut state, now);

    assert_eq!(state.zoom, after_once.zoom);
    assert_eq!(state.origin, after_once.origin);
    assert_eq!(
        state.drawables.orbit_bodies.len(),
        after_once.drawables.orbit_bodies.len()
    );
}

#[test]
fn tasks_clear_follow_when_body_is_gone() {
    let mut state = State::new(100, 100);
    let mut tasks = Tasks { zoom: None, follow: Some(424242) };
    let origin_before = state.origin;
    tasks.update(&mut state, 0);
    assert!(tasks.follow.is_none());
    assert_eq!(state.origin, origin_before);
}

#[test]
fn wheel_zoom_doubles_and_clamps() {
    let mut state = State::new(100, 100); // zoom starts at 16
    let mut tasks = Tasks::new();
    let mut mouse = UserMouse::new();

    // scrolling toward the user doubles the zoom value
    mouse.handle(&mut state, &InputEvent::Wheel { y: -SCALE }, &mut tasks, 0);
    let dest = tasks.zoom.as_ref().unwrap().zoom_destination();
    assert_eq!(dest, 32 * SCALE);

    // a big scroll clamps at the zoom bounds
    mouse.handle(&mut state, &InputEvent::Wheel { y: -10 * SCALE }, &mut tasks, 0);
    assert_eq!(tasks.zoom.as_ref().unwrap().zoom_destination(), MAX_ZOOM);
    mouse.handle(&mut state, &InputEvent::Wheel { y: 40 * SCALE }, &mut tasks, 0);
    assert_eq!(tasks.zoom.as_ref().unwrap().zoom_destination(), MIN_ZOOM);
}

#[test]
fn dragging_pans_the_origin() {
    let mut state = State::new(100, 100);
    let mut tasks = Tasks::new();
    let mut mouse = UserMouse::new();

    mouse.handle(&mut state, &InputEvent::MouseMove { x: 50, y: 50 }, &mut tasks, 0);
    assert_eq!(state.origin, Vec2 { x: 0, y: 0 });
    mouse.handle(&mut state, &InputEvent::MouseDown, &mut tasks, 0);
    mouse.handle(&mut state, &InputEvent::MouseMove { x: 40, y: 50 }, &mut tasks, 0);

    // the world point under the pointer stays put: origin shifts by
    // zoom * aspect * (2*50-100)/100 - zoom * aspect * (2*40-100)/100
    assert_eq!(state.origin, Vec2 { x: 3_200_000_000, y: 0 });

    mouse.handle(&mut state, &InputEvent::MouseUp, &mut tasks, 0);
    let before = state.origin;
    mouse.handle(&mut state, &InputEvent::MouseMove { x: 10, y: 10 }, &mut tasks, 0);
    assert_eq!(state.origin, before, "no drag after release");
}

#[test]
fn double_click_follows_a_hit_body() {
    let mut state = State::new(100, 100);
    let target = state.drawables.orbit_bodies[0].id; // body at the world origin
    let mut tasks = Tasks::new();
    let mut mouse = UserMouse::new();

    // pointer at the screen center, over the body at the origin
    mouse.handle(&mut state, &InputEvent::MouseMove { x: 50, y: 50 }, &mut tasks, 0);
    mouse.handle(&mut state, &InputEvent::MouseDown, &mut tasks, 0);
    mouse.handle(&mut state, &InputEvent::MouseUp, &mut tasks, 0);
    // second press 0.4 s later: double click
    mouse.handle(&mut state, &InputEvent::MouseDown, &mut tasks, 400_000_000);

    assert_eq!(tasks.follow, Some(target));
    let zoomer = tasks.zoom.as_ref().unwrap();
    assert_eq!(zoomer.zoom_destination(), state.zoom);
}

#[test]
fn slow_second_click_does_not_follow() {
    let mut state = State::new(100, 100);
    let mut tasks = Tasks::new();
    let mut mouse = UserMouse::new();
    mouse.handle(&mut state, &InputEvent::MouseMove { x: 50, y: 50 }, &mut tasks, 0);
    mouse.handle(&mut state, &InputEvent::MouseDown, &mut tasks, 0);
    mouse.handle(&mut state, &InputEvent::MouseUp, &mut tasks, 0);
    mouse.handle(&mut state, &InputEvent::MouseDown, &mut tasks, 700_000_000);
    assert!(tasks.follow.is_none());
    assert!(tasks.zoom.is_none());
}

#[test]
fn digit_keys_zoom_to_bodies() {
    let mut state = State::new(100, 100);
    let second_center = state.drawables.orbit_bodies[1].center;
    let mut tasks = Tasks::new();
    let mut keys = UserKeys::new();

    keys.handle(
        &mut state,
        &InputEvent::KeyDown { key: KeyCode::Digit { d: 2 } },
        &mut tasks,
        0,
    );
    assert!(tasks.follow.is_none());
    let zoomer = tasks.zoom.as_ref().unwrap();
    assert_eq!(zoomer.easer.transitions[1].1, second_center.x);
    assert_eq!(zoomer.easer.transitions[2].1, second_center.y);

    // a digit with no matching body changes nothing
    let mut tasks2 = Tasks::new();
    keys.handle(
        &mut state,
        &InputEvent::KeyDown { key: KeyCode::Digit { d: 9 } },
        &mut tasks2,
        0,
    );
    assert!(tasks2.zoom.is_none());
}

#[test]
fn home_key_zooms_to_the_heaviest_body() {
    let mut state = State::new(100, 100);
    let heaviest = state.drawables.orbit_bodies[0].center; // mass 1660
    let mut tasks = Tasks::new();
    let mut keys = UserKeys::new();
    keys.handle(&mut state, &InputEvent::KeyDown { key: KeyCode::Home }, &mut tasks, 0);
    let zoomer = tasks.zoom.as_ref().unwrap();
    assert_eq!(zoomer.easer.transitions[1].1, heaviest.x);
    assert_eq!(zoomer.easer.transitions[2].1, heaviest.y);
}

#[test]
fn escape_and_close_raise_the_quit_flag() {
    let mut state = State::new(100, 100);
    let mut tasks = Tasks::new();
    let mut mouse = UserMouse::new();
    let mut keys = UserKeys::new();

    let calm = vec![InputEvent::MouseMove { x: 1, y: 1 }];
    handle_events(&mut state, &mut tasks, &mut mouse, &mut keys, &calm, 0);
    assert!(!state.user_quit);

    let quit = vec![InputEvent::KeyDown { key: KeyCode::Escape }];
    handle_events(&mut state, &mut tasks, &mut mouse, &mut keys, &quit, 0);
    assert!(state.user_quit);

    let mut state2 = State::new(100, 100);
    let closing = vec![InputEvent::Close];
    handle_events(&mut state2, &mut tasks, &mut mouse, &mut keys, &closing, 0);
    assert!(state2.user_quit);
}

#[test]
fn zoomer_samples_clamp_and_ease() {
    let state = State::new(100, 100);
    let z = Zoomer::zoom_to_world(8 * SCALE, (3 * SCALE, -2 * SCALE), &state, 0);
    // before the start: current values; after a second: destinations
    assert_eq!(z.zoom_at(-1), state.zoom);
    assert_eq!(z.zoom_at(2 * SCALE), 8 * SCALE);
    assert_eq!(z.origin_at(2 * SCALE), Vec2 { x: 3 * SCALE, y: -2 * SCALE });
    // half way through, strictly between the endpoints
    let mid = z.zoom_at(SCALE / 2);
    assert!(mid > 8 * SCALE && mid < state.zoom);
    assert!(!z.finished_at(SCALE));
    assert!(z.finished_at(SCALE + 1));
}
