//! User input: events, view tasks and the handlers that turn one into
//! the other.
//!
//! Events come from the windowing layer as plain values; the handlers
//! fold them into [`Tasks`], which the compute loop applies to the
//! [`State`] once per tick.

use vstd::prelude::*;
use crate::ease::Easer;
use crate::ease::Easing;
use crate::ease::easer_wf;
use crate::ease::ease_value_at;
use crate::ease::lemma_ease_value_within;
use crate::ease::VAL_CAP;
use crate::fixed::Vec2;
use crate::fixed::clamp_spec;
use crate::fixed::dist2;
use crate::fixed::dist2_spec;
use crate::fixed::mul_div;
use crate::fixed::mul_div_spec;
use crate::fixed::lemma_mul_div_cap;
use crate::fixed::sq;
use crate::fixed::sq_u128;
use crate::fixed::POS_CAP;
use crate::fixed::SCALE;
use crate::fixed::TIME_CAP;
use crate::orbitbody::OrbitBody;
use crate::state::State;
use crate::state::state_wf;
use crate::state::stw_norm_x;
use crate::state::stw_norm_y;
use crate::state::with_zoom;

verus! {

/// Smallest zoom the user can reach, in raw units.
pub const MIN_ZOOM: i64 = 500_000_000;

/// Largest zoom the user can reach, in raw units.
pub const MAX_ZOOM: i64 = 70_000_000_000;

/// Two presses within this window count as a double click, raw seconds.
pub const DBL_CLICK_TIME: i64 = 500_000_000;

/// Largest wheel delta accepted from the event source, raw lines.
pub const WHEEL_CAP: i64 = 100_000_000_000;

/// Keys the simulator reacts to.
#[derive(Clone, Copy, Debug, PartialEq, Eq, Structural)]
pub enum KeyCode {
    Escape,
    Home,
    /// A digit key, `0` through `9`.
    Digit { d: u8 },
    Other,
}

/// One event from the windowing layer, reduced to plain values.
#[derive(Clone, Copy, Debug, PartialEq, Eq, Structural)]
pub enum InputEvent {
    /// Wheel scroll: vertical line delta in raw fixed-point lines.
    Wheel { y: i64 },
    /// Left button pressed.
    MouseDown,
    /// Left button released.
    MouseUp,
    /// Pointer moved to a pixel position.
    MouseMove { x: i32, y: i32 },
    /// A key was pressed.
    KeyDown { key: KeyCode },
    /// The window was closed.
    Close,
}

/// The bounds an event must keep before a handler takes it.
pub open spec fn event_wf(e: InputEvent) -> bool {
    match e {
        InputEvent::Wheel { y } => -WHEEL_CAP <= y <= WHEEL_CAP,
        _ => true,
    }
}

/// A view animation: one easer with three transitions, zoom first, then
/// the two origin coordinates.
#[derive(Clone, Debug)]
pub struct Zoomer {
    pub easer: Easer,
}

/// The shape every zoomer keeps: exactly three transitions, with the
/// zoom leg non-negative.
pub open spec fn zoomer_wf(z: Zoomer) -> bool {
    &&& easer_wf(z.easer)
    &&& z.easer.transitions@.len() == 3
    &&& 0 <= z.easer.transitions@[0].0 <= VAL_CAP
    &&& 0 <= z.easer.transitions@[0].1 <= VAL_CAP
}

/// The zoom value a zoomer yields at `now`.
pub open spec fn zoom_sample(z: Zoomer, now: int) -> int {
    ease_value_at(
        z.easer.easing,
        z.easer.start as int,
        z.easer.duration as int,
        z.easer.transitions@[0].0 as int,
        z.easer.transitions@[0].1 as int,
        now,
    )
}

/// The origin a zoomer yields at `now`.
pub open spec fn origin_sample(z: Zoomer, now: int) -> Vec2 {
    Vec2 {
        x: ease_value_at(
            z.easer.easing,
            z.easer.start as int,
            z.easer.duration as int,
            z.easer.transitions@[1].0 as int,
            z.easer.transitions@[1].1 as int,
            now,
        ) as i64,
        y: ease_value_at(
            z.easer.easing,
            z.easer.start as int,
            z.easer.duration as int,
            z.easer.transitions@[2].0 as int,
            z.easer.transitions@[2].1 as int,
            now,
        ) as i64,
    }
}

/// Whether the zoomer's easing window has passed at `now`.
pub open spec fn zoomer_finished(z: Zoomer, now: int) -> bool {
    now > z.easer.start + z.easer.duration
}

/// `z1` is `z` with only its origin destination redirected to `dest`.
pub open spec fn is_zoomer_with_dest(z1: Zoomer, z: Zoomer, dest: Vec2) -> bool {
    &&& z1.easer.start == z.easer.start
    &&& z1.easer.duration == z.easer.duration
    &&& z1.easer.easing == z.easer.easing
    &&& z1.easer.transitions@ =~= z.easer.transitions@.update(
        1,
        (z.easer.transitions@[1].0, dest.x),
    ).update(2, (z.easer.transitions@[2].0, dest.y))
}

/// The horizontal origin shift that keeps the world point under the
/// given pixel fixed while the zoom changes, held inside the world box.
pub open spec fn zoom_shift_x(s: State, zoom: i64, px: int) -> int {
    clamp_spec(
        s.origin.x + stw_norm_x(s, px) - stw_norm_x(with_zoom(s, zoom), px),
        -POS_CAP as int,
        POS_CAP as int,
    )
}

/// Vertical counterpart of [`zoom_shift_x`].
pub open spec fn zoom_shift_y(s: State, zoom: i64, py: int) -> int {
    clamp_spec(
        s.origin.y + stw_norm_y(s, py) - stw_norm_y(with_zoom(s, zoom), py),
        -POS_CAP as int,
        POS_CAP as int,
    )
}

impl Zoomer {
    /// Builds the shared easer of every zoomer: one second long, easing
    /// out, moving zoom and origin together.
    fn build(current: &State, zoom: i64, ox: i64, oy: i64, now: i64) -> (r: Zoomer)
        requires
            state_wf(*current),
            0 <= zoom <= VAL_CAP,
            -POS_CAP <= ox <= POS_CAP,
            -POS_CAP <= oy <= POS_CAP,
            -TIME_CAP <= now <= TIME_CAP,
        ensures
            zoomer_wf(r),
            r.easer.easing == Easing::ExpoOut,
            r.easer.start == now,
            r.easer.duration == SCALE,
            r.easer.transitions@ =~= seq![
                (current.zoom, zoom),
                (current.origin.x, ox),
                (current.origin.y, oy),
            ],
    {
        let easer = Easer::using(Easing::ExpoOut)
            .start(now)
            .duration(SCALE)
            .add_transition(current.zoom, zoom)
            .add_transition(current.origin.x, ox)
            .add_transition(current.origin.y, oy);
        Zoomer { easer }
    }

    /// A zoomer toward `zoom` that keeps the world point under the given
    /// screen position fixed.
    pub fn zoom_to_screen(zoom: i64, screen_location: (i32, i32), current: &State, now: i64) -> (r:
        Zoomer)
        requires
            state_wf(*current),
            0 <= zoom <= VAL_CAP,
            -TIME_CAP <= now <= TIME_CAP,
        ensures
            zoomer_wf(r),
            r.easer.easing == Easing::ExpoOut,
            r.easer.start == now,
            r.easer.duration == SCALE,
            r.easer.transitions@ =~= seq![
                (current.zoom, zoom),
                (current.origin.x, zoom_shift_x(*current, zoom, screen_location.0 as int) as i64),
                (current.origin.y, zoom_shift_y(*current, zoom, screen_location.1 as int) as i64),
            ],
    {
        let (px, py) = screen_location;
        let before = current.screen_to_world_normalised(px, py);
        let after = current.world_offset_at_zoom(zoom, px, py);
        let rawx: i64 = current.origin.x + before.x - after.x;
        let rawy: i64 = current.origin.y + before.y - after.y;
        let ox: i64 = if rawx < -POS_CAP {
            -POS_CAP
        } else if rawx > POS_CAP {
            POS_CAP
        } else {
            rawx
        };
        let oy: i64 = if rawy < -POS_CAP {
            -POS_CAP
        } else if rawy > POS_CAP {
            POS_CAP
        } else {
            rawy
        };
        Zoomer::build(current, zoom, ox, oy, now)
    }

    /// A zoomer toward `zoom` whose origin travels to a fixed world
    /// location.
    pub fn zoom_to_world(zoom: i64, world_location: (i64, i64), current: &State, now: i64) -> (r:
        Zoomer)
        requires
            state_wf(*current),
            0 <= zoom <= VAL_CAP,
            -POS_CAP <= world_location.0 <= POS_CAP,
            -POS_CAP <= world_location.1 <= POS_CAP,
            -TIME_CAP <= now <= TIME_CAP,
        ensures
            zoomer_wf(r),
            r.easer.easing == Easing::ExpoOut,
            r.easer.start == now,
            r.easer.duration == SCALE,
            r.easer.transitions@ =~= seq![
                (current.zoom, zoom),
                (current.origin.x, world_location.0),
                (current.origin.y, world_location.1),
            ],
    {
        Zoomer::build(current, zoom, world_location.0, world_location.1, now)
    }

    /// A zoomer that keeps both zoom and origin where they are; its
    /// destination is later retargeted while following a body.
    pub fn just_zoom(zoom: i64, current: &State, now: i64) -> (r: Zoomer)
        requires
            state_wf(*current),
            0 <= zoom <= VAL_CAP,
            -TIME_CAP <= now <= TIME_CAP,
        ensures
            zoomer_wf(r),
            r.easer.easing == Easing::ExpoOut,
            r.easer.start == now,
            r.easer.duration == SCALE,
            r.easer.transitions@ =~= seq![
                (current.zoom, zoom),
                (current.origin.x, current.origin.x),
                (current.origin.y, current.origin.y),
            ],
    {
        Zoomer::build(current, zoom, current.origin.x, current.origin.y, now)
    }

    /// The zoom this zoomer is heading for.
    pub fn zoom_destination(&self) -> (r: i64)
        requires
            zoomer_wf(*self),
        ensures
            r == self.easer.transitions@[0].1,
            0 <= r <= VAL_CAP,
    {
        self.easer.transitions[0].1
    }

    /// The zoom at `time`.
    pub fn zoom_at(&self, time: i64) -> (r: i64)
        requires
            zoomer_wf(*self),
            -TIME_CAP <= time <= TIME_CAP,
        ensures
            r == zoom_sample(*self, time as int),
            0 <= r <= VAL_CAP,
    {
        let vals = self.easer.values_at(time);
        proof {
            lemma_ease_value_within(
                self.easer.easing,
                self.easer.start as int,
                self.easer.duration as int,
                self.easer.transitions@[0].0 as int,
                self.easer.transitions@[0].1 as int,
                time as int,
            );
        }
        vals[0]
    }

    /// The origin at `time`.
    pub fn origin_at(&self, time: i64) -> (r: Vec2)
        requires
            zoomer_wf(*self),
            -TIME_CAP <= time <= TIME_CAP,
        ensures
            r == origin_sample(*self, time as int),
            -VAL_CAP <= r.x <= VAL_CAP,
            -VAL_CAP <= r.y <= VAL_CAP,
    {
        let vals = self.easer.values_at(time);
        proof {
            lemma_ease_value_within(
                self.easer.easing,
                self.easer.start as int,
                self.easer.duration as int,
                self.easer.transitions@[1].0 as int,
                self.easer.transitions@[1].1 as int,
                time as int,
            );
            lemma_ease_value_within(
                self.easer.easing,
                self.easer.start as int,
                self.easer.duration as int,
                self.easer.transitions@[2].0 as int,
                self.easer.transitions@[2].1 as int,
                time as int,
            );
        }
        Vec2 { x: vals[1], y: vals[2] }
    }

    /// Whether the animation is over at `time`.
    pub fn finished_at(&self, time: i64) -> (r: bool)
        requires
            zoomer_wf(*self),
            -TIME_CAP <= time <= TIME_CAP,
        ensures
            r == zoomer_finished(*self, time as int),
    {
        self.easer.has_finished(time)
    }

    /// Redirects the origin destination, keeping everything else.
    pub fn update_origin_destination(&mut self, new: (i64, i64))
        requires
            zoomer_wf(*old(self)),
            -VAL_CAP <= new.0 <= VAL_CAP,
            -VAL_CAP <= new.1 <= VAL_CAP,
        ensures
            is_zoomer_with_dest(*final(self), *old(self), Vec2 { x: new.0, y: new.1 }),
            zoomer_wf(*final(self)),
    {
        let (newx, newy) = new;
        let from1 = self.easer.transitions[1].0;
        let from2 = self.easer.transitions[2].0;
        self.easer.transitions.set(1, (from1, newx));
        self.easer.transitions.set(2, (from2, newy));
    }
}

/// Pending user tasks: at most one view animation and at most one
/// followed body.
#[derive(Clone, Debug)]
pub struct Tasks {
    pub zoom: Option<Zoomer>,
    pub follow: Option<u128>,
}

/// Any zoomer a task set carries keeps the zoomer shape.
pub open spec fn tasks_wf(t: Tasks) -> bool {
    match t.zoom {
        Option::Some(z) => zoomer_wf(z),
        Option::None => true,
    }
}

/// Index of the first body with the given id, scanning from `i`.
pub open spec fn find_body_from(bodies: Seq<OrbitBody>, id: u128, i: int) -> Option<int>
    decreases bodies.len() - i,
{
    if i < 0 || i >= bodies.len() {
        Option::None
    } else if bodies[i].id == id {
        Option::Some(i)
    } else {
        find_body_from(bodies, id, i + 1)
    }
}

/// Index of the followed body, when one is followed and still exists.
pub open spec fn find_followed(bodies: Seq<OrbitBody>, follow: Option<u128>) -> Option<int> {
    match follow {
        Option::Some(id) => find_body_from(bodies, id, 0),
        Option::None => Option::None,
    }
}

/// Origin sample of `z` as if its destination had been redirected to
/// `dest` first.
pub open spec fn redirected_origin_sample(z: Zoomer, dest: Vec2, now: int) -> Vec2 {
    Vec2 {
        x: ease_value_at(
            z.easer.easing,
            z.easer.start as int,
            z.easer.duration as int,
            z.easer.transitions@[1].0 as int,
            dest.x as int,
            now,
        ) as i64,
        y: ease_value_at(
            z.easer.easing,
            z.easer.start as int,
            z.easer.duration as int,
            z.easer.transitions@[2].0 as int,
            dest.y as int,
            now,
        ) as i64,
    }
}

/// The state after one task application at `now`: a live zoomer drives
/// zoom and origin (retargeted to the followed body's center first);
/// without one, a followed body pins the origin directly.
pub open spec fn applied_state(t: Tasks, s: State, now: int) -> State {
    let found = find_followed(s.drawables.orbit_bodies@, t.follow);
    match t.zoom {
        Option::Some(z) => {
            let origin = match found {
                Option::Some(i) => redirected_origin_sample(
                    z,
                    s.drawables.orbit_bodies@[i].center,
                    now,
                ),
                Option::None => origin_sample(z, now),
            };
            State { zoom: zoom_sample(z, now) as i64, origin, ..s }
        },
        Option::None => match found {
            Option::Some(i) => State { origin: s.drawables.orbit_bodies@[i].center, ..s },
            Option::None => s,
        },
    }
}

/// The task set after one application: the follow survives only while
/// its body exists, the zoomer survives (retargeted while following)
/// only until its window passes.
pub open spec fn tasks_update_rel(t: Tasks, s: State, now: int, t1: Tasks) -> bool {
    let found = find_followed(s.drawables.orbit_bodies@, t.follow);
    &&& t1.follow == (match found {
        Option::Some(_) => t.follow,
        Option::None => Option::<u128>::None,
    })
    &&& match t.zoom {
        Option::Some(z) => {
            if zoomer_finished(z, now) {
                t1.zoom is None
            } else {
                t1.zoom matches Some(z1) && (match found {
                    Option::Some(i) => is_zoomer_with_dest(
                        z1,
                        z,
                        s.drawables.orbit_bodies@[i].center,
                    ),
                    Option::None => z1 == z,
                })
            }
        },
        Option::None => t1.zoom is None,
    }
}

/// Finds the first body carrying `id`.
fn find_body_index(bodies: &Vec<OrbitBody>, id: u128) -> (r: Option<usize>)
    ensures
        (match r {
            Option::Some(i) => i < bodies@.len() && find_body_from(bodies@, id, 0)
                == Option::Some(i as int),
            Option::None => find_body_from(bodies@, id, 0) is None,
        }),
{
    let n = bodies.len();
    let mut i: usize = 0;
    while i < n
        invariant
            n == bodies@.len(),
            i <= n,
            find_body_from(bodies@, id, 0) == find_body_from(bodies@, id, i as int),
        decreases n - i,
    {
        if bodies[i].id == id {
            return Some(i);
        }
        i = i + 1;
    }
    None
}

impl Tasks {
    /// No pending tasks.
    pub fn new() -> (r: Tasks)
        ensures
            r.zoom is None,
            r.follow is None,
            tasks_wf(r),
    {
        Tasks { zoom: None, follow: None }
    }

    /// The tasks a forward simulation should start from: none, since
    /// zoom and follow only move the view, never the world.
    pub fn world_affecting(&self) -> (r: Tasks)
        ensures
            r.zoom is None,
            r.follow is None,
            tasks_wf(r),
    {
        Tasks { zoom: None, follow: None }
    }

    /// Applies the pending tasks to the state at `now`.
    pub fn update(&mut self, state: &mut State, now: i64)
        requires
            tasks_wf(*old(self)),
            state_wf(*old(state)),
            -TIME_CAP <= now <= TIME_CAP,
        ensures
            *final(state) == applied_state(*old(self), *old(state), now as int),
            tasks_update_rel(*old(self), *old(state), now as int, *final(self)),
            tasks_wf(*final(self)),
            state_wf(*final(state)),
    {
        let mut following: Option<usize> = None;
        if let Some(id) = self.follow.take() {
            if let Some(i) = find_body_index(&state.drawables.orbit_bodies, id) {
                following = Some(i);
                self.follow = Some(id);
            }
        }

        if let Some(mut zoomer) = self.zoom.take() {
            if let Some(i) = following {
                let center = state.drawables.orbit_bodies[i].center;
                zoomer.update_origin_destination((center.x, center.y));
            }
            state.zoom = zoomer.zoom_at(now);
            state.origin = zoomer.origin_at(now);
            if !zoomer.finished_at(now) {
                self.zoom = Some(zoomer);
            }
        } else if let Some(i) = following {
            state.origin = state.drawables.orbit_bodies[i].center;
        }
    }
}

/// Applying the pending tasks twice at the same instant changes the
/// state only once: the second application returns it unchanged.
pub proof fn lemma_tasks_update_idempotent(t: Tasks, t1: Tasks, s: State, now: int)
    requires
        tasks_wf(t),
        state_wf(s),
        tasks_update_rel(t, s, now, t1),
    ensures
        applied_state(t1, applied_state(t, s, now), now) == applied_state(t, s, now),
{
    let s1 = applied_state(t, s, now);
    assert(s1.drawables == s.drawables);
}

} // verus!

verus! {

/// The zoom a wheel step aims for: scrolling away halves the zoom,
/// scrolling toward doubles it, scaled by the wheel delta and clamped to
/// the zoom bounds.
pub open spec fn wheel_target_zoom(cur: int, y: int) -> int {
    let factor = if y < 0 {
        cur
    } else {
        cur / 2
    };
    clamp_spec(cur - mul_div_spec(factor, y, SCALE as int), MIN_ZOOM as int, MAX_ZOOM as int)
}

/// The zoom the view is heading for: a pending zoomer's destination, or
/// the state's zoom.
pub open spec fn current_target_zoom(t: Tasks, s: State) -> int {
    match t.zoom {
        Option::Some(z) => z.easer.transitions@[0].1 as int,
        Option::None => s.zoom as int,
    }
}

/// `z` is the animation built by [`Zoomer::zoom_to_screen`] for these
/// arguments.
pub open spec fn is_zoom_to_screen(
    z: Zoomer,
    s: State,
    zoom: i64,
    px: int,
    py: int,
    now: int,
) -> bool {
    &&& zoomer_wf(z)
    &&& z.easer.easing == Easing::ExpoOut
    &&& z.easer.start == now
    &&& z.easer.duration == SCALE
    &&& z.easer.transitions@ =~= seq![
        (s.zoom, zoom),
        (s.origin.x, zoom_shift_x(s, zoom, px) as i64),
        (s.origin.y, zoom_shift_y(s, zoom, py) as i64),
    ]
}

/// `z` is the animation built by [`Zoomer::zoom_to_world`] for these
/// arguments.
pub open spec fn is_zoom_to_world(
    z: Zoomer,
    s: State,
    zoom: i64,
    dest: Vec2,
    now: int,
) -> bool {
    &&& zoomer_wf(z)
    &&& z.easer.easing == Easing::ExpoOut
    &&& z.easer.start == now
    &&& z.easer.duration == SCALE
    &&& z.easer.transitions@ =~= seq![(s.zoom, zoom), (s.origin.x, dest.x), (s.origin.y, dest.y)]
}

/// The world point under a pixel, as [`State::screen_to_world`] yields
/// it.
pub open spec fn click_world_point(s: State, px: int, py: int) -> Vec2 {
    Vec2 {
        x: (s.origin.x + stw_norm_x(s, px)) as i64,
        y: (s.origin.y + stw_norm_y(s, py)) as i64,
    }
}

/// Index of the first body whose disc contains `cp`, scanning from `i`.
pub open spec fn hit_body_from(bodies: Seq<OrbitBody>, cp: Vec2, i: int) -> Option<int>
    decreases bodies.len() - i,
{
    if i < 0 || i >= bodies.len() {
        Option::None
    } else if dist2_spec(cp, bodies[i].center) < sq(bodies[i].radius as int) {
        Option::Some(i)
    } else {
        hit_body_from(bodies, cp, i + 1)
    }
}

/// Pointer state: where the left button went down, the last pointer
/// position, and when the left button was last pressed.
#[derive(Clone, Copy, Debug)]
pub struct UserMouse {
    pub left_down: Option<(i32, i32)>,
    pub last_position: (i32, i32),
    pub last_left_click: i64,
}


/// The exact effect of one pointer event: how the pointer state `m0`,
/// the view state `s0` and the tasks `t0` become `m1`, `s1`, `t1`.
pub open spec fn mouse_handle_rel(
    m0: UserMouse,
    s0: State,
    t0: Tasks,
    e: InputEvent,
    now: int,
    m1: UserMouse,
    s1: State,
    t1: Tasks,
) -> bool {
    match e {
        InputEvent::Wheel { y } => {
            &&& m1 == m0
            &&& s1 == s0
            &&& t1.follow == t0.follow
            &&& t1.zoom matches Some(z) && is_zoom_to_screen(
                z,
                s0,
                wheel_target_zoom(current_target_zoom(t0, s0), y as int) as i64,
                m0.last_position.0 as int,
                m0.last_position.1 as int,
                now,
            )
        },
        InputEvent::MouseDown => {
            &&& s1 == s0
            &&& m1.left_down == Some(m0.last_position)
            &&& m1.last_position == m0.last_position
            &&& m1.last_left_click == now
            &&& {
                let cp = click_world_point(
                    s0,
                    m0.last_position.0 as int,
                    m0.last_position.1 as int,
                );
                let hit = hit_body_from(s0.drawables.orbit_bodies@, cp, 0);
                if now - m0.last_left_click < DBL_CLICK_TIME && hit is Some {
                    &&& t1.follow == Some(s0.drawables.orbit_bodies@[hit->Some_0].id)
                    &&& t1.zoom matches Some(z) && is_zoom_to_world(
                        z,
                        s0,
                        s0.zoom,
                        s0.origin,
                        now,
                    )
                } else {
                    t1.zoom is None && t1.follow is None
                }
            }
        },
        InputEvent::MouseUp => {
            &&& s1 == s0
            &&& t1 == t0
            &&& m1.left_down is None
            &&& m1.last_position == m0.last_position
            &&& m1.last_left_click == m0.last_left_click
        },
        InputEvent::MouseMove { x, y } => {
            &&& t1 == t0
            &&& m1.left_down == m0.left_down
            &&& m1.last_position == (x, y)
            &&& m1.last_left_click == m0.last_left_click
            &&& (match m0.left_down {
                Option::Some(_) => {
                    let last = m0.last_position;
                    s1 == State {
                        origin: Vec2 {
                            x: clamp_spec(
                                s0.origin.x + stw_norm_x(s0, last.0 as int) - stw_norm_x(
                                    s0,
                                    x as int,
                                ),
                                -POS_CAP as int,
                                POS_CAP as int,
                            ) as i64,
                            y: clamp_spec(
                                s0.origin.y + stw_norm_y(s0, last.1 as int) - stw_norm_y(
                                    s0,
                                    y as int,
                                ),
                                -POS_CAP as int,
                                POS_CAP as int,
                            ) as i64,
                        },
                        ..s0
                    }
                },
                Option::None => s1 == s0,
            })
        },
        _ => {
            &&& s1 == s0
            &&& t1 == t0
            &&& m1 == m0
        },
    }
}

/// The exact effect of one keyboard event: the state is untouched, and
/// a digit or Home key retargets the pending tasks.
pub open spec fn keys_handle_rel(
    s0: State,
    t0: Tasks,
    e: InputEvent,
    now: int,
    s1: State,
    t1: Tasks,
) -> bool {
    &&& s1 == s0
    &&& (match e {
        InputEvent::KeyDown { key } => {
            match key_body_index(s0.drawables.orbit_bodies@, key) {
                Option::Some(i) => {
                    &&& t1.follow is None
                    &&& t1.zoom matches Some(z) && is_zoom_to_world(
                        z,
                        s0,
                        s0.zoom,
                        s0.drawables.orbit_bodies@[i].center,
                        now,
                    )
                },
                Option::None => t1 == t0,
            }
        },
        _ => t1 == t0,
    })
}

impl UserMouse {
    /// Fresh pointer state; the last click is placed in the far past so
    /// that the first press never counts as a double click.
    pub fn new() -> (r: UserMouse)
        ensures
            r.left_down is None,
            r.last_position == (0i32, 0i32),
            r.last_left_click == -TIME_CAP,
    {
        UserMouse { left_down: None, last_position: (0, 0), last_left_click: -TIME_CAP }
    }

    /// Folds one event into the pointer state, the pending tasks and the
    /// view.
    pub fn handle(&mut self, state: &mut State, event: &InputEvent, tasks: &mut Tasks, now: i64)
        requires
            state_wf(*old(state)),
            tasks_wf(*old(tasks)),
            event_wf(*event),
            -TIME_CAP <= now <= TIME_CAP,
            -TIME_CAP <= old(self).last_left_click <= TIME_CAP,
        ensures
            state_wf(*final(state)),
            tasks_wf(*final(tasks)),
            -TIME_CAP <= final(self).last_left_click <= TIME_CAP,
            mouse_handle_rel(
                *old(self),
                *old(state),
                *old(tasks),
                *event,
                now as int,
                *final(self),
                *final(state),
                *final(tasks),
            ),
    {
        match *event {
            InputEvent::Wheel { y } => {
                let mut current_zoom = state.zoom;
                if let Some(zoomer) = &tasks.zoom {
                    current_zoom = zoomer.zoom_destination();
                }
                let factor = if y < 0 {
                    current_zoom
                } else {
                    current_zoom / 2
                };
                proof {
                    lemma_mul_div_cap(factor as int, y as int, SCALE as int, VAL_CAP as int, WHEEL_CAP as int);
                }
                let step = mul_div(factor, y, SCALE);
                let target = current_zoom - step;
                let new_zoom = if target < MIN_ZOOM {
                    MIN_ZOOM
                } else if target > MAX_ZOOM {
                    MAX_ZOOM
                } else {
                    target
                };
                tasks.zoom = Some(Zoomer::zoom_to_screen(new_zoom, self.last_position, state, now));
            },
            InputEvent::MouseDown => {
                self.left_down = Some(self.last_position);
                tasks.zoom = None;
                tasks.follow = None;
                if now - self.last_left_click < DBL_CLICK_TIME {
                    self.handle_double_click(state, tasks, now);
                }
                self.last_left_click = now;
            },
            InputEvent::MouseUp => {
                if self.left_down.is_some() {
                    self.left_down = None;
                }
            },
            InputEvent::MouseMove { x, y } => {
                if self.left_down.is_some() {
                    let last = self.last_position;
                    let from = state.screen_to_world_normalised(last.0, last.1);
                    let to = state.screen_to_world_normalised(x, y);
                    let rawx = state.origin.x + from.x - to.x;
                    let rawy = state.origin.y + from.y - to.y;
                    state.origin.x = if rawx < -POS_CAP {
                        -POS_CAP
                    } else if rawx > POS_CAP {
                        POS_CAP
                    } else {
                        rawx
                    };
                    state.origin.y = if rawy < -POS_CAP {
                        -POS_CAP
                    } else if rawy > POS_CAP {
                        POS_CAP
                    } else {
                        rawy
                    };
                }
                self.last_position = (x, y);
            },
            _ => {},
        }
    }

    /// On a double click, hit-tests the bodies under the pointer and
    /// starts following the first one hit.
    fn handle_double_click(&mut self, state: &mut State, tasks: &mut Tasks, now: i64)
        requires
            state_wf(*old(state)),
            tasks_wf(*old(tasks)),
            -TIME_CAP <= now <= TIME_CAP,
        ensures
            *final(state) == *old(state),
            *final(self) == *old(self),
            ({
                let cp = click_world_point(
                    *old(state),
                    old(self).last_position.0 as int,
                    old(self).last_position.1 as int,
                );
                let hit = hit_body_from(old(state).drawables.orbit_bodies@, cp, 0);
                match hit {
                    Option::Some(i) => {
                        &&& final(tasks).follow == Some(old(state).drawables.orbit_bodies@[i].id)
                        &&& final(tasks).zoom matches Some(z) && is_zoom_to_world(
                            z,
                            *old(state),
                            old(state).zoom,
                            old(state).origin,
                            now as int,
                        )
                    },
                    Option::None => *final(tasks) == *old(tasks),
                }
            }),
            tasks_wf(*final(tasks)),
    {
        let (px, py) = self.last_position;
        let cp = state.screen_to_world(px, py);
        let n = state.drawables.orbit_bodies.len();
        let ghost bodies = state.drawables.orbit_bodies@;
        let ghost cps = click_world_point(*state, px as int, py as int);
        let mut i: usize = 0;
        while i < n
            invariant
                state_wf(*state),
                *state == *old(state),
                *tasks == *old(tasks),
                *self == *old(self),
                tasks_wf(*tasks),
                -TIME_CAP <= now <= TIME_CAP,
                n == bodies.len(),
                bodies == state.drawables.orbit_bodies@,
                i <= n,
                cp == cps,
                px == old(self).last_position.0,
                py == old(self).last_position.1,
                cps == click_world_point(*old(state), px as int, py as int),
                -2 * POS_CAP <= cp.x <= 2 * POS_CAP,
                -2 * POS_CAP <= cp.y <= 2 * POS_CAP,
                hit_body_from(bodies, cps, 0) == hit_body_from(bodies, cps, i as int),
            decreases n - i,
        {
            let body = &state.drawables.orbit_bodies[i];
            let d2 = dist2(&cp, &body.center);
            let r2 = sq_u128(body.radius);
            if d2 < r2 {
                proof {
                    assert(hit_body_from(bodies, cps, i as int) == Option::Some(i as int));
                }
                tasks.zoom = Some(Zoomer::just_zoom(state.zoom, state, now));
                tasks.follow = Some(body.id);
                return ;
            }
            i = i + 1;
        }
        proof {
            assert(hit_body_from(bodies, cps, n as int) is None);
        }
    }
}

} // verus!

verus! {

/// A body's mass rounded to whole world units; bodies are compared by
/// this key when picking the heaviest.
pub open spec fn mass_key(m: int) -> int {
    (m + SCALE / 2) / (SCALE as int)
}

/// Index of the heaviest body by rounded mass, preferring the later one
/// on ties, scanning from `i` with `best` the choice so far.
pub open spec fn heaviest_from(bodies: Seq<OrbitBody>, i: int, best: int) -> int
    decreases bodies.len() - i,
{
    if i < 0 || i >= bodies.len() {
        best
    } else if mass_key(bodies[i].mass as int) >= mass_key(bodies[best].mass as int) {
        heaviest_from(bodies, i + 1, i)
    } else {
        heaviest_from(bodies, i + 1, best)
    }
}

/// The body a key press selects: a digit picks by position (`1` is the
/// first body, `0` the tenth), Home picks the heaviest.
pub open spec fn key_body_index(bodies: Seq<OrbitBody>, key: KeyCode) -> Option<int> {
    match key {
        KeyCode::Home => if bodies.len() == 0 {
            Option::None
        } else {
            Option::Some(heaviest_from(bodies, 1, 0))
        },
        KeyCode::Digit { d } => {
            let i: int = if d == 0 {
                9
            } else {
                d as int - 1
            };
            if d <= 9 && 0 <= i < bodies.len() {
                Option::Some(i)
            } else {
                Option::None
            }
        },
        _ => Option::None,
    }
}

/// Keyboard state; the handler itself is stateless.
#[derive(Clone, Copy, Debug, PartialEq, Eq, Structural)]
pub struct UserKeys {}

impl UserKeys {
    /// Fresh keyboard state.
    pub fn new() -> (r: UserKeys) {
        UserKeys {  }
    }

    /// Folds one event into the pending tasks: a digit or Home key
    /// starts an animation toward the selected body.
    pub fn handle(&mut self, state: &mut State, event: &InputEvent, tasks: &mut Tasks, now: i64)
        requires
            state_wf(*old(state)),
            tasks_wf(*old(tasks)),
            -TIME_CAP <= now <= TIME_CAP,
        ensures
            *final(self) == *old(self),
            state_wf(*final(state)),
            tasks_wf(*final(tasks)),
            keys_handle_rel(
                *old(state),
                *old(tasks),
                *event,
                now as int,
                *final(state),
                *final(tasks),
            ),
    {
        if let InputEvent::KeyDown { key } = *event {
            let target: Option<usize> = match key {
                KeyCode::Home => {
                    let n = state.drawables.orbit_bodies.len();
                    if n == 0 {
                        None
                    } else {
                        let ghost bodies = state.drawables.orbit_bodies@;
                        let mut best: usize = 0;
                        let mut i: usize = 1;
                        while i < n
                            invariant
                                n == bodies.len(),
                                bodies == state.drawables.orbit_bodies@,
                                state_wf(*state),
                                1 <= i <= n,
                                best < n,
                                heaviest_from(bodies, 1, 0) == heaviest_from(
                                    bodies,
                                    i as int,
                                    best as int,
                                ),
                            decreases n - i,
                        {
                            let mi = state.drawables.orbit_bodies[i].mass;
                            let mb = state.drawables.orbit_bodies[best].mass;
                            let ki: u64 = ((mi + SCALE / 2) as u64) / (SCALE as u64);
                            let kb: u64 = ((mb + SCALE / 2) as u64) / (SCALE as u64);
                            if ki >= kb {
                                best = i;
                            }
                            i = i + 1;
                        }
                        Some(best)
                    }
                },
                KeyCode::Digit { d } => {
                    if d > 9 {
                        None
                    } else {
                        let idx: usize = if d == 0 {
                            9
                        } else {
                            (d - 1) as usize
                        };
                        if idx < state.drawables.orbit_bodies.len() {
                            Some(idx)
                        } else {
                            None
                        }
                    }
                },
                _ => None,
            };
            if let Some(i) = target {
                let center = state.drawables.orbit_bodies[i].center;
                tasks.follow = None;
                tasks.zoom = Some(
                    Zoomer::zoom_to_world(state.zoom, (center.x, center.y), state, now),
                );
            }
        }
    }
}

} // verus!
