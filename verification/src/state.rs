//! The world snapshot published by the compute worker.

use vstd::prelude::*;
use crate::debug::ComputeDebugInfo;
use crate::ease::VAL_CAP;
use crate::fixed::Vec2;
use crate::fixed::clamp_spec;
use crate::fixed::clamp_world;
use crate::fixed::dist2;
use crate::fixed::dist2_spec;
use crate::fixed::div_trunc;
use crate::fixed::div_trunc_i128;
use crate::fixed::in_world;
use crate::fixed::sq;
use crate::fixed::sq_u128;
use crate::fixed::POS_CAP;
use crate::fixed::SCALE;
use crate::orbitbody::OrbitBody;
use crate::orbitbody::body_wf;
use crate::orbitbody::fresh_body_id;
use crate::orbitcurve::OrbitCurve;
use crate::orbitcurve::curve_in_world;

verus! {

/// Largest screen dimension, in pixels.
pub const SCREEN_CAP: u32 = 100_000;

/// The zoom the world starts at, in raw units.
pub const INITIAL_ZOOM: i64 = 16_000_000_000;

/// Everything the renderer draws: the bodies and their projected curves.
#[derive(Clone, Debug)]
pub struct Drawables {
    pub orbit_bodies: Vec<OrbitBody>,
    pub orbit_curves: Vec<OrbitCurve>,
}

/// Every body and every curve keeps its bounds.
pub open spec fn drawables_wf(d: Drawables) -> bool {
    &&& forall|i: int| 0 <= i < d.orbit_bodies@.len() ==> body_wf(#[trigger] d.orbit_bodies@[i])
    &&& forall|i: int|
        0 <= i < d.orbit_curves@.len() ==> curve_in_world(#[trigger] d.orbit_curves@[i])
}

/// The world snapshot: view parameters, flags, drawables and statistics.
#[derive(Clone, Debug)]
pub struct State {
    /// World point at the center of the view.
    pub origin: Vec2,
    /// Half-height of the view in world raw units.
    pub zoom: i64,
    pub screen_width: u32,
    pub screen_height: u32,
    pub user_quit: bool,
    pub pause: bool,
    pub drawables: Drawables,
    pub debug_info: ComputeDebugInfo,
}

/// The bounds a state keeps so that view math cannot overflow.
pub open spec fn state_wf(s: State) -> bool {
    &&& in_world(s.origin)
    &&& 0 <= s.zoom <= VAL_CAP
    &&& 1 <= s.screen_width <= SCREEN_CAP
    &&& 1 <= s.screen_height <= SCREEN_CAP
    &&& drawables_wf(s.drawables)
}

/// Width over height, in raw fixed-point units.
pub open spec fn aspect_spec(w: int, h: int) -> int {
    w * SCALE / h
}

/// The same state seen at another zoom.
pub open spec fn with_zoom(s: State, zoom: i64) -> State {
    State { zoom, ..s }
}

/// Horizontal world offset of a pixel column from the view center, held
/// inside the world box.
pub open spec fn stw_norm_x(s: State, px: int) -> int {
    let w = s.screen_width as int;
    let a = aspect_spec(w, s.screen_height as int);
    clamp_spec(
        div_trunc(s.zoom * a * (2 * px - w), w * SCALE),
        -POS_CAP as int,
        POS_CAP as int,
    )
}

/// Vertical world offset of a pixel row from the view center (screen y
/// grows downward, world y upward), held inside the world box.
pub open spec fn stw_norm_y(s: State, py: int) -> int {
    let h = s.screen_height as int;
    clamp_spec(div_trunc(s.zoom * (h - 2 * py), h), -POS_CAP as int, POS_CAP as int)
}

/// Any body further than `tol` from the surviving head of its curve; an
/// empty curve never mismatches.
pub open spec fn mismatch_spec(d: Drawables, tol: int) -> bool {
    exists|i: int|
        0 <= i < d.orbit_bodies@.len() && i < d.orbit_curves@.len()
            && (#[trigger] d.orbit_curves@[i]).plots@.len() > 0 && dist2_spec(
            d.orbit_curves@[i].plots@[0],
            d.orbit_bodies@[i].center,
        ) > sq(tol)
}

/// The fixed roster the world starts with: a heavy sun-like body at the
/// origin and three lighter ones strung out along the x axis, each with
/// its documented radius, mass and tangential velocity. Ids are random
/// and therefore unconstrained.
pub open spec fn initial_roster(bodies: Seq<OrbitBody>) -> bool {
    &&& bodies.len() == 4
    &&& bodies[0].center == (Vec2 { x: 0, y: 0 })
    &&& bodies[0].radius == 1_200_000_000
    &&& bodies[0].mass == 1_660_000_000_000
    &&& bodies[0].velocity == (Vec2 { x: 0, y: (-1_000_000_000) as i64 })
    &&& bodies[1].center == (Vec2 { x: 3_500_000_000, y: 0 })
    &&& bodies[1].radius == 900_000_000
    &&& bodies[1].mass == 1_000_000_000_000
    &&& bodies[1].velocity == (Vec2 { x: 0, y: 1_600_000_000 })
    &&& bodies[2].center == (Vec2 { x: 9_000_000_000, y: 0 })
    &&& bodies[2].radius == 300_000_000
    &&& bodies[2].mass == 1_000_000_000
    &&& bodies[2].velocity == (Vec2 { x: 0, y: 2_000_000_000 })
    &&& bodies[3].center == (Vec2 { x: (-12_000_000_000) as i64, y: 0 })
    &&& bodies[3].radius == 400_000_000
    &&& bodies[3].mass == 2_000_000_000
    &&& bodies[3].velocity == (Vec2 { x: 0, y: (-1_500_000_000) as i64 })
}

impl Drawables {
    /// The four bodies the world starts with, and no curves yet.
    fn initial() -> (r: Drawables)
        ensures
            initial_roster(r.orbit_bodies@),
            r.orbit_curves@.len() == 0,
            drawables_wf(r),
    {
        let mut orbit_bodies: Vec<OrbitBody> = Vec::new();
        orbit_bodies.push(
            OrbitBody {
                id: fresh_body_id(),
                center: Vec2 { x: 0, y: 0 },
                radius: 1_200_000_000,
                mass: 1_660_000_000_000,
                velocity: Vec2 { x: 0, y: -1_000_000_000 },
            },
        );
        orbit_bodies.push(
            OrbitBody {
                id: fresh_body_id(),
                center: Vec2 { x: 3_500_000_000, y: 0 },
                radius: 900_000_000,
                mass: 1_000_000_000_000,
                velocity: Vec2 { x: 0, y: 1_600_000_000 },
            },
        );
        orbit_bodies.push(
            OrbitBody {
                id: fresh_body_id(),
                center: Vec2 { x: 9_000_000_000, y: 0 },
                radius: 300_000_000,
                mass: 1_000_000_000,
                velocity: Vec2 { x: 0, y: 2_000_000_000 },
            },
        );
        orbit_bodies.push(
            OrbitBody {
                id: fresh_body_id(),
                center: Vec2 { x: -12_000_000_000, y: 0 },
                radius: 400_000_000,
                mass: 2_000_000_000,
                velocity: Vec2 { x: 0, y: -1_500_000_000 },
            },
        );
        Drawables { orbit_bodies, orbit_curves: Vec::new() }
    }

    /// True when some body sits further than `fault_tolerance` from the
    /// oldest surviving plot of its curve.
    pub fn curve_body_mismatch(&self, fault_tolerance: i64) -> (r: bool)
        requires
            drawables_wf(*self),
        ensures
            r == mismatch_spec(*self, fault_tolerance as int),
    {
        let tol2: u128 = sq_u128(fault_tolerance);
        let n: usize = if self.orbit_bodies.len() <= self.orbit_curves.len() {
            self.orbit_bodies.len()
        } else {
            self.orbit_curves.len()
        };
        let mut i: usize = 0;
        while i < n
            invariant
                drawables_wf(*self),
                tol2 == sq(fault_tolerance as int),
                n <= self.orbit_bodies@.len(),
                n <= self.orbit_curves@.len(),
                i <= n,
                n == (if self.orbit_bodies@.len() <= self.orbit_curves@.len() {
                    self.orbit_bodies@.len()
                } else {
                    self.orbit_curves@.len()
                }),
                forall|j: int|
                    0 <= j < i ==> !((#[trigger] self.orbit_curves@[j]).plots@.len() > 0
                        && dist2_spec(
                        self.orbit_curves@[j].plots@[0],
                        self.orbit_bodies@[j].center,
                    ) > sq(fault_tolerance as int)),
            decreases n - i,
        {
            if self.orbit_curves[i].plots.len() > 0 {
                let head = self.orbit_curves[i].plots[0];
                let d2 = dist2(&head, &self.orbit_bodies[i].center);
                if d2 > tol2 {
                    return true;
                }
            }
            i = i + 1;
        }
        false
    }
}

impl State {
    /// A fresh world for the given screen size.
    pub fn new(screen_width: u32, screen_height: u32) -> (r: State)
        requires
            1 <= screen_width <= SCREEN_CAP,
            1 <= screen_height <= SCREEN_CAP,
        ensures
            r.origin == (Vec2 { x: 0, y: 0 }),
            r.zoom == INITIAL_ZOOM,
            r.screen_width == screen_width,
            r.screen_height == screen_height,
            !r.user_quit,
            !r.pause,
            initial_roster(r.drawables.orbit_bodies@),
            r.drawables.orbit_bodies@.len() == 4,
            r.drawables.orbit_curves@.len() == 0,
            r.debug_info.mean_cps == 0,
            state_wf(r),
    {
        State {
            origin: Vec2 { x: 0, y: 0 },
            zoom: INITIAL_ZOOM,
            screen_width,
            screen_height,
            user_quit: false,
            pause: false,
            drawables: Drawables::initial(),
            debug_info: ComputeDebugInfo::initial(),
        }
    }

    /// Width over height of the screen, in raw units.
    pub fn aspect_ratio(&self) -> (r: i64)
        requires
            1 <= self.screen_height,
            self.screen_width <= SCREEN_CAP,
        ensures
            r == aspect_spec(self.screen_width as int, self.screen_height as int),
            0 <= r <= SCREEN_CAP * SCALE,
    {
        let num: u64 = (self.screen_width as u64) * (SCALE as u64);
        let r: u64 = num / (self.screen_height as u64);
        proof {
            assert(num / (self.screen_height as u64) <= num) by (nonlinear_arith)
                requires
                    self.screen_height >= 1,
            ;
        }
        r as i64
    }

    /// World offset of a pixel from the view center, as it would be at
    /// the given zoom.
    pub fn world_offset_at_zoom(&self, zoom: i64, px: i32, py: i32) -> (r: Vec2)
        requires
            1 <= self.screen_width <= SCREEN_CAP,
            1 <= self.screen_height <= SCREEN_CAP,
            0 <= zoom <= VAL_CAP,
        ensures
            r.x == stw_norm_x(with_zoom(*self, zoom), px as int),
            r.y == stw_norm_y(with_zoom(*self, zoom), py as int),
            in_world(r),
    {
        let w: i128 = self.screen_width as i128;
        let h: i128 = self.screen_height as i128;
        let a: i128 = self.aspect_ratio() as i128;
        let zoom: i128 = zoom as i128;
        let tx: i128 = 2 * (px as i128) - w;
        let ty: i128 = h - 2 * (py as i128);
        proof {
            assert(0 <= zoom * a <= 100_000_000_000_000i128 * 100_000_000_000_000i128)
                by (nonlinear_arith)
                requires
                    0 <= zoom <= 100_000_000_000_000i128,
                    0 <= a <= 100_000_000_000_000i128,
            ;
        }
        let za: i128 = zoom * a;
        proof {
            assert(za * tx <= 10_000_000_000_000_000_000_000_000_000i128 * 5_000_000_000i128
                && za * tx >= -(10_000_000_000_000_000_000_000_000_000i128 * 5_000_000_000i128))
                by (nonlinear_arith)
                requires
                    0 <= za <= 10_000_000_000_000_000_000_000_000_000i128,
                    -5_000_000_000i128 <= tx <= 5_000_000_000i128,
            ;
            assert(zoom * ty <= 100_000_000_000_000i128 * 5_000_000_000i128 && zoom * ty >= -(
            100_000_000_000_000i128 * 5_000_000_000i128)) by (nonlinear_arith)
                requires
                    0 <= zoom <= 100_000_000_000_000i128,
                    -5_000_000_000i128 <= ty <= 5_000_000_000i128,
            ;
        }
        let numx: i128 = za * tx;
        let numy: i128 = zoom * ty;
        let x: i64 = clamp_world(div_trunc_i128(numx, w * (SCALE as i128)));
        let y: i64 = clamp_world(div_trunc_i128(numy, h));
        Vec2 { x, y }
    }

    /// World offset of a pixel from the view center under the current
    /// zoom and aspect ratio.
    pub fn screen_to_world_normalised(&self, px: i32, py: i32) -> (r: Vec2)
        requires
            state_wf(*self),
        ensures
            r.x == stw_norm_x(*self, px as int),
            r.y == stw_norm_y(*self, py as int),
            in_world(r),
    {
        let r = self.world_offset_at_zoom(self.zoom, px, py);
        proof {
            assert(with_zoom(*self, self.zoom) == *self);
        }
        r
    }

    /// The world point under a pixel: the view origin plus the pixel's
    /// world offset.
    pub fn screen_to_world(&self, px: i32, py: i32) -> (r: Vec2)
        requires
            state_wf(*self),
        ensures
            r.x == self.origin.x + stw_norm_x(*self, px as int),
            r.y == self.origin.y + stw_norm_y(*self, py as int),
            -2 * POS_CAP <= r.x <= 2 * POS_CAP,
            -2 * POS_CAP <= r.y <= 2 * POS_CAP,
    {
        let n = self.screen_to_world_normalised(px, py);
        Vec2 { x: self.origin.x + n.x, y: self.origin.y + n.y }
    }
}

} // verus!
