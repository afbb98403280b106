//! Orbiting bodies of the simulated world.

use vstd::prelude::*;
use crate::fixed::Vec2;
use crate::fixed::clamp_spec;
use crate::fixed::in_world;
use crate::fixed::lemma_mul_div_le;
use crate::fixed::abs_spec;
use crate::fixed::mul_div;
use crate::fixed::mul_div_spec;
use crate::fixed::DT_CAP;
use crate::fixed::MASS_CAP;
use crate::fixed::POS_CAP;
use crate::fixed::SCALE;

verus! {

/// A body of the world: a stable identifier, a position, a radius, a
/// mass and a velocity, all in raw fixed-point units.
#[derive(Debug, Clone, Copy, PartialEq, Eq, Structural)]
pub struct OrbitBody {
    pub id: u128,
    pub center: Vec2,
    pub radius: i64,
    pub mass: i64,
    pub velocity: Vec2,
}

/// The bounds every body keeps: position and velocity inside the world
/// box, mass and radius non-negative and capped.
pub open spec fn body_wf(b: OrbitBody) -> bool {
    &&& in_world(b.center)
    &&& in_world(b.velocity)
    &&& 0 <= b.mass <= MASS_CAP
    &&& 0 <= b.radius <= POS_CAP
}

/// One position coordinate advanced by its velocity over `dt`, held
/// inside the world box.
pub open spec fn advance_coord(c: int, v: int, dt: int) -> int {
    clamp_spec(c + mul_div_spec(v, dt, SCALE as int), -POS_CAP as int, POS_CAP as int)
}

/// A body after one position step: the center moves by `velocity * dt`,
/// everything else is unchanged.
pub open spec fn moved_body(b: OrbitBody, dt: int) -> OrbitBody {
    OrbitBody {
        center: Vec2 {
            x: advance_coord(b.center.x as int, b.velocity.x as int, dt) as i64,
            y: advance_coord(b.center.y as int, b.velocity.y as int, dt) as i64,
        },
        ..b
    }
}

/// Relies on uuid::Uuid::new_v4 and Uuid::as_u128: a fresh random
/// 128-bit identifier. The value is random, so nothing is promised of it.
#[verifier::external_body]
pub fn fresh_body_id() -> u128 {
    uuid::Uuid::new_v4().as_u128()
}

/// One coordinate advanced and clamped, executably.
fn advance(c: i64, v: i64, dt: i64) -> (r: i64)
    requires
        -POS_CAP <= c <= POS_CAP,
        -POS_CAP <= v <= POS_CAP,
        0 <= dt <= DT_CAP,
    ensures
        r == advance_coord(c as int, v as int, dt as int),
        -POS_CAP <= r <= POS_CAP,
{
    proof {
        lemma_mul_div_le(abs_spec(v as int), dt as int, SCALE as int);
    }
    let step: i64 = mul_div(v, dt, SCALE);
    let moved: i64 = c + step;
    if moved < -POS_CAP {
        -POS_CAP
    } else if moved > POS_CAP {
        POS_CAP
    } else {
        moved
    }
}

impl OrbitBody {
    /// Integrates the position one step: `center += velocity * dt`.
    pub fn update(&mut self, delta: i64)
        requires
            body_wf(*old(self)),
            0 <= delta <= DT_CAP,
        ensures
            *final(self) == moved_body(*old(self), delta as int),
            body_wf(*final(self)),
    {
        self.center.x = advance(self.center.x, self.velocity.x, delta);
        self.center.y = advance(self.center.y, self.velocity.y, delta);
    }
}

} // verus!
