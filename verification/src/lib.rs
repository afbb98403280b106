//! Core of an interactive gravitational n-body simulator.
//!
//! The crate is organised around a multi-threaded temporal pipeline: a
//! compute worker advances the world state at a fixed cadence, a renderer
//! samples the latest snapshot through a latest-value channel, and a seer
//! worker simulates the same physics ahead of real time to project orbit
//! curves, with an apprentice protocol that refreshes drifting projections.
//!
//! All world geometry is carried in fixed-point units (see [`fixed`]) so
//! that every arithmetic step has an exact, checkable meaning.

use vstd::prelude::*;

pub mod compute;
pub mod debug;
pub mod ease;
pub mod fixed;
pub mod input;
pub mod orbitbody;
pub mod orbitcurve;
pub mod seer;
pub mod smooth;
pub mod state;
pub mod svsc;
