//! Simulation core of a top-down arcade space shooter, in fixed-point integers.
//!
//! Positions and velocities are in milli-pixels, angles in whole degrees,
//! time in milliseconds. `state::MainState` holds a session and
//! `MainState::update` advances it by one tick; the other modules hold the
//! pieces a tick is made of.
use vstd::prelude::*;

pub mod collide;
pub mod entity;
pub mod geom;
pub mod motion;
pub mod physics;
pub mod progression;
pub mod rng;
pub mod state;
pub mod tick;
pub mod trig;
pub mod world;
