//! The game rules of a small space shooter: how enemies are grouped into
//! formations and spawned, how laser hits are resolved, how the player's
//! trigger and movement keys are read, and how explosions are animated.
//!
//! Everything that touches floating-point geometry, rendering, input devices
//! or randomness lives in the application around this library; what is here
//! works on plain values and is verified.

pub mod combat;
pub mod enemies;
pub mod explosion;
pub mod formation;
pub mod player;

use vstd::prelude::*;

verus! {

/// How many enemies may be alive at the same time.
pub const ENEMY_MAX: u32 = 2;

/// How many enemies share one formation before a new formation is opened.
pub const MAX_FORMATION_MEMBERS: u32 = 2;

} // verus!
