//! Simulation core of a top-down arcade shooter.
//!
//! All geometry is carried in milli-units: one world unit is 1000, so a
//! sprite 74 units wide has half-extent 37_000 and a direction vector of
//! unit length has squared length close to 1_000_000.  Time is carried in
//! milliseconds.  The frame driver (outside this crate) feeds elapsed time
//! and an input snapshot into the systems each frame and renders whatever
//! entities the registry holds afterwards.

pub mod math;
pub mod meteor;
pub mod player;
pub mod rng;
pub mod state;
pub mod world;

use vstd::prelude::*;

verus! {

/// The two-state lifecycle gating the gameplay systems: they run only in
/// `Game`.  `GameOver` is part of the model, but nothing here transitions
/// into it; it is kept as a dead state on purpose.
#[derive(Clone, Copy, PartialEq, Eq, Structural, Debug, Hash)]
pub enum AppState {
    Game,
    GameOver,
}

impl Default for AppState {
    /// The lifecycle starts in `Game`.
    fn default() -> (r: Self)
        ensures
            r == AppState::Game,
    {
        AppState::Game
    }
}

} // verus!
