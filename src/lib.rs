//! A single-agent reward grid with a one-step greedy move policy.
//!
//! The agent walks on an `H` x `W` grid of rewards, collecting each reward at
//! most once, for a fixed number of turns. The state, the move enumerator,
//! the transition and both policies are specified over the ghost model in
//! [`model`] and verified against it.

pub mod coord;
pub mod model;
pub mod maze;
pub mod laws;
mod random;

pub use coord::Coord;
pub use maze::{GameError, MazeState};
pub use model::{END_TURN, H, MAX_REWARD, W};
