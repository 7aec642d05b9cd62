//! Decision core of a first-person physics sandbox.
//!
//! The crate holds the rules of the sandbox as functions from plain values to
//! plain values: what the player controller does with one frame of input, how
//! blasts age and whom they push, and how the ball gun keeps count of its
//! props. Vectors, directions and entity handles of the engine are carried
//! through untouched; the arithmetic on them is the caller's.

pub mod ballgun;
pub mod engine;
pub mod player;
pub mod rocket;
