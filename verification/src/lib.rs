//! Fixed-point simulation core for a top-down survival arena game.
//!
//! All quantities are integers: positions and stats are 64-bit fixed-point
//! values with four decimal digits of precision (see [`fixed::FP`]), and
//! times are unsigned milliseconds. The rendering, audio, input and clock
//! collaborators live outside this crate and hand plain values in.

pub mod combat;
pub mod enemy;
pub mod fixed;
pub mod money;
pub mod player;
pub mod rng;
pub mod shop;
pub mod timer;
pub mod utilities;
pub mod vec2;
pub mod waves;

