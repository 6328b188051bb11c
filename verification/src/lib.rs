//! Core of a two-paddle arcade bounce simulation: per-tick ball physics
//! (integration, iterative wall depenetration, reflective bounce) and
//! paddle input handling, over fixed-point arithmetic.
//!
//! All world quantities (positions, velocities, lengths, seconds) are
//! carried as `i64` counts of thousandths of a world unit, so one world
//! unit is `FX_ONE == 1000` and the depenetration factor of one tenth is
//! an exact division.

pub mod ball_system;
pub mod paddle;
pub mod pong;
pub mod vec2;
