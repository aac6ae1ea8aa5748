//! Deterministic simulation core of a two-paddle ball game.
//!
//! Lengths are integers in thousandths of a world unit, durations in
//! microseconds, and ball directions are integer vectors scaled so that a
//! unit direction has length `DIR_SCALE`.

pub mod ball;
pub mod field;
pub mod game;
pub mod paddle;
pub mod scoring;
pub mod serve;
