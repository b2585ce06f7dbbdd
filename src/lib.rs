//! A verified model of a two-player Pong round: fixed-point motion, collision-side
//! resolution between axis-aligned boxes, score keeping and the round lifecycle.
pub mod geometry;
pub mod motion;
pub mod game;
