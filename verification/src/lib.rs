//! Simulation core of a grid-based snake game.
//!
//! A single snake, made of an ordered chain of body segments, moves on a
//! fixed 10x10 arena, eats spawned food to grow, and resets to its starting
//! configuration on self-collision or boundary exit.  Rendering, windowing
//! and input polling are external collaborators and live outside this crate;
//! everything here is the tick-driven state machine itself.

pub mod game;
pub mod grid;
pub mod rng;
