//! Paw pong: two paws deflect bouncing balls inside a 100 x 100 arena.
//!
//! The library holds the game's rules, verified: fixed-point positions and
//! velocities (`geometry`), wall and paw collisions (`physics`), the
//! touch-driven paw controller (`paddles`), the splash and menu timers
//! (`screens`), and the per-frame step through the screens (`world`).
//! One frame moves every body by its velocity once (a fixed time step).

pub mod geometry;
pub mod physics;
pub mod paddles;
pub mod screens;
pub mod world;
