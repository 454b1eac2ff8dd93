//! Simulation core of a physics-based side-scrolling platformer.
//!
//! A ball-shaped avatar rolls, bounces and propels itself across a level made
//! of oriented line-segment surfaces and triangular flow tiles.  The crate
//! covers the level geometry queries, the per-tick physics of the avatar
//! (integration, impulse-based collision response, cannons, portals and the
//! propulsion state machine), the network reconciler that plays back remote
//! snapshots, and a deterministic record/rewind facility.
//!
//! All quantities are fixed-point numbers: an `i64` counts millionths of a
//! unit, so the arithmetic is exact and every function can carry a precise
//! contract.

pub mod collision;
pub mod farticle;
pub mod fx;
pub mod game;
pub mod guy;
pub mod laws;
pub mod level;
pub mod net;
pub mod physics;
pub mod progress;
pub mod surface;
pub mod tas;
pub mod tile;
pub mod trig;
pub mod vec2;
