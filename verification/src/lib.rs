//! Tick-based box physics: movement integration, axis-separated collision
//! resolution against static geometry, hit bookkeeping and groundedness,
//! over exact fixed-point arithmetic.

pub mod components;
pub mod direction;
pub mod fixed;
pub mod grounded;
pub mod laws;
pub mod movement;
pub mod physics;
pub mod resolve;
pub mod shape;
pub mod vec3;
pub mod world;
