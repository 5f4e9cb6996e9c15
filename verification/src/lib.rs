//! Skeletal character animation core.
//!
//! The crate evaluates a blend tree of animation clips into per-joint local
//! poses at an arbitrary playback time, composes local poses into global
//! (skeleton-space) transforms, and hands the result to a renderer.
//!
//! All quantities are fixed-point integers: a value `v` stands for the real
//! number `v / 1_000_000`. This keeps every arithmetic step exact and lets
//! each operation carry a full functional contract.

pub mod blend_tree;
pub mod clip;
pub mod controller;
pub mod dualquat;
pub mod errors;
pub mod fixed;
pub mod menu;
pub mod params;
pub mod pose;
pub mod skeleton;
pub mod quat;
pub mod qv;
pub mod transform;
pub mod vec3;
