//! Core of a sparse-voxel raymarching renderer: the voxel world with its
//! byte serialization, the camera and input integrator, and the per-frame
//! orchestration state machine. GPU submission, windowing and asset I/O
//! live outside this crate; this library owns every decision and every
//! byte that crosses that boundary.

pub mod camera;
pub mod input;
mod rng;
pub mod state;
pub mod voxel;
pub mod world;

pub use camera::Camera;
pub use camera::Vec2;
pub use camera::Vec3;
pub use state::State;
pub use voxel::Voxel;
pub use world::World;
