//! A voxel terrain meshing library.
//!
//! A continuous density field (negative values are solid, non-negative values
//! are empty) is sampled over cubic chunks of an unbounded chunk lattice, and
//! each chunk is turned into a triangle mesh by the Marching Cubes case
//! analysis. A streaming controller tracks a set of chunk coordinates and, on
//! a fixed cadence, decides per chunk whether to (re)generate its mesh at a
//! distance-dependent level of detail or to discard it.
//!
//! All geometry is carried in signed 16.16 fixed-point coordinates, so every
//! stage of the pipeline is exact and deterministic: the same chunk
//! coordinate, resolution and density field always produce the same mesh,
//! bit for bit.

pub mod chunk;
pub mod field;
pub mod grid;
pub mod marching;
pub mod math;
pub mod streamer;
pub mod tables;

pub use math::FixedVec3;
