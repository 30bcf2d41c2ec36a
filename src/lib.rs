//! A chunked voxel world: coordinates, chunk storage, surface extraction and
//! the bookkeeping of the generation and meshing pipeline.

pub mod coord;
pub mod voxel;
pub mod chunk;
pub mod accessor;
pub mod mesh;
pub mod meshgen;
pub mod world;
pub mod debug;
