//! Chunk meshing.

pub mod mesher;
