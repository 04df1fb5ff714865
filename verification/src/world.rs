//! Blocks of the world and how they are textured.

pub mod block;
