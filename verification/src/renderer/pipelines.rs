//! Render pipelines.

pub mod cull;
pub mod panorama;
