//! Block models and the block texture registry.

pub mod model;
pub mod registry;
