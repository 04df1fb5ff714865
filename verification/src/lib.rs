//! Verified core of a small Minecraft client: chat and menu state, input
//! handling, block model resolution, the block texture registry and the
//! integer side of meshing and panorama assembly.

pub mod assoc;
pub mod renderer;
pub mod world;
pub mod text;
pub mod ui;
pub mod window;
