//! Chat, HUD texture and main menu state.

pub mod chat;
pub mod hud;
pub mod menu;
