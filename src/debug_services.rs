pub mod api;
pub mod commands;
pub mod commands_registry;
pub mod profile;
pub mod render;
pub mod state;
