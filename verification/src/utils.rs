//! Configuration and theme scaffolding.

pub mod config_handler;
pub mod create_theme;
