//! The configuration.

pub mod config;
pub mod hook;
pub mod index_map;
pub mod keymap;
pub mod node;
pub mod tui;
pub mod yaml;
