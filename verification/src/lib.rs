//! Runs the tasks of a project and shows them in a terminal.

pub mod attach_client;
pub mod command;
pub mod config;
pub mod console;
pub mod dekit;
pub mod kernel;
pub mod mprocs;
pub mod protocol;
pub mod runner;
pub mod target;
pub mod term;
pub mod term_driver;
pub mod text;
pub mod wire;
