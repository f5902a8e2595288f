//! Tasks: their names, their states and the messages that drive them.

pub mod kernel_message;
pub mod namespace;
pub mod task;
pub mod task_key;
pub mod task_path;
pub mod task_screen;
