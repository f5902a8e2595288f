//! Windows over the console.

pub mod modal;
pub mod remove_task;
pub mod rename_task;
