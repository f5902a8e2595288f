//! The console: a terminal view of the tasks.

pub mod action;
pub mod action_laws;
pub mod app;
pub mod app_laws;
pub mod app_layout;
pub mod client;
pub mod effect;
pub mod keymap;
pub mod modal;
pub mod state;
pub mod task_view;
pub mod ui_tasks;
pub mod ui_term;
pub mod ui_zoom_tip;
pub mod widgets;
pub mod unique_name;
