//! The parts that the console is drawn from.

pub mod list;
pub mod text_input;
