//! Runner processes.

pub mod kill;
pub mod proc_stat;
