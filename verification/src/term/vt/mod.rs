//! Terminal protocols.

pub mod emit;
pub mod keys;
