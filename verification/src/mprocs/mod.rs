//! The settings of the older configuration format.

pub mod settings;
