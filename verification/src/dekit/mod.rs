//! The runner: it serves clients from a kernel.

pub mod attach;
pub mod boot;
pub mod connection;
pub mod rpc_client;
pub mod server;
