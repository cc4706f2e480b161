//! The client and the server side of cells that run flows.

pub mod cli;
pub mod client;
pub mod config;
pub mod exec;
pub mod gc;
pub mod proxy;
pub mod secrets;
pub mod transport;
pub mod tunnel;
