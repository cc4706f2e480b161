//! Cells with sessions: virtual machines that are entered by shell and stopped
//! when nobody uses them.

pub mod cell;
pub mod cli;
pub mod config;
pub mod dns;
pub mod flake;
pub mod git;
pub mod pool;
pub mod proxy;
pub mod request;
pub mod server;
pub mod shell;
pub mod vm;
