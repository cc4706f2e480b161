//! Flows: their configuration, their ops and their state.

pub mod config;
pub mod op;
pub mod state;
pub mod time;
