//! The executor inside a cell: flows and background services.

pub mod args;
pub mod hooks;
pub mod rules;
pub mod run;
pub mod service;
