//! Sandboxed development cells: the rules, text formats and state machines
//! behind the `cella` and `cellx` programs.

pub mod cella;
pub mod cellx;
pub mod command;
pub mod flow;
pub mod http;
pub mod json;
pub mod names;
pub mod path;
pub mod session;
pub mod text;
