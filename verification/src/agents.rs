//! Agents: their state, middlewares and runs.
pub mod state;
pub mod middleware;
pub mod builtin;
pub mod chain;
pub mod run;
