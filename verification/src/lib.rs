//! A harness for building AI agents: messages and models, middleware,
//! guardrails, memory, sandboxes, skills and subagents.
pub mod text;
pub mod error;
pub mod messages;
pub mod models;
pub mod strmap;
pub mod agents;
pub mod config;
mod ids;
pub mod subagents;
pub mod sandbox;
pub mod runtime;
pub mod guardrails;
pub mod memory;
pub mod mcp;
pub mod skills;
