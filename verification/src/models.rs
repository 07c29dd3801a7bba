//! Models: the messages exchanged with them, the factory that picks a
//! provider, and the request and response formats of the providers.
pub mod base;
pub mod sse;
pub mod provider;
pub mod anthropic;
pub mod openai;
pub mod factory;
