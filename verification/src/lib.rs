//! Routing, fallback and accounting logic of an OpenAI-compatible LLM gateway.
pub mod error;
pub mod text;
pub mod config;
pub mod routing;
pub mod vertex_native;
pub mod providers;
pub mod server;
pub mod ledger;
