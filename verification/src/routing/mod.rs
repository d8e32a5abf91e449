//! Model aliases, request shapes and the fallback executor.
pub mod table;
pub mod request;
pub mod executor;
pub mod chain_laws;
