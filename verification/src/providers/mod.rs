//! Provider credentials.
pub mod vertex_auth;
pub mod credentials;
