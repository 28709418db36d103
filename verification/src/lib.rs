//! Coordination of multi-party computation sessions.

pub mod client;
pub mod error_chain;
pub mod ids;
pub mod manager;
pub mod protocol;
pub mod router;
pub mod security;
pub mod signing;
pub mod text;
pub mod uuids;

pub use error_chain::error_chain_fmt;
pub use security::Mid;
