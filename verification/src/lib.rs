//! Session management, key-value storage, CSRF policy, i18n and response
//! helpers for web services, with machine-checked contracts on the core
//! logic: the in-memory TTL store with capacity eviction, the session
//! state machine, the state serialization codec and the locale table.

pub mod error;
pub mod i18n;
pub mod memorydb;
pub mod pattern;
pub mod response;
pub mod response_build;
pub mod router;
pub mod security;
pub mod session;
pub mod utils;
pub mod strutil;

pub use error::Error;
pub use error::Result;
