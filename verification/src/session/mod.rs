//! Session management: the session key codec, the per-request state
//! container, the store that persists state through a key-value backend,
//! and the middleware state machine that reconciles the two per request.

pub mod json;
pub mod key;
pub mod state;
pub mod storage;
pub mod config;
pub mod middleware;
