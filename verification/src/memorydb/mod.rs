//! Key-value storage backends with per-key time-to-live.

pub mod default;
pub mod interface;

pub use interface::MemoryDB;
