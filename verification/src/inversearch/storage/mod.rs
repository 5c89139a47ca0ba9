//! The in-memory side of the storage backends.

pub mod cached;
pub mod factory;
pub mod json;
pub mod file;
pub mod metrics;
pub mod postings;
pub mod redis;
pub mod tables;
pub mod types;
pub mod utils;
