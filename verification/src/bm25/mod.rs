//! The query cache and the storage configuration of the BM25 service.

pub mod cache;
pub mod shared_cache;
pub mod storage;
