//! Verified building blocks of a full-text search service: a time-bounded LRU
//! query cache, an embedded document index with batched updates, and the
//! in-memory side of the index storage backends.

pub mod bm25;
pub mod clock;
pub mod inversearch;
pub mod lemmas;
pub mod text;
