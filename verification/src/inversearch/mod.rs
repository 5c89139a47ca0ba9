//! The embedded inverted-index library and the in-memory side of its
//! storage backends.

pub mod embedded;
pub mod index;
pub mod serialize;
pub mod storage;
