//! Construction of storage backends from configuration.

use crate::inversearch::index::DocId;
use crate::inversearch::storage::file::FileStorage;
use crate::inversearch::storage::redis::RedisStorageConfig;
use vstd::prelude::*;
use vstd::string::*;

verus! {

/// Builds storage backends.
pub struct StorageFactory;

impl StorageFactory {
    /// A file storage under the configured base path, or under `./data` when
    /// no file configuration is given.
    pub fn create_file(file_base_path: Option<String>) -> (s: FileStorage)
        ensures
            s.well_formed(),
            s.path() == match file_base_path {
                Some(p) => p@,
                None => "./data"@,
            },
            s.tables().documents() == Map::<DocId, Seq<char>>::empty(),
            s.tables().postings() == Map::<Seq<char>, Seq<DocId>>::empty(),
            !s.opened(),
    {
        let path = match file_base_path {
            Some(p) => p,
            None => String::from_str("./data"),
        };
        FileStorage::new(path)
    }

    /// Settings of a Redis backend: the configured server address and pool
    /// size over the defaults, or the defaults when no Redis configuration is
    /// given.
    pub fn redis_config(redis: Option<(String, usize)>) -> (c: RedisStorageConfig)
        ensures
            c.key_prefix@ == "inversearch"@,
            match redis {
                Some((url, pool_size)) => c.url@ == url@ && c.pool_size == pool_size,
                None => c.url@ == "redis://127.0.0.1:6379"@ && c.pool_size == 10,
            },
    {
        let defaults = RedisStorageConfig::default();
        match redis {
            Some((url, pool_size)) => RedisStorageConfig { url, pool_size, ..defaults },
            None => defaults,
        }
    }
}

} // verus!
