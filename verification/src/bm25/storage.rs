//! Configuration of the storage backends of the BM25 service, and the
//! naming of the keys of its Redis backend.

use crate::clock::duration_from_secs;
use crate::inversearch::storage::redis::{redis_key, size_sum, total_size};
use std::time::Duration;
use vstd::prelude::*;
use vstd::string::*;

verus! {

/// Connection settings of the Redis backend.
#[derive(Debug, Clone)]
pub struct RedisStorageConfig {
    pub url: String,
    pub connection_timeout: Duration,
    pub key_prefix: String,
}

impl Default for RedisStorageConfig {
    /// Local server on the standard port, a timeout of five seconds and the
    /// key prefix `bm25`.
    fn default() -> (c: Self)
        ensures
            c.url@ == "redis://127.0.0.1:6379"@,
            c.key_prefix@ == "bm25"@,
    {
        RedisStorageConfig {
            url: String::from_str("redis://127.0.0.1:6379"),
            connection_timeout: duration_from_secs(5),
            key_prefix: String::from_str("bm25"),
        }
    }
}

/// Settings of the index-file backend.
#[derive(Debug, Clone)]
pub struct TantivyStorageConfig {
    /// Directory of the index.
    pub index_path: String,
    /// Memory budget of the index writer, in megabytes.
    pub writer_memory_mb: usize,
}

impl Default for TantivyStorageConfig {
    /// Index in `./index`, with a writer budget of 50 MB.
    fn default() -> (c: Self)
        ensures
            c.index_path@ == "./index"@,
            c.writer_memory_mb == 50,
    {
        TantivyStorageConfig { index_path: String::from_str("./index"), writer_memory_mb: 50 }
    }
}


/// The key of the term frequencies of `term`.
pub open spec fn tf_key(prefix: Seq<char>, term: Seq<char>) -> Seq<char> {
    redis_key(prefix, seq!['t', 'f', ':'] + term)
}

/// The key of the document frequency of `term`.
pub open spec fn df_key(prefix: Seq<char>, term: Seq<char>) -> Seq<char> {
    redis_key(prefix, seq!['d', 'f', ':'] + term)
}

/// A term's frequency key and a term's document-frequency key never
/// coincide, and both lie under the scan pattern of their kind.
pub proof fn lemma_stat_keys_apart(prefix: Seq<char>, t1: Seq<char>, t2: Seq<char>)
    ensures
        tf_key(prefix, t1) != df_key(prefix, t2),
        (prefix + seq![':', 't', 'f', ':']).is_prefix_of(tf_key(prefix, t1)),
        (prefix + seq![':', 'd', 'f', ':']).is_prefix_of(df_key(prefix, t2)),
{
    let n = prefix.len() as int;
    assert(tf_key(prefix, t1)[n + 1] == 't');
    assert(df_key(prefix, t2)[n + 1] == 'd');
    assert((prefix + seq![':', 't', 'f', ':']) =~= tf_key(prefix, t1).take(n + 4));
    assert((prefix + seq![':', 'd', 'f', ':']) =~= df_key(prefix, t2).take(n + 4));
}

/// Description of a statistics backend.
#[derive(Debug, Clone)]
pub struct StorageInfo {
    pub name: String,
    pub version: String,
    pub size: u64,
    pub document_count: usize,
    pub term_count: usize,
    pub is_connected: bool,
}

/// The Redis backend of the BM25 statistics apart from its connection: its
/// settings and the prefix of its keys.
pub struct RedisStorage {
    config: RedisStorageConfig,
    key_prefix: String,
}

impl RedisStorage {
    pub closed spec fn configuration(&self) -> RedisStorageConfig {
        self.config
    }

    /// The prefix of every key the backend writes.
    pub closed spec fn prefix(&self) -> Seq<char> {
        self.key_prefix@
    }

    /// The state of a backend connected with `config`.
    pub fn new(config: RedisStorageConfig) -> (s: Self)
        ensures
            s.configuration() == config,
            s.prefix() == config.key_prefix@,
    {
        let key_prefix = config.key_prefix.clone();
        RedisStorage { config, key_prefix }
    }

    /// The key of `key` under the backend's prefix.
    pub fn make_key(&self, key: &str) -> (k: String)
        ensures
            k@ == redis_key(self.prefix(), key@),
    {
        proof {
            reveal_strlit(":");
        }
        let mut k = self.key_prefix.clone();
        k.append(":");
        k.append(key);
        k
    }

    /// The key of the term frequencies of `term`.
    pub fn make_tf_key(&self, term: &str) -> (k: String)
        ensures
            k@ == tf_key(self.prefix(), term@),
    {
        proof {
            reveal_strlit("tf:");
        }
        let mut key = String::from_str("tf:");
        key.append(term);
        self.make_key(key.as_str())
    }

    /// The key of the document frequency of `term`.
    pub fn make_df_key(&self, term: &str) -> (k: String)
        ensures
            k@ == df_key(self.prefix(), term@),
    {
        proof {
            reveal_strlit("df:");
        }
        let mut key = String::from_str("df:");
        key.append(term);
        self.make_key(key.as_str())
    }

    /// The pattern that matches every key of the backend.
    pub fn keys_pattern(&self) -> (p: String)
        ensures
            p@ == self.prefix() + seq![':', '*'],
    {
        proof {
            reveal_strlit(":*");
        }
        let mut p = self.key_prefix.clone();
        p.append(":*");
        p
    }

    /// The pattern that matches the term-frequency keys.
    pub fn tf_keys_pattern(&self) -> (p: String)
        ensures
            p@ == self.prefix() + seq![':', 't', 'f', ':', '*'],
    {
        proof {
            reveal_strlit(":tf:*");
        }
        let mut p = self.key_prefix.clone();
        p.append(":tf:*");
        p
    }

    /// The pattern that matches the document-frequency keys.
    pub fn df_keys_pattern(&self) -> (p: String)
        ensures
            p@ == self.prefix() + seq![':', 'd', 'f', ':', '*'],
    {
        proof {
            reveal_strlit(":df:*");
        }
        let mut p = self.key_prefix.clone();
        p.append(":df:*");
        p
    }

    /// Name `RedisStorage`, the given version, the summed sizes of the
    /// backend's values, no document count, and as many terms as
    /// document-frequency keys were found.
    pub fn info(&self, sizes: &[Option<usize>], df_key_count: usize, version: String) -> (i:
        StorageInfo)
        requires
            size_sum(sizes@) <= u64::MAX,
        ensures
            i.name@ == "RedisStorage"@,
            i.version == version,
            i.size == size_sum(sizes@),
            i.document_count == 0,
            i.term_count == df_key_count,
            i.is_connected,
    {
        StorageInfo {
            name: String::from_str("RedisStorage"),
            version,
            size: total_size(sizes),
            document_count: 0,
            term_count: df_key_count,
            is_connected: true,
        }
    }
}

} // verus!
