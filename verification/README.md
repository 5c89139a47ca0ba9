# searchkit

Verified building blocks of a full-text search service, written in Verus.

- `src/` is the verified library:
  - `bm25/cache.rs`: a key-value cache with least-recently-used eviction and
    a time to live, with its laws (what a lookup finds after a store or a
    removal, which entry a full cache evicts, what a cleanup keeps);
  - `bm25/shared_cache.rs`: handles that share one cache behind a lock;
  - `bm25/storage.rs`: settings of the statistics backends and the key names
    of the Redis one;
  - `inversearch/`: the embedded document index with batched updates, the
    fixed part of a document export and the version check of an import, and the
    in-memory side of its storage backends (posting-list tables, the cached
    and file backends, paging, batching, the Redis key scheme and the reading
    of its replies, counters);
  - `clock.rs`, `text.rs`, `lemmas.rs`: the monotonic clock, decimal text,
    and general lemmas.
- `app/` is ordinary Rust around the library: file and network I/O (data
  files, Redis requests) and the JSON shapes of results.
- `tests/` runs the library on concrete values.
