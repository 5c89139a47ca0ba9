//! The Redis storage backend apart from its connection: settings, the
//! naming of keys, what a commit writes, how replies are read, and the
//! counters.

use crate::clock::{duration_from_secs, instant_now};
use crate::inversearch::index::DocId;
use crate::inversearch::storage::json::{
    check_json_value, ids_from_json, ids_json, ids_of_json, ids_to_json, is_json_value,
    json_error_message,
};
use crate::inversearch::storage::metrics::{average_latency, one_more_operation, OperationCounters};
use crate::inversearch::storage::tables::{context_view, default_context};
use crate::inversearch::storage::types::{EnrichedDocument, StorageInfo};
use crate::text::{decimal, decimal_text, lemma_decimal_text_injective};
use std::time::{Duration, Instant};
use vstd::prelude::*;
use vstd::string::*;

verus! {

/// Connection settings of the Redis backend.
#[derive(Debug, Clone)]
pub struct RedisStorageConfig {
    pub url: String,
    pub pool_size: usize,
    pub connection_timeout: Duration,
    pub key_prefix: String,
}

impl Default for RedisStorageConfig {
    /// Local server on the standard port, ten connections, a timeout of five
    /// seconds and the key prefix `inversearch`.
    fn default() -> (c: Self)
        ensures
            c.url@ == "redis://127.0.0.1:6379"@,
            c.pool_size == 10,
            c.key_prefix@ == "inversearch"@,
    {
        RedisStorageConfig {
            url: String::from_str("redis://127.0.0.1:6379"),
            pool_size: 10,
            connection_timeout: duration_from_secs(5),
            key_prefix: String::from_str("inversearch"),
        }
    }
}

/// Performance counters of the Redis backend; latencies are in microseconds.
#[derive(Debug, Clone, Copy)]
pub struct StorageMetrics {
    pub operation_count: usize,
    pub average_latency: usize,
    pub memory_usage: usize,
    pub error_count: usize,
}

/// All counters are zero.
pub open spec fn metrics_are_zero(m: StorageMetrics) -> bool {
    &&& m.operation_count == 0
    &&& m.average_latency == 0
    &&& m.memory_usage == 0
    &&& m.error_count == 0
}

impl Default for StorageMetrics {
    fn default() -> (m: Self)
        ensures
            metrics_are_zero(m),
    {
        StorageMetrics { operation_count: 0, average_latency: 0, memory_usage: 0, error_count: 0 }
    }
}

impl StorageMetrics {
    /// Counters that are all zero.
    pub fn new() -> (m: Self)
        ensures
            metrics_are_zero(m),
    {
        Self::default()
    }

    /// Sets every counter to zero.
    pub fn reset(&mut self)
        ensures
            metrics_are_zero(*final(self)),
    {
        self.operation_count = 0;
        self.average_latency = 0;
        self.memory_usage = 0;
        self.error_count = 0;
    }
}


/// A failure of the Redis backend, with its message.
#[derive(Debug, Clone)]
pub enum StorageError {
    Connection(String),
    Serialization(String),
    Deserialization(String),
}

/// The number of entries a commit writes in one round trip.
pub const COMMIT_BATCH_SIZE: usize = 1000;

/// The key of `key` under `prefix`: the two joined by a colon.
pub open spec fn redis_key(prefix: Seq<char>, key: Seq<char>) -> Seq<char> {
    prefix + seq![':'] + key
}

/// The key of the posting list of `term`.
pub open spec fn index_key(prefix: Seq<char>, term: Seq<char>) -> Seq<char> {
    redis_key(prefix, seq!['i', 'n', 'd', 'e', 'x', ':'] + term)
}

/// The key of the posting list of `term` in `context`.
pub open spec fn context_key(prefix: Seq<char>, context: Seq<char>, term: Seq<char>) -> Seq<char> {
    redis_key(prefix, seq!['c', 't', 'x', ':'] + context + seq![':'] + term)
}

/// The key of the stored document `id`, written in decimal.
pub open spec fn doc_key(prefix: Seq<char>, id: DocId) -> Seq<char> {
    redis_key(prefix, seq!['d', 'o', 'c', ':'] + decimal_text(id as nat))
}

/// The key a lookup of `key` reads: its key in `ctx` when one is given,
/// its posting-list key otherwise.
pub open spec fn lookup_key(prefix: Seq<char>, key: Seq<char>, ctx: Option<Seq<char>>) -> Seq<char> {
    match ctx {
        Some(c) => context_key(prefix, c, key),
        None => index_key(prefix, key),
    }
}

/// Every key the backend writes lies under its scan pattern `prefix:*`;
/// posting-list keys lie under `prefix:index:*` and document keys under
/// `prefix:doc:*`, so the scans of its statistics find them; and no
/// posting-list key, of the main table or of a context, is a document key.
pub proof fn lemma_keys_under_patterns(prefix: Seq<char>, context: Seq<char>, term: Seq<char>, id: DocId)
    ensures
        (prefix + seq![':']).is_prefix_of(index_key(prefix, term)),
        (prefix + seq![':']).is_prefix_of(context_key(prefix, context, term)),
        (prefix + seq![':']).is_prefix_of(doc_key(prefix, id)),
        (prefix + seq![':', 'i', 'n', 'd', 'e', 'x', ':']).is_prefix_of(index_key(prefix, term)),
        (prefix + seq![':', 'd', 'o', 'c', ':']).is_prefix_of(doc_key(prefix, id)),
        index_key(prefix, term) != doc_key(prefix, id),
        context_key(prefix, context, term) != doc_key(prefix, id),
{
    let n = prefix.len() as int;
    assert(index_key(prefix, term)[n + 1] == 'i');
    assert(context_key(prefix, context, term)[n + 1] == 'c');
    assert(doc_key(prefix, id)[n + 1] == 'd');
    assert((prefix + seq![':', 'i', 'n', 'd', 'e', 'x', ':']) =~= index_key(prefix, term).take(n + 7));
    assert((prefix + seq![':', 'd', 'o', 'c', ':']) =~= doc_key(prefix, id).take(n + 5));
    assert((prefix + seq![':']) =~= index_key(prefix, term).take(n + 1));
    assert((prefix + seq![':']) =~= context_key(prefix, context, term).take(n + 1));
    assert((prefix + seq![':']) =~= doc_key(prefix, id).take(n + 1));
}

/// Different documents have different keys, and a term's posting-list key
/// is its own.
pub proof fn lemma_keys_distinct(prefix: Seq<char>, a: DocId, b: DocId, t1: Seq<char>, t2: Seq<char>)
    ensures
        a != b ==> doc_key(prefix, a) != doc_key(prefix, b),
        t1 != t2 ==> index_key(prefix, t1) != index_key(prefix, t2),
{
    let head = prefix + seq![':'];
    if a != b {
        lemma_decimal_text_injective(a as nat, b as nat);
        if doc_key(prefix, a) == doc_key(prefix, b) {
            let n = head.len() + 4int;
            assert(doc_key(prefix, a).skip(n) =~= decimal_text(a as nat));
            assert(doc_key(prefix, b).skip(n) =~= decimal_text(b as nat));
        }
    }
    if t1 != t2 && index_key(prefix, t1) == index_key(prefix, t2) {
        let n = head.len() + 6int;
        assert(index_key(prefix, t1).skip(n) =~= t1);
        assert(index_key(prefix, t2).skip(n) =~= t2);
    }
}

/// `entries` is what a commit writes: first each term's posting list as JSON
/// under the term's key, then each context term's list under its key in the
/// context `default`.
pub open spec fn commit_entries_of(
    entries: Seq<(String, String)>,
    prefix: Seq<char>,
    terms: Seq<(String, Vec<DocId>)>,
    context_terms: Seq<(String, Vec<DocId>)>,
) -> bool {
    &&& entries.len() == terms.len() + context_terms.len()
    &&& forall|i: int|
        0 <= i < terms.len() ==> {
            &&& (#[trigger] entries[i]).0@ == index_key(prefix, terms[i].0@)
            &&& entries[i].1@ == ids_json(terms[i].1@)
        }
    &&& forall|j: int|
        0 <= j < context_terms.len() ==> {
            &&& entries[terms.len() + j].0@ == context_key(
                prefix,
                default_context(),
                (#[trigger] context_terms[j]).0@,
            )
            &&& entries[terms.len() + j].1@ == ids_json(context_terms[j].1@)
        }
}

/// The documents of a multi-key read: each non-empty reply, with the
/// identifier at its position, in order.
pub open spec fn replied_documents(ids: Seq<DocId>, replies: Seq<Seq<char>>) -> Seq<(DocId, Seq<char>)>
    decreases replies.len(),
{
    if replies.len() == 0 {
        Seq::empty()
    } else {
        let last = replies.len() - 1;
        let before = replied_documents(ids, replies.drop_last());
        if replies[last].len() > 0 {
            before.push((ids[last], replies[last]))
        } else {
            before
        }
    }
}

/// Every non-empty reply is a JSON value.
pub open spec fn replies_are_json(replies: Seq<Seq<char>>) -> bool {
    forall|i: int| 0 <= i < replies.len() && replies[i].len() > 0 ==> is_json_value(#[trigger] replies[i])
}

/// The sum of the sizes, a missing size counting zero.
pub open spec fn size_sum(sizes: Seq<Option<usize>>) -> nat
    decreases sizes.len(),
{
    if sizes.len() == 0 {
        0
    } else {
        size_sum(sizes.drop_last()) + match sizes.last() {
            Some(n) => n as nat,
            None => 0,
        }
    }
}

/// A prefix of the sizes sums to no more than all of them.
proof fn lemma_size_sum_prefix(sizes: Seq<Option<usize>>, i: int)
    requires
        0 <= i <= sizes.len(),
    ensures
        size_sum(sizes.take(i)) <= size_sum(sizes),
    decreases sizes.len() - i,
{
    if i < sizes.len() {
        lemma_size_sum_prefix(sizes, i + 1);
        assert(sizes.take(i + 1).drop_last() =~= sizes.take(i));
    } else {
        assert(sizes.take(i) =~= sizes);
    }
}

/// The sum of the sizes, a missing size counting zero.
pub fn total_size(sizes: &[Option<usize>]) -> (t: u64)
    requires
        size_sum(sizes@) <= u64::MAX,
    ensures
        t == size_sum(sizes@),
{
    let mut t: u64 = 0;
    let mut i: usize = 0;
    while i < sizes.len()
        invariant
            i <= sizes.len(),
            size_sum(sizes@) <= u64::MAX,
            t == size_sum(sizes@.take(i as int)),
        decreases sizes.len() - i,
    {
        proof {
            lemma_size_sum_prefix(sizes@, i as int + 1);
            assert(sizes@.take(i as int + 1).drop_last() =~= sizes@.take(i as int));
        }
        let n: u64 = match sizes[i] {
            Some(n) => n as u64,
            None => 0,
        };
        t = t + n;
        i = i + 1;
    }
    assert(sizes@.take(i as int) =~= sizes@);
    t
}

/// The posting list in a reply to a read: none for an empty reply, else the
/// list the JSON text holds. A list written as JSON by a commit reads back as
/// the same list.
pub fn posting_list_from_reply(reply: &str) -> (r: Result<Vec<DocId>, StorageError>)
    ensures
        reply@.len() == 0 ==> (r matches Ok(ids) && ids@.len() == 0),
        reply@.len() > 0 ==> match ids_from_json(reply@) {
            Some(ids) => (r matches Ok(v) && v@ == ids),
            None => r matches Err(StorageError::Deserialization(_)),
        },
        forall|v: Seq<DocId>| #[trigger] ids_json(v) == reply@ ==> (r matches Ok(ids) && ids@ == v),
{
    if reply.is_empty() {
        return Ok(Vec::new());
    }
    match ids_of_json(reply) {
        Ok(ids) => Ok(ids),
        Err(e) => Err(StorageError::Deserialization(json_error_message(&e))),
    }
}

/// The documents of a multi-key read of `ids`: each non-empty reply, which
/// must be a JSON value, with the identifier at its position.
pub fn documents_from_replies(ids: &[DocId], replies: &Vec<String>) -> (r: Result<
    Vec<EnrichedDocument>,
    StorageError,
>)
    requires
        replies.len() <= ids.len(),
    ensures
        r is Ok <==> replies_are_json(replies@.map_values(|s: String| s@)),
        r matches Ok(docs) ==> docs@.map_values(|d: EnrichedDocument| (d.id, d.content@))
            == replied_documents(ids@, replies@.map_values(|s: String| s@)),
        r matches Err(e) ==> e is Deserialization,
{
    let ghost texts = replies@.map_values(|s: String| s@);
    let mut docs: Vec<EnrichedDocument> = Vec::new();
    let mut i: usize = 0;
    while i < replies.len()
        invariant
            i <= replies.len() <= ids.len(),
            texts == replies@.map_values(|s: String| s@),
            replies_are_json(texts.take(i as int)),
            docs@.map_values(|d: EnrichedDocument| (d.id, d.content@)) == replied_documents(
                ids@,
                texts.take(i as int),
            ),
        decreases replies.len() - i,
    {
        let ghost before = docs@.map_values(|d: EnrichedDocument| (d.id, d.content@));
        assert(texts.take(i as int + 1).drop_last() =~= texts.take(i as int));
        let reply = &replies[i];
        if reply.as_str().is_empty() {
            assert(replies_are_json(texts.take(i as int + 1)));
        } else {
            match check_json_value(reply.as_str()) {
                Ok(()) => {},
                Err(e) => {
                    assert(texts[i as int] == reply@);
                    assert(!replies_are_json(texts));
                    return Err(StorageError::Deserialization(json_error_message(&e)));
                },
            }
            docs.push(EnrichedDocument { id: ids[i], content: reply.clone() });
            assert(docs@.map_values(|d: EnrichedDocument| (d.id, d.content@)) =~= before.push(
                (ids@[i as int], texts[i as int]),
            ));
            assert(replies_are_json(texts.take(i as int + 1)));
        }
        i = i + 1;
    }
    assert(texts.take(i as int) =~= texts);
    Ok(docs)
}

/// The reply to a health probe says the server is alive.
pub fn is_pong(reply: &str) -> (b: bool)
    ensures
        b == (reply@ == "PONG"@),
{
    reply.eq("PONG")
}

/// The Redis backend's state apart from its connection: its settings, its
/// key prefix and its counters.
pub struct RedisStorage {
    config: RedisStorageConfig,
    key_prefix: String,
    memory_usage: usize,
    counters: OperationCounters,
    error_count: usize,
    last_operation_time: Option<Instant>,
}

impl RedisStorage {
    pub closed spec fn configuration(&self) -> RedisStorageConfig {
        self.config
    }

    /// The prefix of every key the backend writes.
    pub closed spec fn prefix(&self) -> Seq<char> {
        self.key_prefix@
    }

    /// The last memory estimate taken.
    pub closed spec fn memory_usage(&self) -> usize {
        self.memory_usage
    }

    pub closed spec fn counters(&self) -> OperationCounters {
        self.counters
    }

    pub closed spec fn errors(&self) -> usize {
        self.error_count
    }

    /// When the last operation started, if one did.
    pub closed spec fn last_start(&self) -> Option<Instant> {
        self.last_operation_time
    }

    /// The state of a backend connected with `config`: its key prefix, and
    /// counters at zero.
    pub fn new(config: RedisStorageConfig) -> (s: Self)
        ensures
            s.configuration() == config,
            s.prefix() == config.key_prefix@,
            s.memory_usage() == 0,
            s.counters().operation_count == 0,
            s.counters().total_latency == 0,
            s.errors() == 0,
            s.last_start() is None,
    {
        let key_prefix = config.key_prefix.clone();
        RedisStorage {
            config,
            key_prefix,
            memory_usage: 0,
            counters: OperationCounters::new(),
            error_count: 0,
            last_operation_time: None,
        }
    }

    /// The key of `key` under the backend's prefix.
    pub fn make_key(&self, key: &str) -> (k: String)
        ensures
            k@ == redis_key(self.prefix(), key@),
    {
        proof {
            reveal_strlit(":");
        }
        let mut k = self.key_prefix.clone();
        k.append(":");
        k.append(key);
        k
    }

    /// The key of the posting list of `term`.
    pub fn make_index_key(&self, term: &str) -> (k: String)
        ensures
            k@ == index_key(self.prefix(), term@),
    {
        proof {
            reveal_strlit("index:");
        }
        let mut key = String::from_str("index:");
        key.append(term);
        self.make_key(key.as_str())
    }

    /// The key of the posting list of `term` in `context`.
    pub fn make_context_key(&self, context: &str, term: &str) -> (k: String)
        ensures
            k@ == context_key(self.prefix(), context@, term@),
    {
        proof {
            reveal_strlit("ctx:");
            reveal_strlit(":");
        }
        let mut key = String::from_str("ctx:");
        key.append(context);
        key.append(":");
        key.append(term);
        assert(key@ =~= seq!['c', 't', 'x', ':'] + context@ + seq![':'] + term@);
        self.make_key(key.as_str())
    }

    /// The key of the stored document `doc_id`.
    pub fn make_doc_key(&self, doc_id: DocId) -> (k: String)
        ensures
            k@ == doc_key(self.prefix(), doc_id),
    {
        proof {
            reveal_strlit("doc:");
        }
        let mut key = String::from_str("doc:");
        let digits = decimal(doc_id);
        key.append(digits.as_str());
        self.make_key(key.as_str())
    }

    /// The key a lookup of `key` reads, in context `ctx` when one is given.
    pub fn lookup_key(&self, key: &str, ctx: Option<&str>) -> (k: String)
        ensures
            k@ == lookup_key(self.prefix(), key@, context_view(ctx)),
    {
        match ctx {
            Some(c) => self.make_context_key(c, key),
            None => self.make_index_key(key),
        }
    }

    /// The pattern that matches every key of the backend.
    pub fn keys_pattern(&self) -> (p: String)
        ensures
            p@ == self.prefix() + seq![':', '*'],
    {
        proof {
            reveal_strlit(":*");
        }
        let mut p = self.key_prefix.clone();
        p.append(":*");
        p
    }

    /// The pattern that matches the keys of stored documents.
    pub fn doc_keys_pattern(&self) -> (p: String)
        ensures
            p@ == self.prefix() + seq![':', 'd', 'o', 'c', ':', '*'],
    {
        proof {
            reveal_strlit(":doc:*");
        }
        let mut p = self.key_prefix.clone();
        p.append(":doc:*");
        p
    }

    /// The pattern that matches the keys of posting lists.
    pub fn index_keys_pattern(&self) -> (p: String)
        ensures
            p@ == self.prefix() + seq![':', 'i', 'n', 'd', 'e', 'x', ':', '*'],
    {
        proof {
            reveal_strlit(":index:*");
        }
        let mut p = self.key_prefix.clone();
        p.append(":index:*");
        p
    }

    /// What a commit writes: each term's posting list as JSON under the
    /// term's key, then each context term's list under its key in the
    /// context `default`. It always succeeds.
    pub fn commit_entries(
        &self,
        terms: &Vec<(String, Vec<DocId>)>,
        context_terms: &Vec<(String, Vec<DocId>)>,
    ) -> (r: Result<Vec<(String, String)>, StorageError>)
        ensures
            r matches Ok(entries) && commit_entries_of(entries@, self.prefix(), terms@, context_terms@),
    {
        let mut entries: Vec<(String, String)> = Vec::new();
        let mut i: usize = 0;
        while i < terms.len()
            invariant
                i <= terms.len(),
                entries.len() == i,
                forall|k: int|
                    0 <= k < i ==> {
                        &&& (#[trigger] entries@[k]).0@ == index_key(self.prefix(), terms@[k].0@)
                        &&& entries@[k].1@ == ids_json(terms@[k].1@)
                    },
            decreases terms.len() - i,
        {
            let key = self.make_index_key(terms[i].0.as_str());
            match ids_to_json(&terms[i].1) {
                Ok(text) => {
                    entries.push((key, text));
                },
                Err(e) => {
                    return Err(StorageError::Serialization(json_error_message(&e)));
                },
            }
            i = i + 1;
        }
        proof {
            reveal_strlit("default");
        }
        let mut j: usize = 0;
        while j < context_terms.len()
            invariant
                i == terms.len(),
                j <= context_terms.len(),
                entries.len() == i + j,
                forall|k: int|
                    0 <= k < i ==> {
                        &&& (#[trigger] entries@[k]).0@ == index_key(self.prefix(), terms@[k].0@)
                        &&& entries@[k].1@ == ids_json(terms@[k].1@)
                    },
                forall|k: int|
                    0 <= k < j ==> {
                        &&& entries@[i + k].0@ == context_key(
                            self.prefix(),
                            default_context(),
                            (#[trigger] context_terms@[k]).0@,
                        )
                        &&& entries@[i + k].1@ == ids_json(context_terms@[k].1@)
                    },
            decreases context_terms.len() - j,
        {
            let key = self.make_context_key("default", context_terms[j].0.as_str());
            match ids_to_json(&context_terms[j].1) {
                Ok(text) => {
                    entries.push((key, text));
                },
                Err(e) => {
                    return Err(StorageError::Serialization(json_error_message(&e)));
                },
            }
            j = j + 1;
        }
        Ok(entries)
    }

    /// The keys of the stored documents `ids`, in order.
    pub fn doc_keys(&self, ids: &[DocId]) -> (keys: Vec<String>)
        ensures
            keys.len() == ids.len(),
            forall|i: int| 0 <= i < ids.len() ==> (#[trigger] keys@[i])@ == doc_key(self.prefix(), ids@[i]),
    {
        let mut keys: Vec<String> = Vec::new();
        let mut i: usize = 0;
        while i < ids.len()
            invariant
                i <= ids.len(),
                keys.len() == i,
                forall|k: int| 0 <= k < i ==> (#[trigger] keys@[k])@ == doc_key(self.prefix(), ids@[k]),
            decreases ids.len() - i,
        {
            keys.push(self.make_doc_key(ids[i]));
            i = i + 1;
        }
        keys
    }

    /// Takes the memory estimate: the summed sizes of the backend's values.
    pub fn update_memory_usage(&mut self, sizes: &[Option<usize>])
        requires
            size_sum(sizes@) <= usize::MAX,
        ensures
            final(self).memory_usage() == size_sum(sizes@),
            final(self).configuration() == old(self).configuration(),
            final(self).prefix() == old(self).prefix(),
            final(self).counters() == old(self).counters(),
            final(self).errors() == old(self).errors(),
            final(self).last_start() == old(self).last_start(),
    {
        let t = total_size(sizes);
        self.memory_usage = t as usize;
    }

    /// Notes the start of an operation and returns its time.
    pub fn record_operation_start(&mut self) -> (start: Instant)
        ensures
            final(self).last_start() == Some(start),
            final(self).configuration() == old(self).configuration(),
            final(self).prefix() == old(self).prefix(),
            final(self).memory_usage() == old(self).memory_usage(),
            final(self).counters() == old(self).counters(),
            final(self).errors() == old(self).errors(),
    {
        let start = instant_now();
        self.last_operation_time = Some(start);
        start
    }

    /// Counts an operation that started at `start_time`.
    pub fn record_operation_completion(&mut self, start_time: Instant)
        ensures
            one_more_operation(old(self).counters(), final(self).counters()),
            final(self).configuration() == old(self).configuration(),
            final(self).prefix() == old(self).prefix(),
            final(self).memory_usage() == old(self).memory_usage(),
            final(self).errors() == old(self).errors(),
            final(self).last_start() == old(self).last_start(),
    {
        self.counters.complete(start_time);
    }

    /// Counts a failed request; the count wraps around on overflow.
    pub fn record_error(&mut self)
        ensures
            final(self).errors() == vstd::wrapping::usize_specs::wrapping_add(old(self).errors(), 1),
            final(self).configuration() == old(self).configuration(),
            final(self).prefix() == old(self).prefix(),
            final(self).memory_usage() == old(self).memory_usage(),
            final(self).counters() == old(self).counters(),
            final(self).last_start() == old(self).last_start(),
    {
        self.error_count = self.error_count.wrapping_add(1);
    }

    /// The last memory estimate taken.
    pub fn get_memory_usage(&self) -> (n: usize)
        ensures
            n == self.memory_usage(),
    {
        self.memory_usage
    }

    /// The counters: operations, their mean latency, the memory estimate and
    /// the failed requests.
    pub fn get_operation_stats(&self) -> (m: StorageMetrics)
        ensures
            m.operation_count == self.counters().operation_count,
            m.average_latency == average_latency(self.counters()),
            m.memory_usage == self.memory_usage(),
            m.error_count == self.errors(),
    {
        StorageMetrics {
            operation_count: self.counters.operation_count,
            average_latency: self.counters.average_latency(),
            memory_usage: self.memory_usage,
            error_count: self.error_count,
        }
    }

    /// Name `RedisStorage`, version `0.1.0`, the summed sizes of the
    /// backend's values, and the numbers of document keys and of posting-list
    /// keys found.
    pub fn info(&self, sizes: &[Option<usize>], doc_key_count: usize, index_key_count: usize) -> (i:
        StorageInfo)
        requires
            size_sum(sizes@) <= u64::MAX,
        ensures
            i.name@ == "RedisStorage"@,
            i.version@ == "0.1.0"@,
            i.size == size_sum(sizes@),
            i.document_count == doc_key_count,
            i.index_count == index_key_count,
            i.is_connected,
    {
        StorageInfo {
            name: String::from_str("RedisStorage"),
            version: String::from_str("0.1.0"),
            size: total_size(sizes),
            document_count: doc_key_count,
            index_count: index_key_count,
            is_connected: true,
        }
    }
}

} // verus!
