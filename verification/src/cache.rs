//! The cache manager: an LRU memory level in front of an optional disk level,
//! with hit, miss and size statistics.
//!
//! Reading and writing files is left to the caller; the manager decides what
//! is served, what is stored, what counts as a hit or a miss and how the disk
//! statistics move when the caller reports what it did on disk.

use vstd::prelude::*;
use std::sync::Arc;
use crate::clock::{expired, is_expired, now_nanos};
use crate::config::Settings;
use crate::entry::{share, CacheEntry, CacheEntryDisk};
use crate::hashing::{key_hash_spec, key_to_hash};
use crate::memory::{after_get, after_pop, after_put, has_key, key_position, lemma_key_position, lemma_ops_keep_valid, lemma_position_unique, lru_capacity, lru_clear, lru_entries, lru_get, lru_keys, lru_len, lru_new, lru_pop, lru_put, lru_valid};

verus! {

/// A snapshot of the cache statistics.
#[derive(Clone, Debug)]
pub struct CacheStats {
    pub hits: u64,
    pub misses: u64,
    pub total_requests: u64,
    pub in_memory_items: usize,
    pub disk_items: u64,
    pub total_disk_size_bytes: u64,
    pub data_served_from_cache_bytes: u64,
}

impl Default for CacheStats {
    fn default() -> (s: CacheStats)
        ensures
            s.hits == 0 && s.misses == 0 && s.total_requests == 0 && s.in_memory_items == 0
                && s.disk_items == 0 && s.total_disk_size_bytes == 0
                && s.data_served_from_cache_bytes == 0,
    {
        CacheStats {
            hits: 0,
            misses: 0,
            total_requests: 0,
            in_memory_items: 0,
            disk_items: 0,
            total_disk_size_bytes: 0,
            data_served_from_cache_bytes: 0,
        }
    }
}

/// Why a cache manager could not be created.
#[derive(Clone, Copy, Debug, PartialEq, Eq, Structural)]
pub enum CacheError {
    /// `cache.memory_items` is zero.
    ZeroMemoryItems,
}

impl CacheError {
    /// The message the proxy reports for the error.
    pub fn message(&self) -> (m: &'static str)
        ensures
            m@ == "Cache memory_items must be greater than 0"@,
    {
        match self {
            CacheError::ZeroMemoryItems => "Cache memory_items must be greater than 0",
        }
    }
}

/// What the caller did on disk while storing an entry.
#[derive(Clone, Copy, Debug, PartialEq, Eq, Structural)]
pub enum DiskWrite {
    /// Nothing was written: no disk level, or encoding or writing failed.
    NotWritten,
    /// The encoded entry (`new_size` bytes) was written; `existed` tells
    /// whether the file was already there, `original_size` its former size.
    Written { existed: bool, original_size: u64, new_size: u64 },
}

struct CacheStatsInternal {
    hits: u64,
    misses: u64,
    disk_items: u64,
    total_disk_size_bytes: u64,
    data_served_from_cache_bytes: u64,
}

/// The two-level cache.
pub struct CacheManager {
    memory_cache: lru::LruCache<String, Arc<CacheEntry>>,
    disk_path: Option<String>,
    ttl_seconds: u64,
    stats: CacheStatsInternal,
}

/// The abstract state of a cache manager: the memory level (most recently
/// used first), its capacity, the disk directory, the time-to-live, and the
/// counters (which wrap around like the atomic counters they model).
pub struct CacheView {
    pub memory: Seq<(Seq<char>, Arc<CacheEntry>)>,
    pub capacity: nat,
    pub disk_dir: Option<Seq<char>>,
    pub ttl_seconds: u64,
    pub hits: u64,
    pub misses: u64,
    pub disk_items: u64,
    pub disk_bytes: u64,
    pub served_bytes: u64,
}

impl View for CacheManager {
    type V = CacheView;

    closed spec fn view(&self) -> CacheView {
        CacheView {
            memory: lru_entries(self.memory_cache),
            capacity: lru_capacity(self.memory_cache),
            disk_dir: match self.disk_path {
                Some(p) => Some(p@),
                None => None,
            },
            ttl_seconds: self.ttl_seconds,
            hits: self.stats.hits,
            misses: self.stats.misses,
            disk_items: self.stats.disk_items,
            disk_bytes: self.stats.total_disk_size_bytes,
            served_bytes: self.stats.data_served_from_cache_bytes,
        }
    }
}

/// Counter increment with wrap-around.
pub open spec fn bump(a: u64, b: u64) -> u64 {
    vstd::wrapping::u64_specs::wrapping_add(a, b)
}

/// Counter decrement with wrap-around.
pub open spec fn lower(a: u64, b: u64) -> u64 {
    vstd::wrapping::u64_specs::wrapping_sub(a, b)
}

/// The sum of a list of sizes.
pub open spec fn sum_sizes(s: Seq<u64>) -> int
    decreases s.len(),
{
    if s.len() == 0 {
        0
    } else {
        sum_sizes(s.drop_last()) + s.last()
    }
}

/// The disk directory a configured path gives: none for an absent or empty path.
pub open spec fn disk_dir_of(path: Option<String>) -> Option<Seq<char>> {
    match path {
        Some(p) => if p@.len() == 0 { None } else { Some(p@) },
        None => None,
    }
}

/// Everything but the memory level and the hit, miss and served counters is unchanged.
pub open spec fn same_setup_and_disk(before: CacheView, after: CacheView) -> bool {
    &&& after.capacity == before.capacity
    &&& after.disk_dir == before.disk_dir
    &&& after.ttl_seconds == before.ttl_seconds
    &&& after.disk_items == before.disk_items
    &&& after.disk_bytes == before.disk_bytes
}

/// The effect of looking `key` up in memory at instant `now`.
///
/// Every lookup first counts a miss. A fresh entry is served: it becomes the
/// most recently used, the miss is turned into a hit and its size is added to
/// the served bytes. A stale entry is dropped from memory. An absent key
/// changes nothing else.
pub open spec fn lookup_outcome(
    before: CacheView,
    after: CacheView,
    key: Seq<char>,
    now: i128,
    r: Option<Arc<CacheEntry>>,
) -> bool {
    let e = before.memory;
    &&& same_setup_and_disk(before, after)
    &&& if has_key(e, key) {
        let found = e[key_position(e, key)].1;
        if !expired(found.created_at, now, before.ttl_seconds) {
            &&& r == Some(found)
            &&& after.memory == after_get(e, key)
            &&& after.hits == bump(before.hits, 1)
            &&& after.misses == before.misses
            &&& after.served_bytes == bump(before.served_bytes, found.data@.len() as u64)
        } else {
            &&& r is None
            &&& after.memory == after_pop(e, key)
            &&& after.hits == before.hits
            &&& after.misses == bump(before.misses, 1)
            &&& after.served_bytes == before.served_bytes
        }
    } else {
        &&& r is None
        &&& after.memory == e
        &&& after.hits == before.hits
        &&& after.misses == bump(before.misses, 1)
        &&& after.served_bytes == before.served_bytes
    }
}

/// The effect of an entry read back from disk for `key` at instant `now`,
/// after its memory lookup missed: a fresh entry turns that miss into a hit,
/// is served and is stored in memory as the most recently used; a stale one
/// changes nothing.
pub open spec fn admit_outcome(
    before: CacheView,
    after: CacheView,
    key: Seq<char>,
    disk: CacheEntryDisk,
    data: Seq<u8>,
    now: i128,
    r: Option<Arc<CacheEntry>>,
) -> bool {
    &&& same_setup_and_disk(before, after)
    &&& if expired(disk.created_at, now, before.ttl_seconds) {
        &&& r is None
        &&& after == before
    } else {
        &&& r matches Some(entry) && entry.url == disk.url && entry.headers == disk.headers
            && entry.created_at == disk.created_at && entry.data@ == data
            && after.memory == after_put(before.memory, before.capacity, key, entry)
        &&& after.hits == bump(before.hits, 1)
        &&& after.misses == lower(before.misses, 1)
        &&& after.served_bytes == bump(before.served_bytes, data.len() as u64)
    }
}

/// The effect of storing `entry` under `key` after the caller reported `disk`:
/// a new file adds one disk item, the disk size moves by the new size less
/// the old one, and the entry becomes the most recently used in memory.
pub open spec fn put_outcome(
    before: CacheView,
    after: CacheView,
    key: Seq<char>,
    entry: Arc<CacheEntry>,
    disk: DiskWrite,
) -> bool {
    &&& after.capacity == before.capacity
    &&& after.disk_dir == before.disk_dir
    &&& after.ttl_seconds == before.ttl_seconds
    &&& after.hits == before.hits
    &&& after.misses == before.misses
    &&& after.served_bytes == before.served_bytes
    &&& after.memory == after_put(before.memory, before.capacity, key, entry)
    &&& match disk {
        DiskWrite::NotWritten => after.disk_items == before.disk_items && after.disk_bytes
            == before.disk_bytes,
        DiskWrite::Written { existed, original_size, new_size } => {
            &&& after.disk_items == (if existed {
                before.disk_items
            } else {
                bump(before.disk_items, 1)
            })
            &&& after.disk_bytes == lower(bump(before.disk_bytes, new_size), original_size)
        },
    }
}

/// The effect of clearing: memory empty, every counter zero, the setup kept.
pub open spec fn cleared(before: CacheView, after: CacheView) -> bool {
    after == (CacheView {
        memory: Seq::empty(),
        hits: 0,
        misses: 0,
        disk_items: 0,
        disk_bytes: 0,
        served_bytes: 0,
        ..before
    })
}

/// The effect of removing a disk file of `size` bytes: one disk item and
/// `size` bytes fewer; nothing else changes.
pub open spec fn disk_removal_outcome(before: CacheView, after: CacheView, size: u64) -> bool {
    after == (CacheView {
        disk_items: lower(before.disk_items, 1),
        disk_bytes: lower(before.disk_bytes, size),
        ..before
    })
}

/// The first position, most recently used first, whose key hashes to `hash`.
pub open spec fn first_with_hash(e: Seq<(Seq<char>, Arc<CacheEntry>)>, hash: Seq<char>) -> Option<int> {
    if exists|i: int| 0 <= i < e.len() && key_hash_spec(#[trigger] e[i].0) == hash {
        Some(
            choose|i: int|
                0 <= i < e.len() && key_hash_spec(#[trigger] e[i].0) == hash && forall|j: int|
                    0 <= j < i ==> key_hash_spec(#[trigger] e[j].0) != hash,
        )
    } else {
        None
    }
}

/// The effect of deleting the entry stored under file name `hash`: the most
/// recently used memory entry whose key hashes to it is dropped; nothing
/// else changes.
pub open spec fn delete_outcome(before: CacheView, after: CacheView, hash: Seq<char>) -> bool {
    &&& same_setup_and_disk(before, after)
    &&& after.hits == before.hits
    &&& after.misses == before.misses
    &&& after.served_bytes == before.served_bytes
    &&& match first_with_hash(before.memory, hash) {
        Some(i) => after.memory == before.memory.remove(i),
        None => after.memory == before.memory,
    }
}

proof fn lemma_bump_lower(a: u64)
    ensures
        lower(bump(a, 1), 1) == a,
{
}

proof fn lemma_first_with_hash(e: Seq<(Seq<char>, Arc<CacheEntry>)>, hash: Seq<char>, i: int)
    requires
        0 <= i < e.len(),
        key_hash_spec(e[i].0) == hash,
        forall|j: int| 0 <= j < i ==> key_hash_spec(#[trigger] e[j].0) != hash,
    ensures
        first_with_hash(e, hash) == Some(i),
{
    let c = choose|k: int|
        0 <= k < e.len() && key_hash_spec(#[trigger] e[k].0) == hash && forall|j: int|
            0 <= j < k ==> key_hash_spec(#[trigger] e[j].0) != hash;
    assert(0 <= i < e.len() && key_hash_spec(e[i].0) == hash && forall|j: int|
        0 <= j < i ==> key_hash_spec(#[trigger] e[j].0) != hash);
    if c < i {
        assert(key_hash_spec(e[c].0) != hash);
    } else if c > i {
        assert(key_hash_spec(e[i].0) != hash);
    }
}

/// A single file name within a directory: not empty, not `.` or `..`, and
/// without a path separator (a slash or a backslash).
pub open spec fn is_plain_file_name_spec(name: Seq<char>) -> bool {
    &&& name.len() > 0
    &&& name != seq!['.']
    &&& name != seq!['.', '.']
    &&& forall|i: int| 0 <= i < name.len() ==> #[trigger] name[i] != '/' && name[i] != '\\'
}

/// Whether `name` is a single file name within a directory.
pub fn is_plain_file_name(name: &str) -> (b: bool)
    ensures
        b == is_plain_file_name_spec(name@),
{
    let n = name.unicode_len();
    if n == 0 {
        return false;
    }
    if n == 1 && name.get_char(0) == '.' {
        assert(name@ =~= seq!['.']);
        return false;
    }
    if n == 2 && name.get_char(0) == '.' && name.get_char(1) == '.' {
        assert(name@ =~= seq!['.', '.']);
        return false;
    }
    let mut i: usize = 0;
    while i < n
        invariant
            n == name@.len(),
            i <= n,
            forall|j: int| 0 <= j < i ==> #[trigger] name@[j] != '/' && name@[j] != '\\',
        decreases n - i,
    {
        let c = name.get_char(i);
        if c == '/' || c == '\\' {
            return false;
        }
        i = i + 1;
    }
    if n == 1 {
        assert(name@[0] != '.');
    }
    if n == 2 {
        assert(name@[0] != '.' || name@[1] != '.');
    }
    true
}

impl CacheManager {
    /// The memory level is a valid LRU cache.
    pub open spec fn wf(&self) -> bool {
        lru_valid(self@.memory, self@.capacity)
    }

    /// A cache with an empty memory level of `memory_items` entries, the
    /// disk level at `disk_path` (unless absent or empty), the configured
    /// time-to-live and zeroed statistics; zero memory items are refused.
    pub fn new(config: &Settings) -> (r: Result<CacheManager, CacheError>)
        ensures
            config.cache.memory_items == 0 <==> r is Err,
            r matches Err(e) ==> e == CacheError::ZeroMemoryItems,
            r matches Ok(m) ==> {
                &&& m.wf()
                &&& m@.memory == Seq::<(Seq<char>, Arc<CacheEntry>)>::empty()
                &&& m@.capacity == config.cache.memory_items
                &&& m@.disk_dir == disk_dir_of(config.cache.disk_path)
                &&& m@.ttl_seconds == config.cache.ttl_seconds
                &&& m@.hits == 0 && m@.misses == 0 && m@.disk_items == 0
                &&& m@.disk_bytes == 0 && m@.served_bytes == 0
            },
    {
        if config.cache.memory_items == 0 {
            return Err(CacheError::ZeroMemoryItems);
        }
        let disk_path = match &config.cache.disk_path {
            Some(p) => if p.as_str().is_empty() {
                None
            } else {
                Some(p.clone())
            },
            None => None,
        };
        Ok(CacheManager {
            memory_cache: lru_new(config.cache.memory_items),
            disk_path,
            ttl_seconds: config.cache.ttl_seconds,
            stats: CacheStatsInternal {
                hits: 0,
                misses: 0,
                disk_items: 0,
                total_disk_size_bytes: 0,
                data_served_from_cache_bytes: 0,
            },
        })
    }

    /// Records what a scan of the disk directory found: one size per file.
    pub fn record_disk_scan(&mut self, file_sizes: &Vec<u64>)
        requires
            old(self).wf(),
            sum_sizes(file_sizes@) <= u64::MAX,
        ensures
            final(self).wf(),
            final(self)@ == (CacheView {
                disk_items: file_sizes@.len() as u64,
                disk_bytes: sum_sizes(file_sizes@) as u64,
                ..old(self)@
            }),
    {
        let mut count: u64 = 0;
        let mut total_size: u64 = 0;
        let mut i: usize = 0;
        while i < file_sizes.len()
            invariant
                i <= file_sizes@.len(),
                count == i,
                total_size == sum_sizes(file_sizes@.take(i as int)),
                sum_sizes(file_sizes@) <= u64::MAX,
            decreases file_sizes@.len() - i,
        {
            proof {
                assert(file_sizes@.take(i as int + 1).drop_last() =~= file_sizes@.take(i as int));
                lemma_sum_sizes_prefix(file_sizes@, i as int + 1);
            }
            count = count + 1;
            total_size = total_size + file_sizes[i];
            i = i + 1;
        }
        assert(file_sizes@.take(i as int) =~= file_sizes@);
        self.stats.disk_items = count;
        self.stats.total_disk_size_bytes = total_size;
    }

    /// Looks `key` up in memory at instant `now` (see `lookup_outcome`).
    pub fn lookup_memory_at(&mut self, key: &str, now: i128) -> (r: Option<Arc<CacheEntry>>)
        requires
            old(self).wf(),
        ensures
            final(self).wf(),
            lookup_outcome(old(self)@, final(self)@, key@, now, r),
    {
        proof {
            lemma_ops_keep_valid(self@.memory, self@.capacity, key@, vstd::pervasive::arbitrary::<Arc<CacheEntry>>());
            if has_key(self@.memory, key@) {
                lemma_key_position(self@.memory, key@);
            }
        }
        let ghost before = self@;
        self.stats.misses = self.stats.misses.wrapping_add(1);
        let found = lru_get(&mut self.memory_cache, key);
        match found {
            Some(entry) => {
                if !is_expired(entry.created_at, now, self.ttl_seconds) {
                    self.stats.hits = self.stats.hits.wrapping_add(1);
                    self.stats.misses = self.stats.misses.wrapping_sub(1);
                    let size = entry.data.len() as u64;
                    self.stats.data_served_from_cache_bytes =
                        self.stats.data_served_from_cache_bytes.wrapping_add(size);
                    proof {
                        lemma_bump_lower(before.misses);
                    }
                    Some(entry)
                } else {
                    proof {
                        lemma_get_then_pop(before.memory, before.capacity, key@);
                    }
                    let _ = lru_pop(&mut self.memory_cache, key);
                    None
                }
            },
            None => None,
        }
    }

    /// Looks `key` up in memory at the current time: the outcome is that of
    /// `lookup_memory_at` for some instant.
    pub fn lookup_memory(&mut self, key: &str) -> (r: Option<Arc<CacheEntry>>)
        requires
            old(self).wf(),
        ensures
            final(self).wf(),
            exists|now: i128| #[trigger] lookup_outcome(old(self)@, final(self)@, key@, now, r),
    {
        let now = now_nanos();
        self.lookup_memory_at(key, now)
    }

    /// The name of the disk file that holds `key`, when there is a disk level.
    pub fn disk_file_name(&self, key: &str) -> (name: Option<String>)
        ensures
            self@.disk_dir is None ==> name is None,
            self@.disk_dir is Some ==> (name matches Some(n) && n@ == key_hash_spec(key@)),
    {
        if self.disk_path.is_some() {
            Some(key_to_hash(key))
        } else {
            None
        }
    }

    /// The name of the disk file to remove when the entry stored under file
    /// name `key_hash` is deleted: there is one when there is a disk level and
    /// the name is a single file name within its directory. Removing that
    /// file is then recorded with `record_disk_removal` (see
    /// `disk_removal_outcome`).
    pub fn disk_removal_name(&self, key_hash: &str) -> (name: Option<String>)
        ensures
            self@.disk_dir is None ==> name is None,
            self@.disk_dir is Some ==> (name is Some <==> is_plain_file_name_spec(key_hash@)),
            name matches Some(n) ==> n@ == key_hash@,
    {
        if self.disk_path.is_some() && is_plain_file_name(key_hash) {
            Some(key_hash.to_string())
        } else {
            None
        }
    }

    /// The directory of the disk level, if any.
    pub fn disk_dir(&self) -> (dir: Option<String>)
        ensures
            match dir {
                Some(d) => self@.disk_dir == Some(d@),
                None => self@.disk_dir is None,
            },
    {
        match &self.disk_path {
            Some(p) => Some(p.clone()),
            None => None,
        }
    }

    /// Serves an entry read back from disk for `key` at instant `now`, after
    /// its memory lookup missed (see `admit_outcome`).
    pub fn admit_from_disk_at(&mut self, key: &str, disk_entry: CacheEntryDisk, data: Vec<u8>, now: i128) -> (r: Option<Arc<CacheEntry>>)
        requires
            old(self).wf(),
        ensures
            final(self).wf(),
            admit_outcome(old(self)@, final(self)@, key@, disk_entry, data@, now, r),
    {
        if is_expired(disk_entry.created_at, now, self.ttl_seconds) {
            return None;
        }
        let ghost before = self@;
        let ghost disk_copy = disk_entry;
        let entry_data_len = data.len() as u64;
        let entry = Arc::new(CacheEntry {
            headers: disk_entry.headers,
            created_at: disk_entry.created_at,
            url: disk_entry.url,
            data,
        });
        self.stats.hits = self.stats.hits.wrapping_add(1);
        self.stats.misses = self.stats.misses.wrapping_sub(1);
        self.stats.data_served_from_cache_bytes = self.stats.data_served_from_cache_bytes.wrapping_add(entry_data_len);
        proof {
            lemma_ops_keep_valid(before.memory, before.capacity, key@, entry);
        }
        let _ = lru_put(&mut self.memory_cache, key.to_string(), share(&entry));
        Some(entry)
    }

    /// Serves an entry read back from disk at the current time: the outcome
    /// is that of `admit_from_disk_at` for some instant.
    pub fn admit_from_disk(&mut self, key: &str, disk_entry: CacheEntryDisk, data: Vec<u8>) -> (r: Option<Arc<CacheEntry>>)
        requires
            old(self).wf(),
        ensures
            final(self).wf(),
            exists|now: i128| #[trigger] admit_outcome(old(self)@, final(self)@, key@, disk_entry, data@, now, r),
    {
        let now = now_nanos();
        self.admit_from_disk_at(key, disk_entry, data, now)
    }

    /// Stores `entry` under `key` after the caller reported what it wrote to
    /// disk (see `put_outcome`).
    pub fn put(&mut self, key: &str, entry: CacheEntry, disk: DiskWrite) -> (stored: Arc<CacheEntry>)
        requires
            old(self).wf(),
        ensures
            final(self).wf(),
            *stored == entry,
            put_outcome(old(self)@, final(self)@, key@, stored, disk),
    {
        match disk {
            DiskWrite::NotWritten => {},
            DiskWrite::Written { existed, original_size, new_size } => {
                if !existed {
                    self.stats.disk_items = self.stats.disk_items.wrapping_add(1);
                }
                self.stats.total_disk_size_bytes = self.stats.total_disk_size_bytes.wrapping_add(new_size);
                self.stats.total_disk_size_bytes = self.stats.total_disk_size_bytes.wrapping_sub(original_size);
            },
        }
        let stored = Arc::new(entry);
        proof {
            lemma_ops_keep_valid(self@.memory, self@.capacity, key@, stored);
        }
        let _ = lru_put(&mut self.memory_cache, key.to_string(), share(&stored));
        stored
    }

    /// Empties the memory level and zeroes every statistic.
    pub fn clear(&mut self)
        requires
            old(self).wf(),
        ensures
            final(self).wf(),
            cleared(old(self)@, final(self)@),
    {
        lru_clear(&mut self.memory_cache);
        self.stats.hits = 0;
        self.stats.misses = 0;
        self.stats.disk_items = 0;
        self.stats.total_disk_size_bytes = 0;
        self.stats.data_served_from_cache_bytes = 0;
    }

    /// The statistics; the number of requests is the hits plus the misses.
    pub fn get_stats(&self) -> (s: CacheStats)
        requires
            self@.hits + self@.misses <= u64::MAX,
        ensures
            s.hits == self@.hits,
            s.misses == self@.misses,
            s.total_requests == self@.hits + self@.misses,
            s.in_memory_items == self@.memory.len(),
            s.disk_items == self@.disk_items,
            s.total_disk_size_bytes == self@.disk_bytes,
            s.data_served_from_cache_bytes == self@.served_bytes,
    {
        let hits = self.stats.hits;
        let misses = self.stats.misses;
        CacheStats {
            hits,
            misses,
            total_requests: hits + misses,
            in_memory_items: lru_len(&self.memory_cache),
            disk_items: self.stats.disk_items,
            total_disk_size_bytes: self.stats.total_disk_size_bytes,
            data_served_from_cache_bytes: self.stats.data_served_from_cache_bytes,
        }
    }

    /// Whether `get_stats` can add up the requests without overflow.
    pub fn stats_in_range(&self) -> (ok: bool)
        ensures
            ok == (self@.hits + self@.misses <= u64::MAX),
    {
        self.stats.hits <= u64::MAX - self.stats.misses
    }

    /// Drops from memory the most recently used entry whose key hashes to
    /// `key_hash` (see `delete_outcome`).
    pub fn delete_entry(&mut self, key_hash: &str)
        requires
            old(self).wf(),
        ensures
            final(self).wf(),
            delete_outcome(old(self)@, final(self)@, key_hash@),
    {
        let ghost before = self@;
        let keys = lru_keys(&self.memory_cache);
        let wanted = key_hash.to_string();
        let mut i: usize = 0;
        while i < keys.len()
            invariant
                i <= keys@.len(),
                keys@.len() == before.memory.len(),
                forall|k: int| 0 <= k < keys@.len() ==> #[trigger] keys@[k]@ == before.memory[k].0,
                wanted@ == key_hash@,
                self@ == before,
                old(self)@ == before,
                lru_valid(before.memory, before.capacity),
                forall|j: int| 0 <= j < i ==> key_hash_spec(#[trigger] before.memory[j].0) != key_hash@,
            decreases keys@.len() - i,
        {
            let h = key_to_hash(keys[i].as_str());
            if h == wanted {
                proof {
                    lemma_delete_at(before.memory, before.capacity, key_hash@, i as int);
                }
                let _ = lru_pop(&mut self.memory_cache, keys[i].as_str());
                return;
            }
            i = i + 1;
        }
        assert(!(exists|k: int| 0 <= k < before.memory.len() && key_hash_spec(#[trigger] before.memory[k].0) == key_hash@));
    }

    /// Records that the disk file of an entry, `size` bytes long, was removed.
    pub fn record_disk_removal(&mut self, size: u64)
        requires
            old(self).wf(),
        ensures
            final(self).wf(),
            disk_removal_outcome(old(self)@, final(self)@, size),
    {
        self.stats.disk_items = self.stats.disk_items.wrapping_sub(1);
        self.stats.total_disk_size_bytes = self.stats.total_disk_size_bytes.wrapping_sub(size);
    }
}



proof fn lemma_delete_at(e: Seq<(Seq<char>, Arc<CacheEntry>)>, cap: nat, hash: Seq<char>, i: int)
    requires
        lru_valid(e, cap),
        0 <= i < e.len(),
        key_hash_spec(e[i].0) == hash,
        forall|j: int| 0 <= j < i ==> key_hash_spec(#[trigger] e[j].0) != hash,
    ensures
        first_with_hash(e, hash) == Some(i),
        after_pop(e, e[i].0) == e.remove(i),
        lru_valid(after_pop(e, e[i].0), cap),
{
    lemma_first_with_hash(e, hash, i);
    lemma_position_unique(e, i);
    lemma_ops_keep_valid(e, cap, e[i].0, vstd::pervasive::arbitrary::<Arc<CacheEntry>>());
}

proof fn lemma_sum_sizes_prefix(s: Seq<u64>, n: int)
    requires
        0 < n <= s.len(),
    ensures
        sum_sizes(s.take(n)) == sum_sizes(s.take(n - 1)) + s[n - 1],
        sum_sizes(s.take(n)) <= sum_sizes(s),
    decreases s.len() - n,
{
    assert(s.take(n).drop_last() =~= s.take(n - 1));
    if n < s.len() {
        lemma_sum_sizes_prefix(s, n + 1);
    } else {
        assert(s.take(n) =~= s);
    }
}

proof fn lemma_get_then_pop(e: Seq<(Seq<char>, Arc<CacheEntry>)>, cap: nat, k: Seq<char>)
    requires
        lru_valid(e, cap),
        has_key(e, k),
    ensures
        has_key(after_get(e, k), k),
        key_position(after_get(e, k), k) == 0,
        after_get(e, k).remove(0) == after_pop(e, k),
        after_pop(after_get(e, k), k) == after_pop(e, k),
{
    let g = after_get(e, k);
    lemma_ops_keep_valid(e, cap, k, vstd::pervasive::arbitrary::<Arc<CacheEntry>>());
    lemma_key_position(e, k);
    assert(g[0].0 == k);
    lemma_position_unique(g, 0);
    assert(g.remove(0) =~= e.remove(key_position(e, k)));
}

} // verus!
