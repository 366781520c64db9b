//! Properties of the cache that span several operations, proved from the
//! outcomes the operations guarantee.

use vstd::prelude::*;
use std::sync::Arc;
use crate::cache::{
    admit_outcome, bump, cleared, delete_outcome, disk_removal_outcome, first_with_hash, lookup_outcome, put_outcome,
    CacheView, DiskWrite,
};
use crate::clock::expired;
use crate::entry::{CacheEntry, CacheEntryDisk};
use crate::hashing::key_hash_spec;
use crate::memory::{
    after_get, after_pop, after_put, has_key, key_position, keys_distinct, lemma_key_position, lemma_ops_keep_valid, lemma_position_unique, lookup,
    lru_valid,
};

verus! {

/// One operation on the cache, with what it was given and what it returned.
pub enum CacheStep {
    /// A memory lookup of `key` at instant `now` that returned `r`.
    Lookup { key: Seq<char>, now: i128, r: Option<Arc<CacheEntry>> },
    /// An entry of `key` read back from disk at instant `now`, returning `r`.
    Admit { key: Seq<char>, disk: CacheEntryDisk, data: Seq<u8>, now: i128, r: Option<Arc<CacheEntry>> },
    /// Storing `entry` under `key`.
    Put { key: Seq<char>, entry: Arc<CacheEntry>, disk: DiskWrite },
    /// Deleting the entry stored under file name `hash`.
    Delete { hash: Seq<char> },
    /// Clearing the whole cache.
    Clear,
    /// Accounting for a removed disk file of `size` bytes.
    DiskRemoval { size: u64 },
}

/// The effect each operation guarantees.
pub open spec fn step_outcome(before: CacheView, after: CacheView, step: CacheStep) -> bool {
    match step {
        CacheStep::Lookup { key, now, r } => lookup_outcome(before, after, key, now, r),
        CacheStep::Admit { key, disk, data, now, r } => admit_outcome(before, after, key, disk, data, now, r),
        CacheStep::Put { key, entry, disk } => put_outcome(before, after, key, entry, disk),
        CacheStep::Delete { hash } => delete_outcome(before, after, hash),
        CacheStep::Clear => cleared(before, after),
        CacheStep::DiskRemoval { size } => disk_removal_outcome(before, after, size),
    }
}

/// Whether the operation stores an entry under `key`.
pub open spec fn writes_key(step: CacheStep, key: Seq<char>) -> bool {
    match step {
        CacheStep::Admit { key: k, .. } => k == key,
        CacheStep::Put { key: k, .. } => k == key,
        _ => false,
    }
}

/// A pair of `after` found under `key` that is also a pair of `before`
/// is what `before` held under `key`.
proof fn lemma_pair_kept<V>(before: Seq<(Seq<char>, V)>, after: Seq<(Seq<char>, V)>, key: Seq<char>, j: int)
    requires
        keys_distinct(before),
        keys_distinct(after),
        has_key(after, key),
        0 <= j < before.len(),
        before[j] == after[key_position(after, key)],
    ensures
        has_key(before, key),
        lookup(after, key) == lookup(before, key),
{
    lemma_key_position(after, key);
    lemma_position_unique(before, j);
}

/// Removing the pair at `i` keeps the keys distinct, and every remaining
/// key keeps its value.
proof fn lemma_remove_keeps(e: Seq<(Seq<char>, Arc<CacheEntry>)>, cap: nat, i: int, key: Seq<char>)
    requires
        lru_valid(e, cap),
        0 <= i < e.len(),
    ensures
        lru_valid(e.remove(i), cap),
        has_key(e.remove(i), key) ==> has_key(e, key) && lookup(e.remove(i), key) == lookup(e, key),
{
    let r = e.remove(i);
    assert forall|a: int, b: int| 0 <= a < r.len() && 0 <= b < r.len() && a != b implies #[trigger] r[a].0 != #[trigger] r[b].0 by {
        let a2 = if a < i { a } else { a + 1 };
        let b2 = if b < i { b } else { b + 1 };
        assert(r[a] == e[a2]);
        assert(r[b] == e[b2]);
    }
    if has_key(r, key) {
        let p = key_position(r, key);
        lemma_key_position(r, key);
        let p2 = if p < i { p } else { p + 1 };
        assert(r[p] == e[p2]);
        lemma_pair_kept(e, r, key, p2);
    }
}

/// Reading, storing under another key, or removing keeps what memory holds
/// under `key`, as long as `key` is still there.
proof fn lemma_memory_ops_keep(e: Seq<(Seq<char>, Arc<CacheEntry>)>, cap: nat, k: Seq<char>, v: Arc<CacheEntry>, key: Seq<char>)
    requires
        lru_valid(e, cap),
    ensures
        has_key(after_get(e, k), key) ==> has_key(e, key) && lookup(after_get(e, k), key) == lookup(e, key),
        has_key(after_pop(e, k), key) ==> has_key(e, key) && lookup(after_pop(e, k), key) == lookup(e, key),
        k != key && has_key(after_put(e, cap, k, v), key) ==> has_key(e, key) && lookup(after_put(e, cap, k, v), key) == lookup(e, key),
{
    lemma_ops_keep_valid(e, cap, k, v);
    if has_key(e, k) {
        let i = key_position(e, k);
        lemma_key_position(e, k);
        lemma_remove_keeps(e, cap, i, key);
        let r = e.remove(i);
        let g = after_get(e, k);
        if has_key(g, key) {
            let p = key_position(g, key);
            lemma_key_position(g, key);
            if p == 0 {
                lemma_pair_kept(e, g, key, i);
            } else {
                let p2 = if p - 1 < i { p - 1 } else { p };
                assert(g[p] == e[p2]);
                lemma_pair_kept(e, g, key, p2);
            }
        }
        let u = after_put(e, cap, k, v);
        if k != key && has_key(u, key) {
            let p = key_position(u, key);
            lemma_key_position(u, key);
            let p2 = if p - 1 < i { p - 1 } else { p };
            assert(u[p] == e[p2]);
            lemma_pair_kept(e, u, key, p2);
        }
    } else {
        let u = after_put(e, cap, k, v);
        if k != key && has_key(u, key) {
            let p = key_position(u, key);
            lemma_key_position(u, key);
            assert(u[p] == e[p - 1]);
            lemma_pair_kept(e, u, key, p - 1);
        }
    }
}

/// What every operation that stores nothing under `key` keeps.
pub open spec fn keeps_entry(before: CacheView, after: CacheView, key: Seq<char>) -> bool {
    &&& lru_valid(after.memory, after.capacity)
    &&& after.capacity == before.capacity
    &&& after.ttl_seconds == before.ttl_seconds
    &&& has_key(after.memory, key) ==> has_key(before.memory, key) && lookup(after.memory, key) == lookup(
        before.memory,
        key,
    )
}

proof fn lemma_lookup_keeps(before: CacheView, after: CacheView, k: Seq<char>, now: i128, r: Option<Arc<CacheEntry>>, key: Seq<char>)
    requires
        lru_valid(before.memory, before.capacity),
        lookup_outcome(before, after, k, now, r),
    ensures
        keeps_entry(before, after, key),
{
    lemma_memory_ops_keep(before.memory, before.capacity, k, arbitrary_entry(r), key);
}

proof fn lemma_admit_keeps(
    before: CacheView,
    after: CacheView,
    k: Seq<char>,
    disk: CacheEntryDisk,
    data: Seq<u8>,
    now: i128,
    r: Option<Arc<CacheEntry>>,
    key: Seq<char>,
)
    requires
        lru_valid(before.memory, before.capacity),
        admit_outcome(before, after, k, disk, data, now, r),
        k != key,
    ensures
        keeps_entry(before, after, key),
{
    lemma_memory_ops_keep(before.memory, before.capacity, k, arbitrary_entry(r), key);
}

proof fn lemma_put_keeps(before: CacheView, after: CacheView, k: Seq<char>, entry: Arc<CacheEntry>, disk: DiskWrite, key: Seq<char>)
    requires
        lru_valid(before.memory, before.capacity),
        put_outcome(before, after, k, entry, disk),
        k != key,
    ensures
        keeps_entry(before, after, key),
{
    lemma_memory_ops_keep(before.memory, before.capacity, k, entry, key);
}

/// Where a first key with the hash is found, it is a position of memory.
proof fn lemma_first_with_hash_in_range(e: Seq<(Seq<char>, Arc<CacheEntry>)>, hash: Seq<char>)
    ensures
        first_with_hash(e, hash) matches Some(i) ==> 0 <= i < e.len() && key_hash_spec(e[i].0) == hash
            && forall|j: int| 0 <= j < i ==> key_hash_spec(#[trigger] e[j].0) != hash,
{
    if exists|i: int| 0 <= i < e.len() && key_hash_spec(#[trigger] e[i].0) == hash {
        let k = choose|i: int| 0 <= i < e.len() && key_hash_spec(#[trigger] e[i].0) == hash;
        lemma_least_with_hash(e, hash, k);
    }
}

/// Below any position whose key has the hash there is a least one.
proof fn lemma_least_with_hash(e: Seq<(Seq<char>, Arc<CacheEntry>)>, hash: Seq<char>, k: int)
    requires
        0 <= k < e.len(),
        key_hash_spec(e[k].0) == hash,
    ensures
        exists|i: int|
            0 <= i < e.len() && key_hash_spec(#[trigger] e[i].0) == hash && forall|j: int|
                0 <= j < i ==> key_hash_spec(#[trigger] e[j].0) != hash,
    decreases k,
{
    if exists|j: int| 0 <= j < k && key_hash_spec(#[trigger] e[j].0) == hash {
        let j = choose|j: int| 0 <= j < k && key_hash_spec(#[trigger] e[j].0) == hash;
        lemma_least_with_hash(e, hash, j);
    } else {
        assert(forall|j: int| 0 <= j < k ==> key_hash_spec(#[trigger] e[j].0) != hash);
    }
}

proof fn lemma_delete_keeps(before: CacheView, after: CacheView, hash: Seq<char>, key: Seq<char>)
    requires
        lru_valid(before.memory, before.capacity),
        delete_outcome(before, after, hash),
    ensures
        keeps_entry(before, after, key),
{
    let e = before.memory;
    lemma_first_with_hash_in_range(e, hash);
    if let Some(i) = first_with_hash(e, hash) {
        lemma_remove_keeps(e, before.capacity, i, key);
        assert(after.memory == e.remove(i));
    }
}

/// One operation that stores nothing under `key` keeps memory valid, and
/// keeps what memory holds under `key` as long as `key` is still there.
proof fn lemma_step_keeps(before: CacheView, after: CacheView, step: CacheStep, key: Seq<char>)
    requires
        lru_valid(before.memory, before.capacity),
        step_outcome(before, after, step),
        !writes_key(step, key),
    ensures
        keeps_entry(before, after, key),
{
    match step {
        CacheStep::Lookup { key: k, now, r } => lemma_lookup_keeps(before, after, k, now, r, key),
        CacheStep::Admit { key: k, disk, data, now, r } => lemma_admit_keeps(before, after, k, disk, data, now, r, key),
        CacheStep::Put { key: k, entry, disk } => lemma_put_keeps(before, after, k, entry, disk, key),
        CacheStep::Delete { hash } => lemma_delete_keeps(before, after, hash, key),
        CacheStep::Clear => {},
        CacheStep::DiskRemoval { size } => {},
    }
}

/// The entry a lookup result carries, or any entry when there is none.
spec fn arbitrary_entry(r: Option<Arc<CacheEntry>>) -> Arc<CacheEntry> {
    match r {
        Some(e) => e,
        None => arbitrary(),
    }
}

/// After storing `entry` under `key` and then `steps.len()` further
/// operations, none of which stores under `key`: memory is valid, and if
/// `key` is still in memory it holds `entry`.
proof fn lemma_entry_kept(
    views: Seq<CacheView>,
    steps: Seq<CacheStep>,
    key: Seq<char>,
    entry: Arc<CacheEntry>,
    disk: DiskWrite,
    n: int,
)
    requires
        views.len() == steps.len() + 2,
        0 <= n <= steps.len(),
        lru_valid(views[0].memory, views[0].capacity),
        put_outcome(views[0], views[1], key, entry, disk),
        forall|i: int| 0 <= i < steps.len() ==> step_outcome(views[i + 1], views[i + 2], #[trigger] steps[i]),
        forall|i: int| 0 <= i < steps.len() ==> !writes_key(#[trigger] steps[i], key),
    ensures
        lru_valid(views[n + 1].memory, views[n + 1].capacity),
        views[n + 1].ttl_seconds == views[0].ttl_seconds,
        has_key(views[n + 1].memory, key) ==> lookup(views[n + 1].memory, key) == Some(entry),
    decreases n,
{
    if n == 0 {
        lemma_ops_keep_valid(views[0].memory, views[0].capacity, key, entry);
        let m = views[1].memory;
        assert(m[0] == (key, entry));
        lemma_position_unique(m, 0);
    } else {
        lemma_entry_kept(views, steps, key, entry, disk, n - 1);
        lemma_step_keeps(views[n], views[n + 1], steps[n - 1], key);
    }
}

/// A read gives back what the last write stored, whatever came between:
/// after storing `entry` under `key`, then any operations that store
/// nothing under `key`, a lookup of `key` while it is still in memory and
/// the entry is fresh serves exactly that entry and counts a hit.
pub proof fn law_read_after_write_later(
    views: Seq<CacheView>,
    steps: Seq<CacheStep>,
    key: Seq<char>,
    entry: Arc<CacheEntry>,
    disk: DiskWrite,
    last: CacheView,
    now: i128,
    r: Option<Arc<CacheEntry>>,
)
    requires
        views.len() == steps.len() + 2,
        lru_valid(views[0].memory, views[0].capacity),
        put_outcome(views[0], views[1], key, entry, disk),
        forall|i: int| 0 <= i < steps.len() ==> step_outcome(views[i + 1], views[i + 2], #[trigger] steps[i]),
        forall|i: int| 0 <= i < steps.len() ==> !writes_key(#[trigger] steps[i], key),
        has_key(views.last().memory, key),
        lookup_outcome(views.last(), last, key, now, r),
        !expired(entry.created_at, now, views[0].ttl_seconds),
    ensures
        r == Some(entry),
        last.hits == bump(views.last().hits, 1),
        last.misses == views.last().misses,
{
    let n = steps.len() as int;
    lemma_entry_kept(views, steps, key, entry, disk, n);
    let m = views[n + 1].memory;
    lemma_key_position(m, key);
}

/// Storing `entry` under `key` leaves exactly that entry under `key`.
pub proof fn law_put_stores(before: CacheView, after: CacheView, key: Seq<char>, entry: Arc<CacheEntry>, disk: DiskWrite)
    requires
        lru_valid(before.memory, before.capacity),
        put_outcome(before, after, key, entry, disk),
    ensures
        lookup(after.memory, key) == Some(entry),
{
    lemma_ops_keep_valid(before.memory, before.capacity, key, entry);
    assert(after.memory[0] == (key, entry));
    lemma_position_unique(after.memory, 0);
}

/// Any operation that stores nothing under `key` leaves what memory holds
/// under `key` as it was, unless it drops `key` from memory altogether.
pub proof fn law_other_operations_keep_entry(before: CacheView, after: CacheView, step: CacheStep, key: Seq<char>)
    requires
        lru_valid(before.memory, before.capacity),
        step_outcome(before, after, step),
        !writes_key(step, key),
    ensures
        lru_valid(after.memory, after.capacity),
        has_key(after.memory, key) ==> lookup(after.memory, key) == lookup(before.memory, key),
{
    lemma_step_keeps(before, after, step, key);
}

/// Deleting the same file name twice changes nothing the second time,
/// provided at most one key in memory has that name.
pub proof fn law_delete_twice_is_once(v0: CacheView, v1: CacheView, v2: CacheView, hash: Seq<char>)
    requires
        delete_outcome(v0, v1, hash),
        delete_outcome(v1, v2, hash),
        forall|i: int, j: int|
            0 <= i < v0.memory.len() && 0 <= j < v0.memory.len() && key_hash_spec(#[trigger] v0.memory[i].0) == hash
                && key_hash_spec(#[trigger] v0.memory[j].0) == hash ==> i == j,
    ensures
        v2 == v1,
{
    let e = v0.memory;
    match first_with_hash(e, hash) {
        Some(i) => {
            let c = choose|k: int|
                0 <= k < e.len() && key_hash_spec(#[trigger] e[k].0) == hash && forall|j: int|
                    0 <= j < k ==> key_hash_spec(#[trigger] e[j].0) != hash;
            assert(c == i);
            let r = e.remove(i);
            assert forall|k: int| 0 <= k < r.len() implies key_hash_spec(#[trigger] r[k].0) != hash by {
                let k2 = if k < i { k } else { k + 1 };
                assert(r[k] == e[k2]);
            }
            assert(first_with_hash(r, hash) is None);
        },
        None => {},
    }
    assert(v2.memory == v1.memory);
}

/// A read gives back what the last write stored: after storing `entry`
/// under `key`, a lookup of `key` before the entry goes stale serves
/// exactly that entry and counts a hit.
pub proof fn law_read_after_write(
    v0: CacheView,
    v1: CacheView,
    v2: CacheView,
    key: Seq<char>,
    entry: Arc<CacheEntry>,
    disk: DiskWrite,
    now: i128,
    r: Option<Arc<CacheEntry>>,
)
    requires
        lru_valid(v0.memory, v0.capacity),
        put_outcome(v0, v1, key, entry, disk),
        lookup_outcome(v1, v2, key, now, r),
        !expired(entry.created_at, now, v0.ttl_seconds),
    ensures
        r == Some(entry),
        v2.hits == bump(v1.hits, 1),
        v2.misses == v1.misses,
{
    let m = v1.memory;
    assert(m[0] == (key, entry));
    lemma_ops_keep_valid(v0.memory, v0.capacity, key, entry);
    lemma_position_unique(m, 0);
}

/// What a lookup serves is what memory held under the key, and never a
/// stale entry.
pub proof fn law_served_entries_are_fresh(
    before: CacheView,
    after: CacheView,
    key: Seq<char>,
    now: i128,
    r: Option<Arc<CacheEntry>>,
)
    requires
        lookup_outcome(before, after, key, now, r),
    ensures
        r matches Some(e) ==> Some(e) == lookup(before.memory, key) && !expired(e.created_at, now, before.ttl_seconds),
{
}

/// Every lookup counts exactly one request: a hit when it serves an entry,
/// a miss otherwise.
pub proof fn law_each_lookup_counts_once(
    before: CacheView,
    after: CacheView,
    key: Seq<char>,
    now: i128,
    r: Option<Arc<CacheEntry>>,
)
    requires
        lookup_outcome(before, after, key, now, r),
    ensures
        r is Some ==> after.hits == bump(before.hits, 1) && after.misses == before.misses,
        r is None ==> after.hits == before.hits && after.misses == bump(before.misses, 1),
{
}

/// A request answered from disk counts as one hit and no miss: the miss of
/// its memory lookup is taken back when the disk entry is served.
pub proof fn law_disk_hit_counts_as_hit(
    v0: CacheView,
    v1: CacheView,
    v2: CacheView,
    key: Seq<char>,
    now1: i128,
    disk: CacheEntryDisk,
    data: Seq<u8>,
    now2: i128,
    r2: Option<Arc<CacheEntry>>,
)
    requires
        lookup_outcome(v0, v1, key, now1, None),
        admit_outcome(v1, v2, key, disk, data, now2, r2),
        r2 is Some,
    ensures
        v2.hits == bump(v0.hits, 1),
        v2.misses == v0.misses,
{
}

/// An entry served from disk is afterwards the most recently used entry in
/// memory, so the next lookup finds it there while it is fresh.
pub proof fn law_disk_hit_is_promoted(
    v1: CacheView,
    v2: CacheView,
    v3: CacheView,
    key: Seq<char>,
    disk: CacheEntryDisk,
    data: Seq<u8>,
    now: i128,
    later: i128,
    r2: Option<Arc<CacheEntry>>,
    r3: Option<Arc<CacheEntry>>,
)
    requires
        lru_valid(v1.memory, v1.capacity),
        admit_outcome(v1, v2, key, disk, data, now, r2),
        r2 is Some,
        lookup_outcome(v2, v3, key, later, r3),
        !expired(disk.created_at, later, v1.ttl_seconds),
    ensures
        r3 == r2,
{
    let entry = r2->0;
    lemma_ops_keep_valid(v1.memory, v1.capacity, key, entry);
    assert(v2.memory[0] == (key, entry));
    lemma_position_unique(v2.memory, 0);
}

/// Storing under a new key in a full memory level evicts exactly the least
/// recently used entry; every other entry stays, and the new one is the
/// most recently used.
pub proof fn law_eviction_drops_least_recent(
    before: CacheView,
    after: CacheView,
    key: Seq<char>,
    entry: Arc<CacheEntry>,
    disk: DiskWrite,
)
    requires
        lru_valid(before.memory, before.capacity),
        put_outcome(before, after, key, entry, disk),
        !has_key(before.memory, key),
        before.memory.len() == before.capacity,
    ensures
        after.memory.len() == before.capacity,
        after.memory[0] == (key, entry),
        !has_key(after.memory, before.memory.last().0),
        forall|i: int| 0 <= i < before.memory.len() - 1 ==> after.memory[i + 1] == #[trigger] before.memory[i],
{
    lemma_ops_keep_valid(before.memory, before.capacity, key, entry);
    let last = before.memory.last().0;
    if has_key(after.memory, last) {
        let p = key_position(after.memory, last);
        lemma_key_position(after.memory, last);
        if p == 0 {
            assert(has_key(before.memory, key));
        } else {
            assert(after.memory[p] == before.memory[p - 1]);
            assert(before.memory[p - 1].0 == before.memory[before.memory.len() - 1].0);
        }
    }
}

/// Memory never holds more entries than its capacity, and never one key twice.
pub proof fn law_memory_stays_bounded(
    before: CacheView,
    after: CacheView,
    key: Seq<char>,
    entry: Arc<CacheEntry>,
    disk: DiskWrite,
)
    requires
        lru_valid(before.memory, before.capacity),
        put_outcome(before, after, key, entry, disk),
    ensures
        lru_valid(after.memory, after.capacity),
        after.memory.len() <= after.capacity,
{
    lemma_ops_keep_valid(before.memory, before.capacity, key, entry);
}

/// After clearing, every lookup misses and the statistics start from zero.
pub proof fn law_clear_forgets_everything(
    v0: CacheView,
    v1: CacheView,
    v2: CacheView,
    key: Seq<char>,
    now: i128,
    r: Option<Arc<CacheEntry>>,
)
    requires
        cleared(v0, v1),
        lookup_outcome(v1, v2, key, now, r),
    ensures
        r is None,
        v2.hits == 0,
        v2.misses == 1,
        v2.memory.len() == 0,
{
}

/// Writing a new disk file and later removing it puts the disk statistics
/// back where they were.
pub proof fn law_disk_write_then_remove_restores(
    v0: CacheView,
    v1: CacheView,
    v2: CacheView,
    key: Seq<char>,
    entry: Arc<CacheEntry>,
    size: u64,
)
    requires
        put_outcome(v0, v1, key, entry, DiskWrite::Written { existed: false, original_size: 0, new_size: size }),
        disk_removal_outcome(v1, v2, size),
    ensures
        v2.disk_items == v0.disk_items,
        v2.disk_bytes == v0.disk_bytes,
{
}

/// Deleting by a key's hash drops that key from memory, provided no other
/// key in memory has the same hash.
pub proof fn law_delete_forgets_key(before: CacheView, after: CacheView, key: Seq<char>)
    requires
        lru_valid(before.memory, before.capacity),
        delete_outcome(before, after, key_hash_spec(key)),
        forall|i: int|
            0 <= i < before.memory.len() && key_hash_spec(#[trigger] before.memory[i].0) == key_hash_spec(key)
                ==> before.memory[i].0 == key,
    ensures
        !has_key(after.memory, key),
        has_key(before.memory, key) ==> after.memory.len() == before.memory.len() - 1,
{
    let e = before.memory;
    let h = key_hash_spec(key);
    match first_with_hash(e, h) {
        Some(i) => {
            let c = choose|k: int|
                0 <= k < e.len() && key_hash_spec(#[trigger] e[k].0) == h && forall|j: int|
                    0 <= j < k ==> key_hash_spec(#[trigger] e[j].0) != h;
            assert(c == i);
            assert(e[i].0 == key);
            let r = e.remove(i);
            if has_key(r, key) {
                let p = key_position(r, key);
                lemma_key_position(r, key);
                let p2 = if p < i { p } else { p + 1 };
                assert(r[p] == e[p2]);
            }
        },
        None => {
            if has_key(e, key) {
                lemma_key_position(e, key);
                let k = key_position(e, key);
                assert(key_hash_spec(e[k].0) == h);
            }
        },
    }
}

/// A read gives back what the last write stored on disk: when a store of
/// `entry` under `key` wrote its file, and a later lookup that misses in
/// memory is followed by reading that file back unchanged while the entry is
/// fresh, the entry served has the stored address, headers, time stamp and
/// body, and the request counts as one hit.
pub proof fn law_disk_read_after_write(
    v0: CacheView,
    v1: CacheView,
    key: Seq<char>,
    entry: Arc<CacheEntry>,
    existed: bool,
    original_size: u64,
    new_size: u64,
    w0: CacheView,
    w1: CacheView,
    w2: CacheView,
    now1: i128,
    disk: CacheEntryDisk,
    data: Seq<u8>,
    now2: i128,
    r: Option<Arc<CacheEntry>>,
)
    requires
        put_outcome(v0, v1, key, entry, DiskWrite::Written { existed, original_size, new_size }),
        lookup_outcome(w0, w1, key, now1, None),
        admit_outcome(w1, w2, key, disk, data, now2, r),
        disk.url == entry.url && disk.headers == entry.headers && disk.created_at == entry.created_at,
        data == entry.data@,
        !expired(entry.created_at, now2, w1.ttl_seconds),
    ensures
        r matches Some(e) && e.url == entry.url && e.headers == entry.headers && e.created_at == entry.created_at
            && e.data@ == entry.data@,
        w2.hits == bump(w0.hits, 1),
        w2.misses == w0.misses,
{
}

/// Time-to-live, in the nanoseconds that entries are stamped with: a
/// lookup at instant `now` of an entry stamped more than `ttl_seconds`
/// seconds (times 10^9 nanoseconds) earlier serves nothing, drops the entry
/// from memory and counts a miss; an entry stamped at most that long ago is
/// served and counted as a hit.
pub proof fn law_time_to_live(
    before: CacheView,
    after: CacheView,
    key: Seq<char>,
    now: i128,
    r: Option<Arc<CacheEntry>>,
)
    requires
        lru_valid(before.memory, before.capacity),
        lookup_outcome(before, after, key, now, r),
    ensures
        lookup(before.memory, key) matches Some(e) ==> (now - e.created_at > before.ttl_seconds * 1_000_000_000 ==> {
            &&& r is None
            &&& !has_key(after.memory, key)
            &&& after.hits == before.hits
            &&& after.misses == bump(before.misses, 1)
        }),
        lookup(before.memory, key) matches Some(e) ==> (now - e.created_at <= before.ttl_seconds * 1_000_000_000 ==> {
            &&& r == Some(e)
            &&& after.hits == bump(before.hits, 1)
            &&& after.misses == before.misses
        }),
        lookup(before.memory, key) is None ==> r is None,
{
    let e = before.memory;
    if has_key(e, key) {
        lemma_key_position(e, key);
        let i = key_position(e, key);
        let r2 = e.remove(i);
        lemma_remove_keeps(e, before.capacity, i, key);
        if has_key(r2, key) {
            let p = key_position(r2, key);
            lemma_key_position(r2, key);
            let p2 = if p < i { p } else { p + 1 };
            assert(r2[p] == e[p2]);
            lemma_position_unique(e, p2);
        }
    }
}

} // verus!
