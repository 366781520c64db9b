//! The records the cache stores: the full in-memory entry, the header that is
//! written to disk in front of the body, and the listing shown to the user.

use vstd::prelude::*;
use std::sync::Arc;

verus! {

/// `http::HeaderMap`, carried through the cache unread.
#[verifier::external_type_specification]
#[verifier::external_body]
#[verifier::reject_recursive_types(T)]
pub struct ExHeaderMap<T>(http::HeaderMap<T>);

/// `http::HeaderValue`, the value type of a header map.
#[verifier::external_type_specification]
#[verifier::external_body]
pub struct ExHeaderValue(http::HeaderValue);

/// A cached response held in memory: its headers, the instant it was stored
/// (nanoseconds since the UNIX epoch), the URL and the body bytes.
pub struct CacheEntry {
    pub headers: http::HeaderMap,
    pub created_at: i128,
    pub url: String,
    pub data: Vec<u8>,
}

/// What is written to disk in front of the body of an entry.
pub struct CacheEntryDisk {
    pub headers: http::HeaderMap,
    pub created_at: i128,
    pub url: String,
}

/// One row of the cache listing: the stored record without its body, with
/// the body's size and the file name (the key's hash) under which it is stored.
pub struct CacheEntryMetadata {
    pub headers: http::HeaderMap,
    pub created_at: i128,
    pub url: String,
    pub size: u64,
    pub hash: String,
}

/// Shares one value between two owners (`Arc::clone`).
/// Trusted: the clone points at the same value.
#[verifier::external_body]
pub(crate) fn share<T>(value: &Arc<T>) -> (shared: Arc<T>)
    ensures
        shared == *value,
{
    Arc::clone(value)
}

impl CacheEntry {
    /// A new entry stamped with the given instant.
    pub fn stamped(url: &str, data: Vec<u8>, headers: http::HeaderMap, created_at: i128) -> (e: CacheEntry)
        ensures
            e.url@ == url@,
            e.data == data,
            e.headers == headers,
            e.created_at == created_at,
    {
        CacheEntry { headers, created_at, url: url.to_string(), data }
    }

    /// A new entry stamped with the current time.
    pub fn new(url: &str, data: Vec<u8>, headers: http::HeaderMap) -> (e: CacheEntry)
        ensures
            e.url@ == url@,
            e.data == data,
            e.headers == headers,
            exists|secs: i64, nanos: u32|
                nanos < 2_000_000_000 && e.created_at == crate::clock::instant_nanos(secs, nanos),
    {
        let now = crate::clock::now_nanos();
        CacheEntry::stamped(url, data, headers, now)
    }
}

impl CacheEntryMetadata {
    /// The listing row for a disk record whose body has `size` bytes and
    /// whose file is named `hash`.
    pub fn from_disk(disk: CacheEntryDisk, size: u64, hash: String) -> (m: CacheEntryMetadata)
        ensures
            m.headers == disk.headers,
            m.created_at == disk.created_at,
            m.url == disk.url,
            m.size == size,
            m.hash == hash,
    {
        CacheEntryMetadata { headers: disk.headers, created_at: disk.created_at, url: disk.url, size, hash }
    }
}

} // verus!
