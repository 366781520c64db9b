use std::sync::Arc;
use velocache::cache::{CacheError, CacheManager, CacheStats, DiskWrite};
use velocache::config::{Cache, Certs, Log, Management, Proxy, Rules, Settings};
use velocache::entry::{CacheEntry, CacheEntryDisk, CacheEntryMetadata};
use velocache::hashing::key_to_hash;
use velocache::listing::sort_newest_first;

const SEC: i128 = 1_000_000_000;

fn settings(memory_items: usize, disk_path: Option<&str>, ttl_seconds: u64) -> Settings {
    Settings {
        proxy: Proxy {
            port: 3128,
            bind_address: "127.0.0.1".to_string(),
            user_agent: "VeloCache".to_string(),
            whitelist: vec![],
        },
        cache: Cache { memory_items, disk_path: disk_path.map(|p| p.to_string()), ttl_seconds },
        management: Management { port: 8080, bind_address: "127.0.0.1".to_string() },
        log: Log { level: "info".to_string() },
        certs: Certs { path: "certs".to_string() },
        rules: Rules::default(),
    }
}

fn entry(url: &str, data: &[u8], at: i128) -> CacheEntry {
    CacheEntry::stamped(url, data.to_vec(), http::HeaderMap::new(), at)
}

fn manager(memory_items: usize, ttl: u64) -> CacheManager {
    match CacheManager::new(&settings(memory_items, None, ttl)) {
        Ok(m) => m,
        Err(_) => panic!("a positive capacity is accepted"),
    }
}

fn stats(m: &CacheManager) -> CacheStats {
    assert!(m.stats_in_range());
    m.get_stats()
}

#[test]
fn zero_memory_items_is_refused() {
    let r = CacheManager::new(&settings(0, None, 60));
    assert_eq!(r.err(), Some(CacheError::ZeroMemoryItems));
    assert_eq!(CacheError::ZeroMemoryItems.message(), "Cache memory_items must be greater than 0");
}

#[test]
fn new_cache_starts_empty() {
    let m = manager(3, 60);
    let s = stats(&m);
    assert_eq!((s.hits, s.misses, s.total_requests, s.in_memory_items), (0, 0, 0, 0));
    assert_eq!((s.disk_items, s.total_disk_size_bytes, s.data_served_from_cache_bytes), (0, 0, 0));
    assert_eq!(m.disk_dir(), None);
}

#[test]
fn empty_disk_path_disables_disk() {
    let m = CacheManager::new(&settings(3, Some(""), 60)).ok().unwrap();
    assert_eq!(m.disk_dir(), None);
    assert_eq!(m.disk_file_name("GET::http://a/"), None);
    let m = CacheManager::new(&settings(3, Some("cache_dir"), 60)).ok().unwrap();
    assert_eq!(m.disk_dir(), Some("cache_dir".to_string()));
    assert_eq!(m.disk_file_name("GET::http://a/"), Some(key_to_hash("GET::http://a/")));
}

#[test]
fn read_after_write_serves_the_entry() {
    let mut m = manager(2, 60);
    m.put("k", entry("http://a/", b"hello", 100 * SEC), DiskWrite::NotWritten);
    let got = m.lookup_memory_at("k", 100 * SEC + 59 * SEC).expect("fresh entry is served");
    assert_eq!(got.data, b"hello".to_vec());
    assert_eq!(got.url, "http://a/");
    let s = stats(&m);
    assert_eq!((s.hits, s.misses, s.total_requests, s.data_served_from_cache_bytes), (1, 0, 1, 5));
}

#[test]
fn rewrite_replaces_the_value() {
    let mut m = manager(2, 60);
    m.put("k", entry("u1", b"one", 0), DiskWrite::NotWritten);
    m.put("k", entry("u2", b"two!", 0), DiskWrite::NotWritten);
    assert_eq!(stats(&m).in_memory_items, 1);
    let got = m.lookup_memory_at("k", 0).unwrap();
    assert_eq!(got.data, b"two!".to_vec());
}

#[test]
fn stale_entry_is_dropped_and_counts_a_miss() {
    let mut m = manager(2, 60);
    m.put("k", entry("u", b"x", 0), DiskWrite::NotWritten);
    // exactly the time-to-live old: still fresh
    assert!(m.lookup_memory_at("k", 60 * SEC).is_some());
    // one nanosecond older: stale
    assert!(m.lookup_memory_at("k", 60 * SEC + 1).is_none());
    let s = stats(&m);
    assert_eq!((s.hits, s.misses, s.in_memory_items), (1, 1, 0));
    assert!(m.lookup_memory_at("k", 0).is_none());
}

#[test]
fn future_timestamp_is_fresh() {
    let mut m = manager(2, 0);
    m.put("k", entry("u", b"x", 10 * SEC), DiskWrite::NotWritten);
    assert!(m.lookup_memory_at("k", 5 * SEC).is_some());
    assert!(m.lookup_memory_at("k", 10 * SEC).is_some());
    assert!(m.lookup_memory_at("k", 10 * SEC + 1).is_none());
}

#[test]
fn eviction_drops_least_recently_used() {
    let mut m = manager(2, 60);
    m.put("a", entry("a", b"1", 0), DiskWrite::NotWritten);
    m.put("b", entry("b", b"2", 0), DiskWrite::NotWritten);
    // reading "a" makes "b" the least recently used
    assert!(m.lookup_memory_at("a", 0).is_some());
    m.put("c", entry("c", b"3", 0), DiskWrite::NotWritten);
    assert_eq!(stats(&m).in_memory_items, 2);
    assert!(m.lookup_memory_at("b", 0).is_none());
    assert!(m.lookup_memory_at("a", 0).is_some());
    assert!(m.lookup_memory_at("c", 0).is_some());
}

#[test]
fn each_lookup_counts_once() {
    let mut m = manager(4, 60);
    m.put("present", entry("p", b"abc", 0), DiskWrite::NotWritten);
    for i in 0..5 {
        let before = stats(&m);
        let hit = m.lookup_memory_at(if i % 2 == 0 { "present" } else { "absent" }, 0).is_some();
        let after = stats(&m);
        assert_eq!(after.total_requests, before.total_requests + 1);
        assert_eq!(after.hits, before.hits + if hit { 1 } else { 0 });
    }
}

#[test]
fn disk_hit_counts_as_hit_and_is_promoted() {
    let mut m = manager(2, 60);
    assert!(m.lookup_memory_at("k", 0).is_none());
    assert_eq!((stats(&m).hits, stats(&m).misses), (0, 1));
    let disk = CacheEntryDisk { headers: http::HeaderMap::new(), created_at: 0, url: "http://d/".to_string() };
    let served = m.admit_from_disk_at("k", disk, b"from disk".to_vec(), 30 * SEC).expect("fresh disk entry");
    assert_eq!(served.data, b"from disk".to_vec());
    let s = stats(&m);
    assert_eq!((s.hits, s.misses, s.in_memory_items, s.data_served_from_cache_bytes), (1, 0, 1, 9));
    let again = m.lookup_memory_at("k", 31 * SEC).expect("now in memory");
    assert!(Arc::ptr_eq(&served, &again));
}

#[test]
fn stale_disk_entry_is_not_served() {
    let mut m = manager(2, 60);
    assert!(m.lookup_memory_at("k", 0).is_none());
    let disk = CacheEntryDisk { headers: http::HeaderMap::new(), created_at: 0, url: "u".to_string() };
    assert!(m.admit_from_disk_at("k", disk, b"old".to_vec(), 61 * SEC).is_none());
    let s = stats(&m);
    assert_eq!((s.hits, s.misses, s.in_memory_items), (0, 1, 0));
}

#[test]
fn current_time_lookup_and_admit() {
    let mut m = manager(2, 3600);
    m.put("k", CacheEntry::new("u", b"now".to_vec(), http::HeaderMap::new()), DiskWrite::NotWritten);
    assert!(m.lookup_memory("k").is_some());
    let disk = CacheEntryDisk { headers: http::HeaderMap::new(), created_at: velocache::clock::now_nanos(), url: "u".to_string() };
    assert!(m.admit_from_disk("j", disk, vec![1, 2]).is_some());
}

#[test]
fn disk_write_then_removal_restores_disk_stats() {
    let mut m = manager(2, 60);
    m.record_disk_scan(&vec![10, 20, 30]);
    let s = stats(&m);
    assert_eq!((s.disk_items, s.total_disk_size_bytes), (3, 60));
    m.put("k", entry("u", b"x", 0), DiskWrite::Written { existed: false, original_size: 0, new_size: 40 });
    assert_eq!((stats(&m).disk_items, stats(&m).total_disk_size_bytes), (4, 100));
    m.record_disk_removal(40);
    assert_eq!((stats(&m).disk_items, stats(&m).total_disk_size_bytes), (3, 60));
}

#[test]
fn overwriting_a_disk_file_keeps_the_count() {
    let mut m = manager(2, 60);
    m.record_disk_scan(&vec![50]);
    m.put("k", entry("u", b"x", 0), DiskWrite::Written { existed: true, original_size: 50, new_size: 70 });
    assert_eq!((stats(&m).disk_items, stats(&m).total_disk_size_bytes), (1, 70));
    m.put("k", entry("u", b"x", 0), DiskWrite::NotWritten);
    assert_eq!((stats(&m).disk_items, stats(&m).total_disk_size_bytes), (1, 70));
}

#[test]
fn disk_counters_wrap_like_atomics() {
    let mut m = manager(2, 60);
    m.record_disk_removal(5);
    let s = stats(&m);
    assert_eq!((s.disk_items, s.total_disk_size_bytes), (u64::MAX, u64::MAX - 4));
}

#[test]
fn clear_forgets_everything() {
    let mut m = manager(3, 60);
    m.record_disk_scan(&vec![1, 2]);
    m.put("a", entry("a", b"1", 0), DiskWrite::NotWritten);
    assert!(m.lookup_memory_at("a", 0).is_some());
    assert!(m.lookup_memory_at("b", 0).is_none());
    m.clear();
    let s = stats(&m);
    assert_eq!((s.hits, s.misses, s.in_memory_items, s.disk_items, s.total_disk_size_bytes, s.data_served_from_cache_bytes), (0, 0, 0, 0, 0, 0));
    assert!(m.lookup_memory_at("a", 0).is_none());
    assert_eq!(stats(&m).misses, 1);
}

#[test]
fn delete_entry_by_hash_forgets_the_key() {
    let mut m = manager(3, 60);
    m.put("a", entry("a", b"1", 0), DiskWrite::NotWritten);
    m.put("b", entry("b", b"2", 0), DiskWrite::NotWritten);
    m.delete_entry(&key_to_hash("a"));
    assert_eq!(stats(&m).in_memory_items, 1);
    assert!(m.lookup_memory_at("a", 0).is_none());
    assert!(m.lookup_memory_at("b", 0).is_some());
    // an unknown hash changes nothing
    m.delete_entry("00000000000000000000000000000000");
    assert_eq!(stats(&m).in_memory_items, 1);
}

#[test]
fn stats_total_is_hits_plus_misses() {
    let mut m = manager(2, 60);
    m.put("a", entry("a", b"xyz", 0), DiskWrite::NotWritten);
    m.lookup_memory_at("a", 0);
    m.lookup_memory_at("a", 0);
    m.lookup_memory_at("z", 0);
    let s = stats(&m);
    assert_eq!((s.hits, s.misses, s.total_requests, s.data_served_from_cache_bytes), (2, 1, 3, 6));
    let d = CacheStats::default();
    assert_eq!((d.hits, d.total_requests, d.in_memory_items), (0, 0, 0));
}

fn meta(url: &str, at: i128) -> CacheEntryMetadata {
    let disk = CacheEntryDisk { headers: http::HeaderMap::new(), created_at: at, url: url.to_string() };
    CacheEntryMetadata::from_disk(disk, url.len() as u64, key_to_hash(url))
}

#[test]
fn listing_is_newest_first_and_stable() {
    let rows = vec![meta("a", 5), meta("b", 9), meta("c", 5), meta("d", 1), meta("e", 9)];
    let sorted = sort_newest_first(rows);
    let urls: Vec<&str> = sorted.iter().map(|m| m.url.as_str()).collect();
    assert_eq!(urls, vec!["b", "e", "a", "c", "d"]);
    assert_eq!(sorted[0].size, 1);
    assert_eq!(sorted[0].hash, key_to_hash("b"));
    assert!(sort_newest_first(vec![]).is_empty());
}

#[test]
fn read_after_write_survives_other_operations() {
    let mut m = manager(3, 60);
    m.put("k", entry("http://k/", b"kept", 100 * SEC), DiskWrite::NotWritten);
    m.put("a", entry("http://a/", b"aa", 101 * SEC), DiskWrite::NotWritten);
    assert!(m.lookup_memory_at("missing", 102 * SEC).is_none());
    assert!(m.lookup_memory_at("a", 102 * SEC).is_some());
    m.delete_entry(&key_to_hash("a"));
    m.record_disk_removal(0);
    m.put("b", entry("http://b/", b"b", 103 * SEC), DiskWrite::NotWritten);
    let got = m.lookup_memory_at("k", 150 * SEC).expect("the stored entry is still served");
    assert_eq!(got.data, b"kept".to_vec());
    assert_eq!(got.url, "http://k/");
    assert_eq!(got.created_at, 100 * SEC);
}

#[test]
fn deleting_twice_changes_nothing_more() {
    let mut m = manager(3, 60);
    m.put("a", entry("http://a/", b"1", 0), DiskWrite::NotWritten);
    m.put("b", entry("http://b/", b"2", 0), DiskWrite::NotWritten);
    m.delete_entry(&key_to_hash("a"));
    let once = stats(&m);
    m.delete_entry(&key_to_hash("a"));
    let twice = stats(&m);
    assert_eq!(once.in_memory_items, 1);
    assert_eq!(
        (twice.hits, twice.misses, twice.in_memory_items, twice.disk_items, twice.total_disk_size_bytes),
        (once.hits, once.misses, once.in_memory_items, once.disk_items, once.total_disk_size_bytes)
    );
    assert!(m.lookup_memory_at("b", 1).is_some());
}

#[test]
fn disk_record_read_back_is_served_as_stored() {
    let mut m = manager(1, 60);
    m.put("k", entry("http://k/", b"body", 10 * SEC), DiskWrite::Written { existed: false, original_size: 0, new_size: 40 });
    m.put("other", entry("http://o/", b"o", 11 * SEC), DiskWrite::NotWritten);
    assert!(m.lookup_memory_at("k", 20 * SEC).is_none());
    let record = CacheEntryDisk { headers: http::HeaderMap::new(), created_at: 10 * SEC, url: "http://k/".to_string() };
    let got = m.admit_from_disk_at("k", record, b"body".to_vec(), 20 * SEC).expect("a fresh record is served");
    assert_eq!((got.url.as_str(), got.data.as_slice(), got.created_at), ("http://k/", &b"body"[..], 10 * SEC));
    let s = stats(&m);
    assert_eq!((s.hits, s.misses), (1, 0));
}

#[test]
fn removal_names_are_single_file_names() {
    let with_disk = CacheManager::new(&settings(3, Some("cache_dir"), 60)).ok().unwrap();
    let hash = key_to_hash("GET::http://a/");
    assert_eq!(with_disk.disk_removal_name(&hash), Some(hash.clone()));
    assert_eq!(with_disk.disk_removal_name("notes.txt"), Some("notes.txt".to_string()));
    assert_eq!(with_disk.disk_removal_name("../etc/passwd"), None);
    assert_eq!(with_disk.disk_removal_name("a/b"), None);
    assert_eq!(with_disk.disk_removal_name("a\\b"), None);
    assert_eq!(with_disk.disk_removal_name(".."), None);
    assert_eq!(with_disk.disk_removal_name("."), None);
    assert_eq!(with_disk.disk_removal_name(""), None);
    assert_eq!(with_disk.disk_removal_name("..."), Some("...".to_string()));
    let without_disk = manager(3, 60);
    assert_eq!(without_disk.disk_removal_name(&hash), None);
}
