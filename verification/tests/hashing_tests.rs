use velocache::clock::{is_expired, now_nanos};
use velocache::hashing::{is_cache_file_name, key_to_hash, to_hex_lower};

#[test]
fn md5_hex_of_known_inputs() {
    assert_eq!(key_to_hash(""), "d41d8cd98f00b204e9800998ecf8427e");
    assert_eq!(key_to_hash("abc"), "900150983cd24fb0d6963f7d28e17f72");
    let key = "GET::http://example.com/ğüş";
    assert_eq!(key_to_hash(key), format!("{:x}", md5::compute(key)));
    assert_eq!(key_to_hash(key).len(), 32);
}

#[test]
fn hex_is_lower_case_two_digits_per_byte() {
    assert_eq!(to_hex_lower(&[0x00, 0xff, 0x1a, 0x09]), "00ff1a09");
    assert_eq!(to_hex_lower(&[]), "");
}

#[test]
fn expiry_rule() {
    let s: i128 = 1_000_000_000;
    assert!(!is_expired(0, 10 * s, 10));
    assert!(is_expired(0, 10 * s + 1, 10));
    assert!(!is_expired(20 * s, 0, 0));
    assert!(is_expired(i128::MIN, i128::MAX, u64::MAX));
    assert!(!is_expired(0, 0, 0));
}

#[test]
fn clock_reads_current_time() {
    let t = now_nanos();
    // after 2020-01-01
    assert!(t > 1_577_836_800i128 * 1_000_000_000);
}

#[test]
fn cache_file_names_are_32_lower_hex_digits() {
    assert!(is_cache_file_name(&key_to_hash("GET::http://a/")));
    assert!(is_cache_file_name("0123456789abcdef0123456789abcdef"));
    assert!(!is_cache_file_name("0123456789ABCDEF0123456789abcdef"));
    assert!(!is_cache_file_name("../../etc/passwd"));
    assert!(!is_cache_file_name("0123456789abcdef0123456789abcde"));
    assert!(!is_cache_file_name("0123456789abcdef0123456789abcdef0"));
    assert!(!is_cache_file_name(""));
}
