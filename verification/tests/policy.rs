use sark::entry::CacheEntry;
use sark::error::CacheError;
use sark::policy::{count_live, expiry, find_key, purge_expired, select_victim};

fn entry(key: &str, created_at: u64, expires_at: u64) -> CacheEntry {
    CacheEntry { key: key.to_string(), value: format!("v-{}", key), created_at, expires_at }
}

fn keys(entries: &Vec<CacheEntry>) -> Vec<String> {
    entries.iter().map(|e| e.key.clone()).collect()
}

#[test]
fn liveness_is_strict() {
    let e = entry("a", 0, 10);
    assert!(e.is_live(0));
    assert!(e.is_live(9));
    assert!(!e.is_live(10));
    assert!(!e.is_live(11));
}

#[test]
fn expiry_adds_the_ttl_in_ticks() {
    assert_eq!(expiry(Some(5), 60, 100), Ok(5100));
    assert_eq!(expiry(None, 60, 100), Ok(60100));
    assert_eq!(expiry(Some(1), 60, u64::MAX - 1000), Ok(u64::MAX));
}

#[test]
fn expiry_rejects_zero_and_overflow() {
    let zero = Err(CacheError::InvalidTTL("ttl must be greater than 0".to_string()));
    let large = Err(CacheError::InvalidTTL("ttl is too large".to_string()));
    assert_eq!(expiry(Some(0), 60, 100), zero);
    assert_eq!(expiry(None, 0, 100), zero);
    assert_eq!(expiry(Some(1), 60, u64::MAX - 999), large);
    assert_eq!(expiry(Some(u64::MAX / 1000 + 1), 60, 0), large);
    assert_eq!(expiry(None, u64::MAX, 0), large);
}

#[test]
fn find_key_gives_the_place() {
    let v = vec![entry("a", 0, 10), entry("b", 0, 10), entry("c", 0, 10)];
    assert_eq!(find_key(&v, "a"), Some(0));
    assert_eq!(find_key(&v, "c"), Some(2));
    assert_eq!(find_key(&v, "d"), None);
    assert_eq!(find_key(&Vec::new(), "a"), None);
}

#[test]
fn victim_is_the_first_live_record() {
    let v = vec![entry("a", 0, 10), entry("b", 0, 30), entry("c", 0, 20)];
    assert_eq!(select_victim(&v, 5), Some(0));
    assert_eq!(select_victim(&v, 10), Some(1));
    assert_eq!(select_victim(&v, 29), Some(1));
    assert_eq!(select_victim(&v, 30), None);
    assert_eq!(select_victim(&Vec::new(), 0), None);
}

#[test]
fn count_live_counts() {
    let v = vec![entry("a", 0, 10), entry("b", 0, 30), entry("c", 0, 20)];
    assert_eq!(count_live(&v, 0), 3);
    assert_eq!(count_live(&v, 10), 2);
    assert_eq!(count_live(&v, 20), 1);
    assert_eq!(count_live(&v, 30), 0);
}

#[test]
fn purge_keeps_the_live_in_order() {
    let mut v = vec![
        entry("a", 0, 10),
        entry("b", 0, 30),
        entry("c", 0, 5),
        entry("d", 0, 20),
        entry("e", 0, 10),
    ];
    assert_eq!(purge_expired(&mut v, 10), 3);
    assert_eq!(keys(&v), vec!["b".to_string(), "d".to_string()]);
    assert_eq!(v[0].value, "v-b");
    assert_eq!(purge_expired(&mut v, 10), 0);
    assert_eq!(purge_expired(&mut v, 100), 2);
    assert!(v.is_empty());
    assert_eq!(purge_expired(&mut v, 100), 0);
}
