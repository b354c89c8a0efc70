use sark::error::{CacheError, ConstructionError};
use sark::lru_ttl::LRUTTLCache;

fn store(max_size: usize, default_ttl: u64) -> LRUTTLCache {
    match LRUTTLCache::new(max_size, default_ttl) {
        Ok(store) => store,
        Err(err) => panic!("store rejected: {:?}", err),
    }
}

fn put(store: &mut LRUTTLCache, key: &str, value: &str, ttl: Option<u64>, now: u64) {
    assert_eq!(store.set_at(key.to_string(), value.to_string(), ttl, now), Ok(()));
}

#[test]
fn construction_rejects_zero_capacity() {
    assert_eq!(LRUTTLCache::new(0, 60).err(), Some(ConstructionError::ZeroCapacity));
    assert_eq!(LRUTTLCache::new(0, 0).err(), Some(ConstructionError::ZeroCapacity));
}

#[test]
fn construction_rejects_zero_ttl() {
    assert_eq!(LRUTTLCache::new(4, 0).err(), Some(ConstructionError::ZeroTtl));
}

#[test]
fn construction_messages() {
    assert_eq!(ConstructionError::ZeroCapacity.message(), "max_size must be greater than 0");
    assert_eq!(ConstructionError::ZeroTtl.message(), "ttl_secs must be greater than 0");
}

#[test]
fn new_store_is_empty() {
    let mut s = store(3, 60);
    assert_eq!(s.len(), 0);
    assert_eq!(s.size_at(0), 0);
    assert_eq!(s.capacity(), 3);
    assert_eq!(s.default_ttl(), 60);
    assert_eq!(s.get_at("a", 0), None);
}

#[test]
fn last_writer_wins() {
    let mut s = store(4, 60);
    put(&mut s, "k", "one", None, 0);
    put(&mut s, "other", "x", None, 1);
    put(&mut s, "k", "two", None, 2);
    assert_eq!(s.get_at("other", 3), Some("x".to_string()));
    assert_eq!(s.get_at("k", 4), Some("two".to_string()));
    assert_eq!(s.get_at("k", 5), Some("two".to_string()));
    assert_eq!(s.len(), 2);
}

#[test]
fn lru_scenario_with_simulated_time() {
    let mut s = store(2, 60);
    put(&mut s, "a", "1", None, 0);
    put(&mut s, "b", "2", None, 1);
    assert_eq!(s.get_at("a", 2), Some("1".to_string()));
    put(&mut s, "c", "3", None, 3);
    assert_eq!(s.get_at("b", 4), None);
    assert_eq!(s.get_at("a", 5), Some("1".to_string()));
    assert_eq!(s.get_at("c", 6), Some("3".to_string()));
    assert_eq!(s.len(), 2);
}

#[test]
fn lru_scenario_on_the_clock() {
    let mut s = store(2, 60);
    assert_eq!(s.set("a".to_string(), "1".to_string(), None), Ok(()));
    assert_eq!(s.set("b".to_string(), "2".to_string(), None), Ok(()));
    assert_eq!(s.get("a"), Some("1".to_string()));
    assert_eq!(s.set("c".to_string(), "3".to_string(), None), Ok(()));
    assert_eq!(s.get("b"), None);
    assert_eq!(s.get("a"), Some("1".to_string()));
    assert_eq!(s.get("c"), Some("3".to_string()));
    assert_eq!(s.size(), 2);
}

#[test]
fn ttl_scenario() {
    let mut s = store(4, 60);
    put(&mut s, "x", "v", Some(1), 0);
    assert_eq!(s.get_at("x", 0), Some("v".to_string()));
    assert_eq!(s.size_at(2000), 0);
    assert_eq!(s.len(), 1);
    assert_eq!(s.get_at("x", 2000), None);
    assert_eq!(s.size_at(2000), 0);
    assert_eq!(s.len(), 0);
}

#[test]
fn ttl_scenario_cleanup_counts_one() {
    let mut s = store(4, 60);
    put(&mut s, "x", "v", Some(1), 0);
    assert_eq!(s.cleanup_expired_at(2000), 1);
    assert_eq!(s.len(), 0);
}

#[test]
fn expiry_is_created_plus_ttl_in_milliseconds() {
    let mut s = store(4, 60);
    put(&mut s, "x", "v", Some(3), 500);
    // 500 + 3 * 1000 = 3500 is the first instant at which the record is gone.
    assert_eq!(s.size_at(3499), 1);
    assert_eq!(s.size_at(3500), 0);
    assert_eq!(s.get_at("x", 3499), Some("v".to_string()));
    assert_eq!(s.get_at("x", 3500), None);
}

#[test]
fn default_ttl_is_used_when_none_is_given() {
    let mut s = store(4, 7);
    put(&mut s, "x", "v", None, 100);
    assert_eq!(s.size_at(7099), 1);
    assert_eq!(s.size_at(7100), 0);
}

#[test]
fn expired_record_is_absent_without_cleanup() {
    let mut s = store(4, 60);
    put(&mut s, "x", "v", Some(1), 0);
    assert_eq!(s.get_at("x", 1000), None);
    // The read dropped the record.
    assert_eq!(s.len(), 0);
    assert_eq!(s.cleanup_expired_at(1000), 0);
}

#[test]
fn zero_ttl_is_rejected_and_leaves_the_old_value() {
    let mut s = store(4, 60);
    put(&mut s, "x", "old", None, 0);
    let r = s.set_at("x".to_string(), "new".to_string(), Some(0), 1);
    assert_eq!(r, Err(CacheError::InvalidTTL("ttl must be greater than 0".to_string())));
    assert_eq!(s.get_at("x", 2), Some("old".to_string()));
    assert_eq!(s.len(), 1);
}

#[test]
fn zero_ttl_is_rejected_on_the_clock() {
    let mut s = store(4, 60);
    let r = s.set("x".to_string(), "v".to_string(), Some(0));
    assert_eq!(r, Err(CacheError::InvalidTTL("ttl must be greater than 0".to_string())));
    assert_eq!(s.size(), 0);
}

#[test]
fn ttl_past_the_last_timestamp_is_rejected() {
    let mut s = store(4, 60);
    let too_large = Err(CacheError::InvalidTTL("ttl is too large".to_string()));
    assert_eq!(s.set_at("x".to_string(), "v".to_string(), Some(u64::MAX), 0), too_large);
    // u64::MAX / 1000 seconds still fit at time 0, one second more does not.
    let most = u64::MAX / 1000;
    assert_eq!(s.set_at("x".to_string(), "v".to_string(), Some(most + 1), 0), too_large);
    assert_eq!(s.set_at("x".to_string(), "v".to_string(), Some(most), 0), Ok(()));
    // The same time-to-live no longer fits once the clock has moved on.
    assert_eq!(s.set_at("y".to_string(), "v".to_string(), Some(most), 1000), too_large);
    assert_eq!(s.set_at("y".to_string(), "v".to_string(), Some(1), u64::MAX), too_large);
    assert_eq!(s.len(), 1);
}

#[test]
fn eviction_takes_the_least_recently_used() {
    let mut s = store(3, 60);
    put(&mut s, "a", "1", None, 0);
    put(&mut s, "b", "2", None, 1);
    put(&mut s, "c", "3", None, 2);
    put(&mut s, "d", "4", None, 3);
    assert_eq!(s.len(), 3);
    assert_eq!(s.get_at("a", 4), None);
    assert_eq!(s.get_at("b", 4), Some("2".to_string()));
    assert_eq!(s.get_at("c", 4), Some("3".to_string()));
    assert_eq!(s.get_at("d", 4), Some("4".to_string()));
    // "b" was read first of the three, so it goes next.
    put(&mut s, "e", "5", None, 5);
    assert_eq!(s.get_at("b", 6), None);
    assert_eq!(s.get_at("e", 6), Some("5".to_string()));
}

#[test]
fn a_write_refreshes_recency() {
    let mut s = store(2, 60);
    put(&mut s, "a", "1", None, 0);
    put(&mut s, "b", "2", None, 1);
    put(&mut s, "a", "1b", None, 2);
    put(&mut s, "c", "3", None, 3);
    assert_eq!(s.get_at("b", 4), None);
    assert_eq!(s.get_at("a", 4), Some("1b".to_string()));
    assert_eq!(s.get_at("c", 4), Some("3".to_string()));
}

#[test]
fn overwrite_never_evicts() {
    let mut s = store(2, 60);
    put(&mut s, "a", "1", None, 0);
    put(&mut s, "b", "2", None, 1);
    put(&mut s, "a", "3", None, 2);
    put(&mut s, "b", "4", None, 3);
    assert_eq!(s.len(), 2);
    assert_eq!(s.get_at("a", 4), Some("3".to_string()));
    assert_eq!(s.get_at("b", 4), Some("4".to_string()));
}

#[test]
fn expired_records_are_reclaimed_before_a_live_one_is_evicted() {
    let mut s = store(3, 60);
    put(&mut s, "old", "1", None, 0);
    put(&mut s, "short", "2", Some(1), 1);
    put(&mut s, "mid", "3", None, 2);
    // At 5000 "short" has expired; "old" is the least recently used live one.
    put(&mut s, "new", "4", None, 5000);
    assert_eq!(s.len(), 3);
    assert_eq!(s.get_at("old", 5001), Some("1".to_string()));
    assert_eq!(s.get_at("mid", 5001), Some("3".to_string()));
    assert_eq!(s.get_at("new", 5001), Some("4".to_string()));
    assert_eq!(s.get_at("short", 5001), None);
}

#[test]
fn a_full_store_of_expired_records_is_emptied_by_one_write() {
    let mut s = store(2, 1);
    put(&mut s, "a", "1", None, 0);
    put(&mut s, "b", "2", None, 0);
    put(&mut s, "c", "3", None, 1000);
    assert_eq!(s.len(), 1);
    assert_eq!(s.get_at("c", 1001), Some("3".to_string()));
}

#[test]
fn capacity_one() {
    let mut s = store(1, 60);
    put(&mut s, "a", "1", None, 0);
    put(&mut s, "b", "2", None, 1);
    assert_eq!(s.len(), 1);
    assert_eq!(s.get_at("a", 2), None);
    assert_eq!(s.get_at("b", 2), Some("2".to_string()));
}

#[test]
fn size_never_exceeds_capacity() {
    let mut s = store(5, 2);
    let mut now: u64 = 0;
    for round in 0..200u64 {
        let key = format!("k{}", (round * 7) % 23);
        now += 137;
        match round % 5 {
            0 => {
                let _ = s.get_at(&key, now);
            }
            1 => {
                let _ = s.delete(&key);
            }
            2 => {
                let _ = s.cleanup_expired_at(now);
            }
            _ => {
                assert_eq!(s.set_at(key, format!("v{}", round), Some(1 + round % 3), now), Ok(()));
            }
        }
        assert!(s.len() <= 5);
        assert!(s.size_at(now) <= s.len());
    }
}

#[test]
fn delete_absent_and_present() {
    let mut s = store(4, 60);
    put(&mut s, "a", "1", None, 0);
    put(&mut s, "b", "2", None, 0);
    assert_eq!(s.delete("zzz"), false);
    assert_eq!(s.len(), 2);
    assert_eq!(s.get_at("a", 1), Some("1".to_string()));
    assert_eq!(s.get_at("b", 1), Some("2".to_string()));
    assert_eq!(s.delete("a"), true);
    assert_eq!(s.get_at("a", 2), None);
    assert_eq!(s.delete("a"), false);
    assert_eq!(s.len(), 1);
}

#[test]
fn delete_removes_an_expired_record_and_says_so() {
    let mut s = store(4, 60);
    put(&mut s, "a", "1", Some(1), 0);
    assert_eq!(s.size_at(5000), 0);
    assert_eq!(s.delete("a"), true);
    assert_eq!(s.len(), 0);
}

#[test]
fn clear_removes_everything() {
    let mut s = store(4, 60);
    put(&mut s, "a", "1", None, 0);
    put(&mut s, "b", "2", None, 0);
    s.clear();
    assert_eq!(s.len(), 0);
    assert_eq!(s.get_at("a", 1), None);
    assert_eq!(s.capacity(), 4);
    put(&mut s, "c", "3", None, 2);
    assert_eq!(s.get_at("c", 3), Some("3".to_string()));
}

#[test]
fn cleanup_removes_exactly_the_expired_and_then_nothing() {
    let mut s = store(8, 60);
    put(&mut s, "a", "1", Some(1), 0);
    put(&mut s, "b", "2", Some(5), 0);
    put(&mut s, "c", "3", Some(2), 0);
    put(&mut s, "d", "4", Some(9), 0);
    put(&mut s, "e", "5", Some(2), 1);
    // Expired at 2000: "a" (1000) and "c" (2000); "e" expires at 2001.
    assert_eq!(s.cleanup_expired_at(2000), 2);
    assert_eq!(s.cleanup_expired_at(2000), 0);
    assert_eq!(s.len(), 3);
    assert_eq!(s.cleanup_expired_at(2001), 1);
    assert_eq!(s.get_at("b", 2002), Some("2".to_string()));
    assert_eq!(s.get_at("d", 2002), Some("4".to_string()));
    assert_eq!(s.get_at("a", 2002), None);
    assert_eq!(s.get_at("c", 2002), None);
    assert_eq!(s.get_at("e", 2002), None);
}

#[test]
fn cleanup_keeps_the_recency_order() {
    let mut s = store(3, 60);
    put(&mut s, "a", "1", None, 0);
    put(&mut s, "x", "gone", Some(1), 0);
    put(&mut s, "b", "2", None, 0);
    assert_eq!(s.cleanup_expired_at(1000), 1);
    put(&mut s, "c", "3", None, 1001);
    // The store is full of live records; "a" is still the oldest.
    put(&mut s, "d", "4", None, 1002);
    assert_eq!(s.get_at("a", 1003), None);
    assert_eq!(s.get_at("b", 1003), Some("2".to_string()));
}

#[test]
fn cleanup_on_the_clock_finds_nothing_fresh() {
    let mut s = store(4, 3600);
    assert_eq!(s.set("a".to_string(), "1".to_string(), None), Ok(()));
    assert_eq!(s.cleanup_expired(), 0);
    assert_eq!(s.size(), 1);
}

#[test]
fn keys_are_compared_by_their_characters() {
    let mut s = store(4, 60);
    put(&mut s, "ab", "1", None, 0);
    put(&mut s, "abc", "2", None, 0);
    put(&mut s, "", "empty", None, 0);
    assert_eq!(s.get_at("ab", 1), Some("1".to_string()));
    assert_eq!(s.get_at("abc", 1), Some("2".to_string()));
    assert_eq!(s.get_at("", 1), Some("empty".to_string()));
    assert_eq!(s.get_at("a", 1), None);
    assert_eq!(s.get_at("AB", 1), None);
}

#[test]
fn the_clock_does_not_run_backwards() {
    let s = store(1, 1);
    let first = s.now();
    let second = s.now();
    assert!(first <= second);
    assert!(second <= sark::clock::LAST_READING);
}

/// A plain list of (key, value, expiry), least recently used first.
struct Plain {
    records: Vec<(String, String, u64)>,
    capacity: usize,
}

impl Plain {
    fn get(&mut self, key: &str, now: u64) -> Option<String> {
        let i = self.records.iter().position(|r| r.0 == key)?;
        let record = self.records.remove(i);
        if now < record.2 {
            let value = record.1.clone();
            self.records.push(record);
            Some(value)
        } else {
            None
        }
    }

    fn set(&mut self, key: &str, value: &str, ttl: u64, now: u64) {
        if let Some(i) = self.records.iter().position(|r| r.0 == key) {
            self.records.remove(i);
        } else if self.records.len() >= self.capacity {
            self.records.retain(|r| now < r.2);
            if self.records.len() >= self.capacity {
                self.records.remove(0);
            }
        }
        self.records.push((key.to_string(), value.to_string(), now + ttl * 1000));
    }

    fn delete(&mut self, key: &str) -> bool {
        match self.records.iter().position(|r| r.0 == key) {
            Some(i) => {
                self.records.remove(i);
                true
            }
            None => false,
        }
    }

    fn cleanup(&mut self, now: u64) -> usize {
        let before = self.records.len();
        self.records.retain(|r| now < r.2);
        before - self.records.len()
    }

    fn live(&self, now: u64) -> usize {
        self.records.iter().filter(|r| now < r.2).count()
    }
}

#[test]
fn store_agrees_with_a_plain_list() {
    let mut s = store(6, 3);
    let mut plain = Plain { records: Vec::new(), capacity: 6 };
    let mut seed: u64 = 0x2545_f491_4f6c_dd1d;
    let mut now: u64 = 0;
    for _ in 0..3000 {
        seed = seed.wrapping_mul(6364136223846793005).wrapping_add(1442695040888963407);
        let pick = (seed >> 33) % 100;
        let key = format!("k{}", (seed >> 20) % 11);
        now += (seed >> 45) % 700;
        if pick < 40 {
            assert_eq!(s.get_at(&key, now), plain.get(&key, now));
        } else if pick < 80 {
            let ttl = 1 + (seed >> 50) % 4;
            let value = format!("v{}", seed % 1000);
            assert_eq!(s.set_at(key.clone(), value.clone(), Some(ttl), now), Ok(()));
            plain.set(&key, &value, ttl, now);
        } else if pick < 90 {
            assert_eq!(s.delete(&key), plain.delete(&key));
        } else if pick < 97 {
            assert_eq!(s.cleanup_expired_at(now), plain.cleanup(now));
        } else if pick < 99 {
            assert_eq!(s.size_at(now), plain.live(now));
        } else {
            s.clear();
            plain.records.clear();
        }
        assert_eq!(s.len(), plain.records.len());
        assert!(s.len() <= 6);
    }
}

#[test]
fn a_write_on_the_clock_succeeds_for_every_ttl_in_range_at_the_last_reading() {
    let mut s = store(4, 60);
    // (u64::MAX - LAST_READING) / 1000 seconds still fit at the last reading.
    let most = (u64::MAX - sark::clock::LAST_READING) / 1000;
    assert_eq!(s.set("a".to_string(), "1".to_string(), Some(most)), Ok(()));
    assert_eq!(s.set("b".to_string(), "2".to_string(), Some(1)), Ok(()));
    assert_eq!(s.set("c".to_string(), "3".to_string(), None), Ok(()));
    assert_eq!(s.size(), 3);
}

#[test]
fn a_write_on_the_clock_fails_for_every_ttl_out_of_range_at_time_zero() {
    let mut s = store(4, 60);
    let large = Err(CacheError::InvalidTTL("ttl is too large".to_string()));
    assert_eq!(s.set("a".to_string(), "1".to_string(), Some(u64::MAX / 1000 + 1)), large);
    assert_eq!(s.set("a".to_string(), "1".to_string(), Some(u64::MAX)), large);
    assert_eq!(s.size(), 0);
}

#[test]
fn a_default_ttl_out_of_range_rejects_every_write_that_relies_on_it() {
    let mut s = store(4, u64::MAX);
    let large = Err(CacheError::InvalidTTL("ttl is too large".to_string()));
    assert_eq!(s.set_at("a".to_string(), "1".to_string(), None, 0), large);
    assert_eq!(s.set("a".to_string(), "1".to_string(), None), large);
    assert_eq!(s.set_at("a".to_string(), "1".to_string(), Some(5), 0), Ok(()));
}
