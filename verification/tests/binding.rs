use sark::binding::{map_cache_error, map_construction_error, ExceptionKind, RustCache};
use sark::error::{CacheError, ConstructionError};
use sark::text::decimal_string;

fn cache(max_size: usize, ttl_secs: u64) -> RustCache {
    match RustCache::new(max_size, ttl_secs) {
        Ok(cache) => cache,
        Err(err) => panic!("cache rejected: {:?}", err),
    }
}

#[test]
fn capacity_exceeded_is_a_runtime_error() {
    let e = map_cache_error(CacheError::CapacityExceeded);
    assert_eq!(e.kind, ExceptionKind::Runtime);
    assert_eq!(e.message, "Cache capacity exceeded");
}

#[test]
fn invalid_ttl_is_a_value_error() {
    let e = map_cache_error(CacheError::InvalidTTL("must be positive".to_string()));
    assert_eq!(e.kind, ExceptionKind::Value);
    assert_eq!(e.message, "Invalid TTL: must be positive");
}

#[test]
fn internal_is_a_runtime_error() {
    let e = map_cache_error(CacheError::Internal("lock poisoned".to_string()));
    assert_eq!(e.kind, ExceptionKind::Runtime);
    assert_eq!(e.message, "Internal cache error: lock poisoned");
}

#[test]
fn construction_errors_are_value_errors() {
    let e = map_construction_error(ConstructionError::ZeroCapacity);
    assert_eq!(e.kind, ExceptionKind::Value);
    assert_eq!(e.message, "max_size must be greater than 0");
    let e = map_construction_error(ConstructionError::ZeroTtl);
    assert_eq!(e.kind, ExceptionKind::Value);
    assert_eq!(e.message, "ttl_secs must be greater than 0");
}

#[test]
fn new_rejects_zero_arguments() {
    match RustCache::new(0, 10) {
        Err(e) => {
            assert_eq!(e.kind, ExceptionKind::Value);
            assert_eq!(e.message, "max_size must be greater than 0");
        }
        Ok(_) => panic!("zero capacity accepted"),
    }
    match RustCache::new(10, 0) {
        Err(e) => {
            assert_eq!(e.kind, ExceptionKind::Value);
            assert_eq!(e.message, "ttl_secs must be greater than 0");
        }
        Ok(_) => panic!("zero ttl accepted"),
    }
    match RustCache::new(0, 0) {
        Err(e) => assert_eq!(e.message, "max_size must be greater than 0"),
        Ok(_) => panic!("zero arguments accepted"),
    }
}

#[test]
fn set_get_delete_through_the_binding() {
    let mut c = cache(2, 60);
    assert!(c.set("a".to_string(), "1".to_string(), None).is_ok());
    assert!(c.set("b".to_string(), "2".to_string(), Some(30)).is_ok());
    assert_eq!(c.get("a".to_string()).unwrap(), Some("1".to_string()));
    assert!(c.set("c".to_string(), "3".to_string(), None).is_ok());
    assert_eq!(c.get("b".to_string()).unwrap(), None);
    assert_eq!(c.get("a".to_string()).unwrap(), Some("1".to_string()));
    assert_eq!(c.get("c".to_string()).unwrap(), Some("3".to_string()));
    assert_eq!(c.size().unwrap(), 2);
    assert_eq!(c.delete("a".to_string()).unwrap(), true);
    assert_eq!(c.delete("a".to_string()).unwrap(), false);
    assert_eq!(c.size().unwrap(), 1);
    assert_eq!(c.cleanup_expired().unwrap(), 0);
    assert!(c.clear().is_ok());
    assert_eq!(c.size().unwrap(), 0);
}

#[test]
fn set_with_zero_ttl_raises_a_value_error() {
    let mut c = cache(2, 60);
    match c.set("a".to_string(), "1".to_string(), Some(0)) {
        Err(e) => {
            assert_eq!(e.kind, ExceptionKind::Value);
            assert_eq!(e.message, "Invalid TTL: ttl must be greater than 0");
        }
        Ok(()) => panic!("zero ttl accepted"),
    }
    assert_eq!(c.get("a".to_string()).unwrap(), None);
}

#[test]
fn set_with_a_huge_ttl_raises_a_value_error() {
    let mut c = cache(2, 60);
    match c.set("a".to_string(), "1".to_string(), Some(u64::MAX)) {
        Err(e) => {
            assert_eq!(e.kind, ExceptionKind::Value);
            assert_eq!(e.message, "Invalid TTL: ttl is too large");
        }
        Ok(()) => panic!("huge ttl accepted"),
    }
}

#[test]
fn repr_shows_the_size() {
    let mut c = cache(20, 60);
    assert_eq!(c.__repr__(), "RustCache(size=0)");
    for i in 0..12 {
        assert!(c.set(format!("k{}", i), "v".to_string(), None).is_ok());
    }
    assert_eq!(c.__repr__(), "RustCache(size=12)");
}

#[test]
fn decimal_strings() {
    assert_eq!(decimal_string(0), "0");
    assert_eq!(decimal_string(7), "7");
    assert_eq!(decimal_string(10), "10");
    assert_eq!(decimal_string(909), "909");
    assert_eq!(decimal_string(1234567890), "1234567890");
    assert_eq!(decimal_string(usize::MAX), format!("{}", usize::MAX));
}
