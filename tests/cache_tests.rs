use campus_api::cache::LruTtlCache;

#[test]
fn put_then_get_returns_value_before_ttl() {
    let mut c = LruTtlCache::new(4, 10);
    c.put("k".to_string(), "v".to_string(), 1_000);
    assert_eq!(c.get("k", 1_000), Some("v".to_string()));
    assert_eq!(c.get("k", 11_000), Some("v".to_string()));
}

#[test]
fn expired_entry_is_absent_once_then_gone() {
    let mut c = LruTtlCache::new(4, 10);
    c.put("k".to_string(), "v".to_string(), 0);
    assert_eq!(c.len(), 1);
    assert_eq!(c.get("k", 10_001), None);
    assert_eq!(c.len(), 0);
    assert_eq!(c.get("k", 10_002), None);
}

#[test]
fn capacity_plus_one_keys_evicts_least_recent() {
    let mut c = LruTtlCache::new(3, 60);
    c.put("a".to_string(), "1".to_string(), 0);
    c.put("b".to_string(), "2".to_string(), 0);
    c.put("c".to_string(), "3".to_string(), 0);
    c.put("d".to_string(), "4".to_string(), 0);
    assert_eq!(c.len(), 3);
    assert_eq!(c.get("a", 1), None);
    assert_eq!(c.get("b", 1), Some("2".to_string()));
    assert_eq!(c.get("c", 1), Some("3".to_string()));
    assert_eq!(c.get("d", 1), Some("4".to_string()));
}

#[test]
fn get_touch_protects_from_eviction() {
    let mut c = LruTtlCache::new(2, 60);
    c.put("a".to_string(), "1".to_string(), 0);
    c.put("b".to_string(), "2".to_string(), 0);
    assert_eq!(c.get("a", 0), Some("1".to_string()));
    c.put("c".to_string(), "3".to_string(), 0);
    assert_eq!(c.get("b", 0), None);
    assert_eq!(c.get("a", 0), Some("1".to_string()));
}

#[test]
fn put_existing_key_updates_value_and_ttl() {
    let mut c = LruTtlCache::new(2, 1);
    c.put("a".to_string(), "1".to_string(), 0);
    c.put("a".to_string(), "2".to_string(), 900);
    assert_eq!(c.len(), 1);
    assert_eq!(c.get("a", 1_500), Some("2".to_string()));
}

#[test]
fn zero_capacity_holds_nothing() {
    let mut c = LruTtlCache::new(0, 60);
    c.put("a".to_string(), "1".to_string(), 0);
    assert_eq!(c.len(), 0);
    assert_eq!(c.get("a", 0), None);
}

#[test]
fn put_purges_dead_entries() {
    let mut c = LruTtlCache::new(5, 1);
    c.put("a".to_string(), "1".to_string(), 0);
    c.put("b".to_string(), "2".to_string(), 5_000);
    assert_eq!(c.len(), 1);
}

#[test]
fn huge_ttl_saturates() {
    let mut c = LruTtlCache::new(1, u64::MAX);
    c.put("a".to_string(), "1".to_string(), 5);
    assert_eq!(c.get("a", u64::MAX), Some("1".to_string()));
}
