use authcore::cache::{Cache, InMemoryCache, Record};
use authcore::result::Error;

fn intent(id: i64) -> Record {
    Record::Reset(id)
}

fn found(cache: &InMemoryCache, key: &str, now: u64) -> Option<i64> {
    match cache.find(key, now) {
        Ok(Record::Reset(id)) => Some(id),
        Ok(_) => panic!("unexpected record"),
        Err(Error::NotFound) => None,
        Err(e) => panic!("unexpected error {:?}", e),
    }
}

#[test]
fn cache_finds_what_was_saved_until_it_expires() {
    let mut cache = InMemoryCache::new();
    cache.save("key", intent(7), 60, 1000).unwrap();
    assert_eq!(found(&cache, "key", 1000), Some(7));
    assert_eq!(found(&cache, "key", 1059), Some(7));
    assert_eq!(found(&cache, "key", 1060), None);
    assert_eq!(found(&cache, "other", 1000), None);
    assert_eq!(cache.len(), 1);
}

#[test]
fn cache_save_overwrites() {
    let mut cache = InMemoryCache::new();
    cache.save("key", intent(7), 60, 1000).unwrap();
    cache.save("key", intent(8), 10, 1000).unwrap();
    assert_eq!(found(&cache, "key", 1005), Some(8));
    assert_eq!(found(&cache, "key", 1010), None);
    assert_eq!(cache.len(), 1);
}

#[test]
fn cache_rejects_a_time_to_live_of_zero() {
    let mut cache = InMemoryCache::new();
    assert!(cache.save("key", intent(7), 0, 1000).is_err());
    assert_eq!(found(&cache, "key", 1000), None);
    assert_eq!(cache.len(), 0);
}

#[test]
fn cache_delete_is_idempotent() {
    let mut cache = InMemoryCache::new();
    cache.save("a", intent(1), 60, 0).unwrap();
    cache.save("b", intent(2), 60, 0).unwrap();
    cache.delete("a").unwrap();
    cache.delete("a").unwrap();
    cache.delete("never there").unwrap();
    assert_eq!(found(&cache, "a", 0), None);
    assert_eq!(found(&cache, "b", 0), Some(2));
    assert_eq!(cache.len(), 1);
}

#[test]
fn cache_deadline_saturates() {
    let mut cache = InMemoryCache::new();
    cache.save("key", intent(7), u64::MAX, 10).unwrap();
    assert_eq!(found(&cache, "key", u64::MAX - 1), Some(7));
    assert_eq!(found(&cache, "key", u64::MAX), None);
}

#[test]
fn cache_offline_fails_and_keeps_its_entries() {
    let mut cache = InMemoryCache::new();
    cache.save("key", intent(7), 60, 0).unwrap();
    cache.set_offline(true);
    assert!(matches!(cache.find("key", 0), Err(Error::Debug)));
    assert!(matches!(cache.save("key", intent(8), 60, 0), Err(Error::Debug)));
    assert!(matches!(cache.delete("key"), Err(Error::Debug)));
    cache.set_offline(false);
    assert_eq!(found(&cache, "key", 0), Some(7));
}
