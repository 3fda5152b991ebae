//! Cache behavior: TTL expiry, LRU batch eviction, explicit removal and
//! statistics, all against an injected millisecond clock.
use spark_search::cache::{Cache, MAX_CACHE_ENTRIES};

#[test]
fn get_returns_value_before_ttl() {
    let mut c = Cache::new();
    c.set("k", String::from("payload"), 1000, 0);
    assert_eq!(c.get("k", 0), Some(String::from("payload")));
    assert_eq!(c.get("k", 999), Some(String::from("payload")));
}

#[test]
fn get_misses_at_and_after_ttl() {
    let mut c = Cache::new();
    c.set("k", String::from("payload"), 1000, 0);
    assert_eq!(c.get("k", 1000), None);
    // The lapsed entry was removed by the failed lookup.
    let stats = c.stats(1000);
    assert_eq!(stats.entry_count, 0);
}

#[test]
fn get_miss_on_absent_key() {
    let mut c = Cache::new();
    assert_eq!(c.get("missing", 5), None);
}

#[test]
fn set_replaces_existing_entry() {
    let mut c = Cache::new();
    c.set("k", String::from("one"), 1000, 0);
    c.set("k", String::from("two"), 1000, 10);
    assert_eq!(c.get("k", 20), Some(String::from("two")));
    assert_eq!(c.stats(20).entry_count, 1);
}

#[test]
fn invalidate_removes_entry() {
    let mut c = Cache::new();
    c.set("k", String::from("v"), 1000, 0);
    c.invalidate("k");
    assert_eq!(c.get("k", 1), None);
}

#[test]
fn clear_all_removes_everything() {
    let mut c = Cache::new();
    c.set("a", String::from("1"), 1000, 0);
    c.set("b", String::from("2"), 1000, 0);
    c.clear_all();
    assert_eq!(c.stats(0).entry_count, 0);
}

#[test]
fn cleanup_expired_keeps_live_entries() {
    let mut c = Cache::new();
    c.set("old", String::from("1"), 100, 0);
    c.set("new", String::from("2"), 10000, 0);
    c.cleanup_expired(500);
    assert_eq!(c.get("old", 500), None);
    assert_eq!(c.get("new", 500), Some(String::from("2")));
}

#[test]
fn stats_counts_entries_and_expired() {
    let mut c = Cache::new();
    c.set("a", String::from("aa"), 100, 0);
    c.set("b", String::from("bbb"), 10000, 0);
    let s = c.stats(500);
    assert_eq!(s.entry_count, 2);
    assert_eq!(s.expired_count, 1);
    assert_eq!(s.total_size_bytes, 5);
}

#[test]
fn eviction_removes_a_fifth_of_entries() {
    let mut c = Cache::new();
    for i in 0..MAX_CACHE_ENTRIES {
        c.set(&format!("key{}", i), String::from("v"), 1_000_000, i as u64);
    }
    assert_eq!(c.stats(0).entry_count, MAX_CACHE_ENTRIES);
    // The next write finds the cache at capacity and evicts 20% first.
    c.set("straw", String::from("v"), 1_000_000, MAX_CACHE_ENTRIES as u64);
    assert_eq!(c.stats(0).entry_count, MAX_CACHE_ENTRIES - MAX_CACHE_ENTRIES / 5 + 1);
}

#[test]
fn eviction_prefers_least_recently_accessed() {
    let mut c = Cache::new();
    for i in 0..MAX_CACHE_ENTRIES {
        c.set(&format!("key{}", i), String::from("v"), 1_000_000, i as u64);
    }
    // Touch the oldest-by-write entries late, so they become the youngest
    // by access and must survive the eviction.
    let late = MAX_CACHE_ENTRIES as u64 + 10;
    for i in 0..10 {
        assert!(c.get(&format!("key{}", i), late + i as u64).is_some());
    }
    c.set("straw", String::from("v"), 1_000_000, late + 100);
    for i in 0..10 {
        assert!(
            c.get(&format!("key{}", i), late + 200).is_some(),
            "recently accessed entry was evicted"
        );
    }
    // Entries written just after the touched ones were the least recently
    // accessed and must be gone.
    for i in 10..210 {
        assert!(c.get(&format!("key{}", i), late + 200).is_none(), "stale entry survived");
    }
}

#[test]
fn eviction_below_five_entries_is_noop() {
    let mut c = Cache::new();
    c.set("a", String::from("1"), 1000, 0);
    c.set("b", String::from("2"), 1000, 1);
    c.evict_lru_entries();
    assert_eq!(c.stats(2).entry_count, 2);
}
