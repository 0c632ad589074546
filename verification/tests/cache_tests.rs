use std::cell::Cell;

use offline_engine::cache::WebCache;
use offline_engine::EngineError;

const DAY: i64 = 86400;

#[test]
fn cache_first_serves_fresh_without_recomputing() {
    // cache freshness: within the window the stored payload is served and
    // the producer never runs; past the window the producer runs once and
    // its result is persisted
    let mut cache = WebCache::new();
    let calls = Cell::new(0u32);

    let r = cache.cache_first("k", 600, 1000, || {
        calls.set(calls.get() + 1);
        Ok("first".to_string())
    });
    assert_eq!(r, Ok("first".to_string()));
    assert_eq!(calls.get(), 1);

    // within the window: cached value, no producer call
    let r = cache.cache_first("k", 600, 1500, || {
        calls.set(calls.get() + 1);
        Ok("second".to_string())
    });
    assert_eq!(r, Ok("first".to_string()));
    assert_eq!(calls.get(), 1);

    // past the window: recompute exactly once, persist the new value
    let r = cache.cache_first("k", 600, 1700, || {
        calls.set(calls.get() + 1);
        Ok("third".to_string())
    });
    assert_eq!(r, Ok("third".to_string()));
    assert_eq!(calls.get(), 2);
    let e = cache.get_web_cache("k").unwrap();
    assert_eq!(e.cache_content, "third");
    assert_eq!(e.cache_time, 1700);
}

#[test]
fn cache_first_dedup_after_cold_miss() {
    // dedup within a shard: after the first (cold) call writes, the other
    // callers in line observe the freshly written value
    let mut cache = WebCache::new();
    let first = cache.cache_first("key", 600, 100, || Ok("value".to_string()));
    assert_eq!(first, Ok("value".to_string()));
    for later in [100, 200, 699] {
        let calls = Cell::new(0u32);
        let r = cache.cache_first("key", 600, later, || {
            calls.set(calls.get() + 1);
            Ok("other".to_string())
        });
        assert_eq!(r, Ok("value".to_string()));
        assert_eq!(calls.get(), 0);
    }
}

#[test]
fn producer_failure_leaves_stale_entry_untouched() {
    let mut cache = WebCache::new();
    cache.save_web_cache("k", "old", 0);
    let r: Result<String, EngineError> =
        cache.cache_first("k", 600, 10_000, || Err(EngineError::TransientFetch));
    assert_eq!(r, Err(EngineError::TransientFetch));
    // the stale entry is neither served nor replaced
    let e = cache.get_web_cache("k").unwrap();
    assert_eq!(e.cache_content, "old");
    assert_eq!(e.cache_time, 0);
}

#[test]
fn sweep_drops_only_rows_past_retention() {
    let now: i64 = 100 * DAY;
    let mut cache = WebCache::new();
    cache.save_web_cache("old", "o", now - 8 * DAY);
    cache.save_web_cache("young", "y", now - DAY);
    cache.delete_expired_cache(now - 7 * DAY);
    assert!(cache.get_web_cache("old").is_none());
    assert!(cache.get_web_cache("young").is_some());
}

#[test]
fn save_replaces_the_keyed_row() {
    let mut cache = WebCache::new();
    cache.save_web_cache("a", "1", 10);
    cache.save_web_cache("b", "2", 20);
    cache.save_web_cache("a", "3", 30);
    assert_eq!(cache.entries.len(), 2);
    let a = cache.get_web_cache("a").unwrap();
    assert_eq!(a.cache_content, "3");
    assert_eq!(a.cache_time, 30);
    let b = cache.get_web_cache("b").unwrap();
    assert_eq!(b.cache_content, "2");
}

#[test]
fn fresh_lookup_honors_the_window() {
    let mut cache = WebCache::new();
    cache.save_web_cache("k", "v", 1000);
    assert_eq!(cache.fresh_lookup("k", 1500, 600), Some("v".to_string()));
    assert_eq!(cache.fresh_lookup("k", 1600, 600), None);
    assert_eq!(cache.fresh_lookup("missing", 1500, 600), None);
}
