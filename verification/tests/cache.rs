//! The page cache: hits, misses, replacement, capacity, recency, and the
//! single-computation discipline a sequential caller observes.

use ao3_opds::PageCache;

#[test]
fn cache_miss_then_hit() {
    let mut cache = PageCache::new(10);
    assert!(cache.get(1).is_none());
    cache.insert(1, "page one".to_string());
    assert_eq!(cache.get(1).as_deref(), Some("page one"));
    assert!(cache.get(2).is_none());
}

#[test]
fn cache_replaces_existing_page() {
    let mut cache = PageCache::new(10);
    cache.insert(1, "old".to_string());
    cache.insert(1, "new".to_string());
    assert_eq!(cache.get(1).as_deref(), Some("new"));
}

#[test]
fn cache_evicts_least_recently_used() {
    let mut cache = PageCache::new(2);
    cache.insert(1, "one".to_string());
    cache.insert(2, "two".to_string());
    cache.insert(3, "three".to_string());
    assert!(cache.get(1).is_none());
    assert_eq!(cache.get(2).as_deref(), Some("two"));
    assert_eq!(cache.get(3).as_deref(), Some("three"));
}

#[test]
fn cache_hit_refreshes_recency() {
    let mut cache = PageCache::new(2);
    cache.insert(1, "one".to_string());
    cache.insert(2, "two".to_string());
    assert_eq!(cache.get(1).as_deref(), Some("one"));
    cache.insert(3, "three".to_string());
    assert_eq!(cache.get(1).as_deref(), Some("one"));
    assert!(cache.get(2).is_none());
    assert_eq!(cache.get(3).as_deref(), Some("three"));
}

/// A slow upstream computation, counted per invocation.
fn fetch_and_render(counter: &mut u32) -> String {
    *counter += 1;
    "rendered page 2".to_string()
}

#[test]
fn second_request_does_not_recompute() {
    let mut cache = PageCache::new(100);
    let mut fetches: u32 = 0;

    // first request for page 2: the cache is empty, so it computes once
    let first = match cache.get(2) {
        Some(xml) => xml,
        None => {
            let xml = fetch_and_render(&mut fetches);
            cache.insert(2, xml.clone());
            xml
        },
    };

    // second request: served from the cache, no second computation
    let second = match cache.get(2) {
        Some(xml) => xml,
        None => {
            let xml = fetch_and_render(&mut fetches);
            cache.insert(2, xml.clone());
            xml
        },
    };

    assert_eq!(fetches, 1);
    assert_eq!(first, second);
}

#[test]
fn failed_computation_is_retried() {
    let mut cache = PageCache::new(100);
    let mut attempts: u32 = 0;

    // a failed fetch inserts nothing, so the next request computes again
    for _ in 0..2 {
        if cache.get(7).is_none() {
            attempts += 1;
            // the computation fails: nothing is cached
        }
    }
    assert_eq!(attempts, 2);

    if cache.get(7).is_none() {
        cache.insert(7, "finally".to_string());
    }
    assert_eq!(cache.get(7).as_deref(), Some("finally"));
}
