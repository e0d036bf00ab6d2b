use gh_pr_tui::cache::{ApiCache, CacheEntry, CachedResponse};

#[test]
fn test_cache_key_generation() {
    let cache = ApiCache::default();

    let key1 = cache.cache_key("GET", "/repos/org/repo", &[]);
    assert_eq!(key1, "GET:/repos/org/repo");

    let key2 = cache.cache_key("GET", "/repos/org/repo", &[("state", "open")]);
    assert_eq!(key2, "GET:/repos/org/repo?state=open");

    let key3 = cache.cache_key("GET", "/repos/org/repo", &[("state", "open"), ("base", "main")]);
    assert_eq!(key3, "GET:/repos/org/repo?base=main&state=open");
}

#[test]
fn test_cache_get_set() {
    let mut cache = ApiCache::default();

    let response = CachedResponse { body: r#"{"data": "test"}"#.into(), etag: Some("abc123".into()), status_code: 200 };

    cache.set("GET", "/test", &[], &response);

    let cached = cache.get("GET", "/test", &[]).expect("Cache miss");
    assert_eq!(cached.body, response.body);
    assert_eq!(cached.etag, response.etag);
    assert_eq!(cached.status_code, 200);
}

#[test]
fn test_cache_invalidate() {
    let mut cache = ApiCache::default();

    let response = CachedResponse { body: "test".into(), etag: None, status_code: 200 };

    cache.set("GET", "/test", &[], &response);
    assert!(cache.get("GET", "/test", &[]).is_some());

    cache.invalidate("GET", "/test", &[]);
    assert!(cache.get("GET", "/test", &[]).is_none());
}

#[test]
fn test_cache_invalidate_pattern() {
    let mut cache = ApiCache::with_ttl(20 * 60);

    let response = CachedResponse { body: "test".into(), etag: None, status_code: 200 };

    cache.set("GET", "/repos/acme/widget/pulls", &[], &response);
    cache.set("GET", "/repos/acme/widget/issues", &[], &response);
    cache.set("GET", "/repos/acme/other/pulls", &[], &response);

    assert_eq!(cache.len(), 3);

    cache.invalidate_pattern("/repos/acme/widget");

    assert_eq!(cache.len(), 1);
    assert!(cache.get("GET", "/repos/acme/other/pulls", &[]).is_some());
}

#[test]
fn test_cache_stats() {
    let mut cache = ApiCache::with_ttl(1);

    let response = CachedResponse { body: "test".into(), etag: None, status_code: 200 };

    cache.set("GET", "/fresh", &[], &response);

    let stale_entry = CacheEntry {
        response_body: "stale".into(),
        timestamp: cache.current_timestamp() - 100,
        etag: None,
        status_code: 200,
    };
    cache.insert_entry("GET:/stale".into(), stale_entry);

    let stats = cache.stats();
    assert_eq!(stats.total_entries, 2);
    assert_eq!(stats.fresh_entries, 1);
    assert_eq!(stats.stale_entries, 1);
}

#[test]
fn stale_entry_is_returned_with_status_200() {
    let mut cache = ApiCache::with_ttl(2);
    let response = CachedResponse { body: "b".into(), etag: Some("abc".into()), status_code: 304 };
    cache.set_at("GET", "/test", &[], &response, 1_000);
    let fresh = cache.get_at("GET", "/test", &[], 1_001).unwrap();
    assert_eq!(fresh.status_code, 304);
    let stale = cache.get_at("GET", "/test", &[], 1_003).unwrap();
    assert_eq!(stale.status_code, 200);
    assert_eq!(stale.etag, Some("abc".into()));
    assert_eq!(stale.body, "b");
}

#[test]
fn touch_extends_the_time_to_live() {
    let mut cache = ApiCache::with_ttl(2);
    let response = CachedResponse { body: "test".into(), etag: Some("abc".into()), status_code: 201 };
    cache.set_at("GET", "/test", &[], &response, 100);
    cache.touch_at("GET", "/test", &[], 101);
    assert_eq!(cache.get_at("GET", "/test", &[], 102).unwrap().status_code, 201);
    assert_eq!(cache.get_at("GET", "/test", &[], 103).unwrap().status_code, 200);
    cache.touch_at("GET", "/missing", &[], 103);
    assert_eq!(cache.len(), 1);
}

#[test]
fn setting_a_key_twice_replaces_the_entry() {
    let mut cache = ApiCache::new();
    let a = CachedResponse { body: "a".into(), etag: None, status_code: 200 };
    let b = CachedResponse { body: "b".into(), etag: Some("e".into()), status_code: 200 };
    cache.set_at("GET", "/x", &[("p", "1")], &a, 5);
    cache.set_at("GET", "/x", &[("p", "1")], &b, 6);
    assert_eq!(cache.len(), 1);
    let got = cache.get_at("GET", "/x", &[("p", "1")], 6).unwrap();
    assert_eq!(got.body, "b");
    assert_eq!(got.etag, Some("e".into()));
}

#[test]
fn parameter_order_does_not_change_the_key() {
    let cache = ApiCache::new();
    let k1 = cache.cache_key("GET", "/u", &[("b", "2"), ("a", "1"), ("c", "3")]);
    let k2 = cache.cache_key("GET", "/u", &[("c", "3"), ("b", "2"), ("a", "1")]);
    assert_eq!(k1, k2);
    assert_eq!(k1, "GET:/u?a=1&b=2&c=3");
}

#[test]
fn clear_removes_everything() {
    let mut cache = ApiCache::new();
    let a = CachedResponse { body: "a".into(), etag: None, status_code: 200 };
    cache.set("GET", "/1", &[], &a);
    cache.set("GET", "/2", &[], &a);
    cache.clear();
    assert_eq!(cache.len(), 0);
    assert!(cache.get("GET", "/1", &[]).is_none());
    assert_eq!(cache.ttl_seconds(), 1200);
}

#[test]
fn stats_at_counts_fresh_and_stale() {
    let mut cache = ApiCache::with_ttl(10);
    let a = CachedResponse { body: "a".into(), etag: None, status_code: 200 };
    cache.set_at("GET", "/old", &[], &a, 0);
    cache.set_at("GET", "/new", &[], &a, 95);
    let s = cache.stats_at(100);
    assert_eq!(s.total_entries, 2);
    assert_eq!(s.fresh_entries, 1);
    assert_eq!(s.stale_entries, 1);
    assert_eq!(s.ttl_seconds, 10);
}

#[test]
fn touch_with_the_clock_keeps_a_fresh_entry() {
    let mut cache = ApiCache::default();
    let response = CachedResponse { body: "fresh".into(), etag: None, status_code: 200 };
    cache.set("GET", "/clock", &[], &response);
    cache.touch("GET", "/clock", &[]);
    assert_eq!(cache.get("GET", "/clock", &[]).unwrap().body, "fresh");
    cache.touch("GET", "/absent", &[]);
    assert_eq!(cache.len(), 1);
}
