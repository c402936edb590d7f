use home_automation_rs::cache::{CacheKey, ResponseCache};

#[test]
fn test_cache_put_and_get() {
    let mut cache = ResponseCache::new(60);
    let body = b"test response".to_vec();

    let etag = cache.put("/api/test", None, body.clone());
    assert!(!etag.is_empty());

    let cached = cache.get("/api/test", None);
    assert!(cached.is_some());

    let cached = cached.unwrap();
    assert_eq!(cached.body, body);
    assert_eq!(cached.etag, etag);
}

#[test]
fn test_cache_key_with_query() {
    let mut cache = ResponseCache::new(60);

    cache.put("/api/test", Some("foo=bar"), b"response1".to_vec());
    cache.put("/api/test", Some("foo=baz"), b"response2".to_vec());

    let cached1 = cache.get("/api/test", Some("foo=bar")).unwrap();
    let cached2 = cache.get("/api/test", Some("foo=baz")).unwrap();

    assert_eq!(cached1.body, b"response1".to_vec());
    assert_eq!(cached2.body, b"response2".to_vec());
}

#[test]
fn test_cache_miss() {
    let cache = ResponseCache::new(60);
    let cached = cache.get("/api/nonexistent", None);
    assert!(cached.is_none());
}

#[test]
fn test_etag_generation() {
    let body1 = b"same content".to_vec();
    let body2 = b"same content".to_vec();
    let body3 = b"different".to_vec();

    let etag1 = ResponseCache::generate_etag(&body1);
    let etag2 = ResponseCache::generate_etag(&body2);
    let etag3 = ResponseCache::generate_etag(&body3);

    assert_eq!(etag1, etag2);
    assert_ne!(etag1, etag3);
}

#[test]
fn etag_is_quoted_decimal_digest() {
    let etag = ResponseCache::generate_etag(b"abc");
    assert!(etag.starts_with('"') && etag.ends_with('"'));
    assert!(etag[1..etag.len() - 1].chars().all(|c| c.is_ascii_digit()));
}

#[test]
fn entries_expire_after_ttl() {
    let mut cache = ResponseCache::new(60);
    let now: i128 = 1_700_000_000_000_000_000;
    cache.put_at("/p", None, vec![1, 2], now);
    assert!(cache.get_at("/p", None, now + 59_000_000_000).is_some());
    assert!(cache.get_at("/p", None, now + 60_000_000_000).is_none());
    // A stamp from the future is not served.
    assert!(cache.get_at("/p", None, now - 1).is_none());
    assert_eq!(cache.stats_at(now), (1, 1));
    assert_eq!(cache.stats_at(now + 61_000_000_000), (1, 0));
}

#[test]
fn later_put_replaces_and_clear_empties() {
    let mut cache = ResponseCache::new(60);
    let now: i128 = 1_000;
    cache.put_at("/p", Some("a=1"), vec![1], now);
    let etag = cache.put_at("/p", Some("a=1"), vec![2], now);
    let hit = cache.get_at("/p", Some("a=1"), now).unwrap();
    assert_eq!(hit.body, vec![2]);
    assert_eq!(hit.etag, etag);
    assert_eq!(cache.stats_at(now).0, 1);
    cache.clear();
    assert_eq!(cache.stats_at(now), (0, 0));
}

#[test]
fn cache_key_query_defaults_to_empty() {
    let k = CacheKey::new("/x", None);
    assert_eq!(k.path, "/x");
    assert_eq!(k.query, "");
    assert_eq!(CacheKey::new("/x", Some("q=1")).query, "q=1");
}
