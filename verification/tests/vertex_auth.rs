use synapse::providers::vertex_auth::{TokenCache, DEFAULT_REFRESH_MARGIN_NANOS};

const SEC: u64 = 1_000_000_000;

/// One `token()` call: serve the cache or fetch (counting fetches).
fn token(cache: &mut TokenCache, now: u64, ttl: u64, fetches: &mut u32) -> String {
    if let Some(t) = cache.fresh_token(now) {
        return t;
    }
    let t = format!("tok-{fetches}");
    *fetches += 1;
    cache.store(t, now, ttl)
}

#[test]
fn fetches_once_then_uses_cache() {
    let mut cache = TokenCache::with_default_margin();
    let mut fetches = 0;
    let t1 = token(&mut cache, 0, 3600 * SEC, &mut fetches);
    let t2 = token(&mut cache, SEC, 3600 * SEC, &mut fetches);
    assert_eq!(t1, t2);
    assert_eq!(fetches, 1);
}

#[test]
fn refreshes_when_near_expiry() {
    let mut cache = TokenCache::with_default_margin();
    let mut fetches = 0;
    let _ = token(&mut cache, 0, 30 * SEC, &mut fetches);
    let _ = token(&mut cache, 0, 30 * SEC, &mut fetches);
    assert_eq!(fetches, 2);
}

#[test]
fn cache_expires_at_margin() {
    let mut cache = TokenCache::new(60 * SEC);
    assert!(cache.fresh_token(0).is_none());
    assert_eq!(cache.store("t".into(), 10 * SEC, 100 * SEC), "t");
    assert_eq!(cache.fresh_token(49 * SEC).as_deref(), Some("t"));
    assert!(cache.fresh_token(50 * SEC).is_none());
    assert!(cache.fresh_token(200 * SEC).is_none());
    assert_eq!(DEFAULT_REFRESH_MARGIN_NANOS, 60 * SEC);
    assert_eq!(TokenCache::with_default_margin().refresh_margin(), 60 * SEC);
}

#[test]
fn failed_fetch_keeps_cache_and_passes_error() {
    let mut cache = TokenCache::new(60 * SEC);
    assert_eq!(cache.after_fetch(0, Ok(("a".into(), 100 * SEC))), Ok("a".to_string()));
    assert_eq!(cache.after_fetch(SEC, Err("nope".into())), Err("nope".to_string()));
    assert_eq!(cache.fresh_token(2 * SEC).as_deref(), Some("a"));
    let mut empty = TokenCache::new(60 * SEC);
    assert_eq!(empty.after_fetch(0, Err("nope".into())), Err("nope".to_string()));
    assert!(empty.fresh_token(0).is_none());
}
