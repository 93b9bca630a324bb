use std::cell::Cell;
use std::collections::HashMap;

use gatewayapi::cache_service::{CacheError, CacheKeys, CacheRepository, CacheService, Lookup};
use gatewayapi::parquet_store::ParquetStore;
use gatewayapi::rate_limiter::RateLimiter;

#[derive(Default)]
struct MemoryFast {
    map: HashMap<String, String>,
}

impl CacheRepository for MemoryFast {
    fn get(&self, key: &str) -> Option<String> {
        self.map.get(key).cloned()
    }

    fn set(&mut self, key: &str, value: &str, _ttl_seconds: u64) -> Result<(), String> {
        self.map.insert(key.to_string(), value.to_string());
        Ok(())
    }
}

const NOW: i64 = 1_700_000_000_000;

fn keys(category: &str, key: &str) -> CacheKeys {
    CacheKeys {
        redis_key: format!("kaspa:{}:{}", category, key),
        parquet_category: category.to_string(),
        parquet_key: key.to_string(),
        redis_ttl_secs: 30,
        parquet_ttl_secs: 300,
    }
}

fn service(limit: u32) -> CacheService {
    CacheService::new(ParquetStore::new("data"), RateLimiter::new(limit))
}

fn counts(svc: &CacheService, category: &str) -> (u64, u64, u64) {
    let stats = svc.get_stats();
    let (_, row) = stats.categories.iter().find(|(n, _)| n == category).unwrap();
    (row.hits, row.misses, row.requests)
}

#[test]
fn fresh_key_fetches_once_then_hits_fast_store() {
    let mut svc = service(10);
    let mut fast = MemoryFast::default();
    let k = keys("orders", "SLOW");
    let calls = Cell::new(0);
    let fetch = || {
        calls.set(calls.get() + 1);
        Ok::<String, String>(r#"{"price":1}"#.to_string())
    };
    let v = svc.get_cached_json_with(&mut fast, &k, fetch, NOW, NOW).unwrap();
    assert_eq!(v, r#"{"price":1}"#);
    assert_eq!(calls.get(), 1);
    assert_eq!(fast.map.get("kaspa:orders:SLOW"), Some(&v));
    assert_eq!(svc.parquet().read("orders", "SLOW"), Some(v.clone()));

    let fetch = || {
        calls.set(calls.get() + 1);
        Ok::<String, String>("{}".to_string())
    };
    let again = svc.get_cached_json_with(&mut fast, &k, fetch, NOW + 1000, NOW + 1000).unwrap();
    assert_eq!(again, v);
    assert_eq!(calls.get(), 1);
    assert_eq!(counts(&svc, "orders"), (1, 1, 2));
    assert_eq!(svc.get_stats().cache_hits, 1);
}

#[test]
fn durable_copy_serves_and_refills_fast_store() {
    let mut svc = service(10);
    let mut fast = MemoryFast::default();
    let k = keys("orders", "NACHO");
    let v = svc.get_cached_json_with(&mut fast, &k, || Ok("[1,2]".to_string()), NOW, NOW).unwrap();
    fast.map.clear();
    let calls = Cell::new(0);
    let fetch = || {
        calls.set(calls.get() + 1);
        Ok::<String, String>("[9]".to_string())
    };
    let served = svc.get_cached_json_with(&mut fast, &k, fetch, NOW + 10_000, NOW + 10_000).unwrap();
    assert_eq!(served, v);
    assert_eq!(calls.get(), 0);
    assert_eq!(fast.map.get("kaspa:orders:NACHO"), Some(&v));
    // with the durable copy gone, the next call is still served, from the fast store
    svc.invalidate("orders", "NACHO");
    let next = svc.lookup_json_at(&k, fast.get("kaspa:orders:NACHO"), NOW + 11_000, NOW + 11_000);
    assert!(matches!(next, Lookup::FastHit(ref s) if *s == v));
}

#[test]
fn exhausted_limiter_refuses_without_fetching() {
    let mut svc = service(0);
    let mut fast = MemoryFast::default();
    let k = keys("kns", "x");
    let calls = Cell::new(0);
    let fetch = || {
        calls.set(calls.get() + 1);
        Ok::<String, String>("{}".to_string())
    };
    let r = svc.get_cached_json_with(&mut fast, &k, fetch, NOW, NOW);
    assert!(matches!(r, Err(CacheError::RateLimitExceeded { limit: 0 })));
    assert_eq!(calls.get(), 0);
    assert_eq!(svc.parquet().read("kns", "x"), None);
    assert_eq!(counts(&svc, "kns"), (0, 1, 1));
}

#[test]
fn invalidated_durable_entry_is_fetched_again() {
    let mut svc = service(10);
    let k = keys("logos", "SLOW");
    assert!(matches!(svc.lookup_json_at(&k, None, NOW, NOW), Lookup::Fetch));
    svc.complete_fetch_at(&k, Ok("\"img\"".to_string()), Ok(()), NOW).unwrap();
    assert!(matches!(svc.lookup_json_at(&k, None, NOW + 1000, NOW + 1000), Lookup::DurableHit(_)));
    svc.invalidate("logos", "SLOW");
    assert!(matches!(svc.lookup_json_at(&k, None, NOW + 2000, NOW + 2000), Lookup::Fetch));
    assert_eq!(counts(&svc, "logos"), (1, 2, 3));
}

#[test]
fn stale_durable_entry_is_a_miss() {
    let mut svc = service(10);
    let k = keys("orders", "old");
    svc.complete_fetch_at(&k, Ok("1".to_string()), Ok(()), NOW).unwrap();
    assert!(matches!(svc.lookup_json_at(&k, None, NOW + 299_999, NOW + 299_999), Lookup::DurableHit(_)));
    assert!(matches!(svc.lookup_json_at(&k, None, NOW + 300_000, NOW + 300_000), Lookup::Fetch));
}

#[test]
fn undecodable_fast_value_falls_through() {
    let mut svc = service(10);
    let k = keys("orders", "bad");
    let r = svc.lookup_json_at(&k, Some("not json".to_string()), NOW, NOW);
    assert!(matches!(r, Lookup::Fetch));
    let r = svc.lookup_at(&k, Some("anything".to_string()), false, true, NOW, NOW);
    assert!(matches!(r, Lookup::Fetch));
    let r = svc.lookup_at(&k, Some("anything".to_string()), true, true, NOW, NOW);
    assert!(matches!(r, Lookup::FastHit(ref s) if s == "anything"));
}

#[test]
fn non_json_durable_payload_is_a_miss() {
    let mut svc = service(10);
    let k = keys("orders", "raw");
    svc.complete_fetch_at(&k, Ok("plain text".to_string()), Ok(()), NOW).unwrap();
    assert!(matches!(svc.lookup_json_at(&k, None, NOW, NOW), Lookup::Fetch));
}

#[test]
fn fetch_and_decode_failures_are_reported_and_not_cached() {
    let mut svc = service(10);
    let mut fast = MemoryFast::default();
    let k = keys("orders", "f");
    let r = svc.get_cached_json_with(&mut fast, &k, || Err("timeout".to_string()), NOW, NOW);
    assert!(matches!(r, Err(CacheError::FetchFailed { ref cause }) if cause == "timeout"));
    let r = svc.complete_fetch_at(&k, Ok("{}".to_string()), Err("missing field".to_string()), NOW);
    assert!(matches!(r, Err(CacheError::DeserializeFailed { ref cause }) if cause == "missing field"));
    assert_eq!(svc.parquet().read("orders", "f"), None);
    assert!(fast.map.is_empty());
}

#[test]
fn refresh_goes_through_the_limiter() {
    let mut svc = service(1);
    assert!(svc.refresh_at(0).is_ok());
    assert!(matches!(svc.refresh_at(1), Err(CacheError::RateLimitExceeded { limit: 1 })));
    assert!(svc.refresh_at(60_000).is_ok());
    assert_eq!(svc.rate_limiter().get_stats_at(60_000, NOW).used, 1);
}

#[test]
fn hits_and_misses_add_up_per_category() {
    let mut svc = service(3);
    let k = keys("misc", "a");
    for i in 0..6 {
        if let Lookup::Fetch = svc.lookup_json_at(&k, None, NOW + i, NOW + i) {
            svc.complete_fetch_at(&k, Ok("{}".to_string()), Ok(()), NOW + i).unwrap();
        }
    }
    svc.lookup_json_at(&keys("trade_stats", "x"), Some("{}".to_string()), NOW, NOW);
    let stats = svc.get_stats();
    for (_, row) in &stats.categories {
        assert_eq!(row.hits + row.misses, row.requests);
    }
    assert_eq!(stats.categories.len(), 10);
    let (name, misc) = &stats.categories[9];
    assert_eq!(name, "misc");
    assert_eq!(misc.description, "misc (cache activity)");
    assert_eq!((misc.hits, misc.misses, misc.requests), (5, 1, 6));
    assert_eq!(counts(&svc, "trade_stats"), (1, 0, 1));
}

#[test]
fn durable_payload_the_caller_cannot_decode_is_a_miss() {
    let mut svc = service(10);
    let k = keys("orders", "typed");
    svc.complete_fetch_at(&k, Ok("[1]".to_string()), Ok(()), NOW).unwrap();
    assert_eq!(svc.probe_durable_at(&k, NOW), Some("[1]".to_string()));
    let r = svc.lookup_at(&k, None, false, false, NOW, NOW);
    assert!(matches!(r, Lookup::Fetch));
    let r = svc.lookup_at(&k, None, false, true, NOW, NOW);
    assert!(matches!(r, Lookup::DurableHit(ref s) if s == "[1]"));
    assert_eq!(counts(&svc, "orders"), (1, 1, 2));
    assert_eq!(svc.get_stats().cache_hits, 1);
}
