use gatewayapi::parquet_store::{CacheMetadata, ParquetStore, StoredEntry, TOKEN_INFO};

#[test]
fn test_parquet_store_write_read() {
    let mut store = ParquetStore::new("data");
    let data = r#"{"ticker":"SLOW","price":0.00015,"volume":1000.5}"#.to_string();
    store.write_simple("test", "test_key", data, 3600);
    assert!(store.is_valid("test", "test_key", 3600));
    let read_data = store.read("test", "test_key");
    assert!(read_data.is_some());
    let read_value: serde_json::Value = serde_json::from_str(&read_data.unwrap()).unwrap();
    assert_eq!(read_value["ticker"], "SLOW");
    assert_eq!(read_value["price"], 0.00015);
}

#[test]
fn test_list_keys() {
    let mut store = ParquetStore::new("data");
    store.write_simple("tokens", "SLOW", r#"{"a":1}"#.to_string(), 3600);
    store.write_simple("tokens", "NACHO", r#"{"b":2}"#.to_string(), 3600);
    let keys = store.list_keys("tokens");
    assert_eq!(keys.len(), 2);
    assert!(keys.contains(&"SLOW".to_string()));
    assert!(keys.contains(&"NACHO".to_string()));
}

#[test]
fn read_after_write_returns_payload_and_leaves_others() {
    let mut store = ParquetStore::new("/var/cache");
    store.write_simple_at("orders", "a", "1".to_string(), 60, 100);
    store.write_simple_at("orders", "b", "2".to_string(), 60, 100);
    store.write_simple_at("orders", "a", "3".to_string(), 60, 101);
    assert_eq!(store.read("orders", "a"), Some("3".to_string()));
    assert_eq!(store.read("orders", "b"), Some("2".to_string()));
    assert_eq!(store.read("orders", "c"), None);
    assert_eq!(store.list_keys("orders"), vec!["b".to_string(), "a".to_string()]);
}

#[test]
fn validity_ends_when_age_reaches_max_age() {
    let mut store = ParquetStore::new("/var/cache");
    store.write_simple_at("kns", "k", "{}".to_string(), 1, 1_000);
    assert!(store.is_valid_at("kns", "k", 1, 1_000));
    assert!(!store.is_valid_at("kns", "k", 1, 1_001));
    assert!(store.is_valid_at("kns", "k", 10, 1_009));
    assert!(!store.is_valid_at("kns", "k", 10, 1_010));
    assert!(!store.is_valid_at("kns", "other", 10, 1_000));
}

#[test]
fn missing_or_unreadable_metadata_is_never_valid() {
    let mut store = ParquetStore::new("/var/cache");
    store.restore(StoredEntry {
        category: "logos".to_string(),
        key: "x".to_string(),
        payload: Some("{}".to_string()),
        metadata: None,
        size_bytes: 2,
    });
    store.restore(StoredEntry {
        category: "logos".to_string(),
        key: "y".to_string(),
        payload: None,
        metadata: Some(CacheMetadata::new_at(60, 0)),
        size_bytes: 0,
    });
    assert!(!store.is_valid_at("logos", "x", 60, 0));
    assert!(!store.is_valid_at("logos", "y", 60, 0));
    assert_eq!(store.read("logos", "x"), Some("{}".to_string()));
    assert_eq!(store.read("logos", "y"), None);
    assert_eq!(store.list_keys("logos"), vec!["x".to_string()]);
}

#[test]
fn delete_is_idempotent() {
    let mut store = ParquetStore::new("/var/cache");
    store.write_simple_at("orders", "a", "1".to_string(), 60, 100);
    store.delete("orders", "a");
    assert_eq!(store.read("orders", "a"), None);
    assert!(!store.is_valid_at("orders", "a", 60, 100));
    store.delete("orders", "a");
    assert_eq!(store.read("orders", "a"), None);
    assert!(store.list_keys("orders").is_empty());
}

#[test]
fn cleanup_removes_only_expired_entries_of_the_category() {
    let mut store = ParquetStore::new("/var/cache");
    store.write_simple_at("orders", "old", "1".to_string(), 60, 100);
    store.write_simple_at("orders", "new", "2".to_string(), 60, 190);
    store.write_simple_at("kns", "old", "3".to_string(), 60, 100);
    assert_eq!(store.cleanup_expired_at("orders", 60, 200), 1);
    assert_eq!(store.list_keys("orders"), vec!["new".to_string()]);
    assert_eq!(store.read("kns", "old"), Some("3".to_string()));
    assert_eq!(store.cleanup_expired_at("orders", 60, 200), 0);
}

#[test]
fn paths_follow_the_directory_layout() {
    let store = ParquetStore::new("data/cache");
    assert_eq!(store.parquet_path("tokens", "SLOW"), "data/cache/tokens/SLOW.parquet");
    assert_eq!(store.metadata_path("tokens", "SLOW"), "data/cache/tokens/SLOW.meta.json");
    assert_eq!(store.category_path("tokens"), "data/cache/tokens");
    assert_eq!(store.base_path(), "data/cache");
}

#[test]
fn stats_list_every_known_category() {
    let mut store = ParquetStore::new("data");
    store.write_simple_at(TOKEN_INFO, "SLOW", "12345".to_string(), 60, 0);
    store.write_simple_at(TOKEN_INFO, "NACHO", "123".to_string(), 60, 0);
    store.write_simple_at("elsewhere", "x", "1".to_string(), 60, 0);
    let stats = store.get_stats();
    assert_eq!(stats.categories_count, 9);
    assert_eq!(stats.categories.len(), 9);
    assert_eq!(stats.total_keys, 2);
    assert_eq!(stats.total_size_bytes, 8);
    assert_eq!(stats.base_path, "data");
    let (name, tokens) = &stats.categories[0];
    assert_eq!(name, "tokens");
    assert_eq!(tokens.keys, 2);
    assert_eq!(tokens.size_bytes, 8);
    assert_eq!(tokens.description, "Token Information (Supply, Market Cap)");
    assert_eq!(stats.categories[8].1.description, "Kaspa Name Service");
    assert_eq!(store.get_category_description("nope"), "Unknown Category");
}

#[test]
fn metadata_expiry() {
    let m = CacheMetadata::new_at(60, 1_000);
    assert_eq!(m.source, "api.kaspa.com");
    assert!(!m.is_expired_at(1_059));
    assert!(m.is_expired_at(1_060));
}
