use gatewayapi::cache_keys::{
    floor_prices_keys, historical_data_keys, kns_listed_orders_keys, kns_sold_orders_keys, kns_trade_stats_keys,
    krc721_collection_info_keys, krc721_mints_keys, krc721_sold_orders_keys, last_order_sold_keys, nft_metadata_keys,
    open_orders_keys, sold_orders_keys, token_info_keys, tokens_logos_keys, trade_stats_keys,
};
use gatewayapi::cache_service::CacheKeys;

fn parts(k: &CacheKeys) -> (&str, &str, &str, u64, u64) {
    (&k.redis_key, &k.parquet_category, &k.parquet_key, k.redis_ttl_secs, k.parquet_ttl_secs)
}

#[test]
fn test_cache_key_generation() {
    assert_eq!(
        parts(&trade_stats_keys("6h", Some("slow"))),
        ("kaspa:trade_stats:6h:SLOW", "trade_stats", "6h_SLOW", 300, 900)
    );
    assert_eq!(parts(&trade_stats_keys("6h", None)), ("kaspa:trade_stats:6h", "trade_stats", "6h", 300, 900));
    assert_eq!(parts(&floor_prices_keys(None)), ("kaspa:floor_price:all", "floor_prices", "all", 30, 300));
    assert_eq!(parts(&floor_prices_keys(Some("Nacho"))), ("kaspa:floor_price:NACHO", "floor_prices", "NACHO", 30, 300));
    assert_eq!(
        parts(&sold_orders_keys(Some("slow"), None)),
        ("kaspa:sold_orders:SLOW:60", "orders", "SLOW_60", 30, 300)
    );
    assert_eq!(parts(&sold_orders_keys(None, Some(1440))), ("kaspa:sold_orders:all:1440", "orders", "all_1440", 30, 300));
    assert_eq!(parts(&last_order_sold_keys()), ("kaspa:last_order_sold", "orders", "last", 30, 300));
    assert_eq!(parts(&open_orders_keys()), ("kaspa:open_orders", "orders", "active", 30, 300));
    assert_eq!(parts(&token_info_keys("kasper")), ("kaspa:token_info:KASPER", "tokens", "KASPER", 1800, 3600));
    assert_eq!(parts(&tokens_logos_keys(None)), ("kaspa:logos:all", "logos", "all", 3600, 86400));
    assert_eq!(
        parts(&historical_data_keys("1h", "slow")),
        ("kaspa:historical:SLOW:1h", "historical", "SLOW_1h", 1800, 3600)
    );
}

#[test]
fn nft_and_name_service_keys() {
    assert_eq!(parts(&krc721_mints_keys(None)), ("kaspa:krc721:mints:all", "krc721", "mints_all", 300, 900));
    assert_eq!(
        parts(&krc721_sold_orders_keys(Some("bitcoin"), Some(0))),
        ("kaspa:krc721:sold:BITCOIN:0", "krc721", "sold_BITCOIN_0", 30, 300)
    );
    assert_eq!(
        parts(&krc721_collection_info_keys("nacho")),
        ("kaspa:krc721:collection:NACHO", "krc721", "collection_NACHO", 300, 900)
    );
    assert_eq!(
        parts(&nft_metadata_keys("nacho", 173)),
        ("kaspa:krc721:metadata:NACHO:173", "krc721", "metadata_NACHO_173", 1800, 3600)
    );
    assert_eq!(
        parts(&nft_metadata_keys("x", -42)),
        ("kaspa:krc721:metadata:X:-42", "krc721", "metadata_X_-42", 1800, 3600)
    );
    assert_eq!(parts(&kns_sold_orders_keys(None)), ("kaspa:kns:sold:60", "kns", "sold_60", 30, 300));
    assert_eq!(
        parts(&kns_trade_stats_keys("1d", Some("mywallet.kas"))),
        ("kaspa:kns:stats:1d:mywallet.kas", "kns", "stats_1d_mywallet.kas", 300, 900)
    );
    assert_eq!(parts(&kns_listed_orders_keys()), ("kaspa:kns:listed", "kns", "listed", 30, 300));
    assert_eq!(
        parts(&nft_metadata_keys("x", i64::MIN)).2,
        "metadata_X_-9223372036854775808"
    );
}
