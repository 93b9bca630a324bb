use gatewayapi::models::{ContentType, RepoConfig};
use gatewayapi::responses::{token_exchanges, AvailableTokensResponse, RateLimitResponse};
use gatewayapi::rate_limiter::RateLimitStats;
use gatewayapi::tokens_config::{TokenExchanges, TokensConfig};
use gatewayapi::ttl::{
    Tier, COLD_PARQUET_SECS, COLD_REDIS_SECS, HOT_PARQUET_SECS, HOT_REDIS_SECS, STATIC_PARQUET_SECS,
    STATIC_REDIS_SECS, WARM_PARQUET_SECS, WARM_REDIS_SECS,
};

#[test]
fn test_ttl_values() {
    assert!(HOT_REDIS_SECS < HOT_PARQUET_SECS);
    assert!(WARM_REDIS_SECS < WARM_PARQUET_SECS);
    assert!(COLD_REDIS_SECS < COLD_PARQUET_SECS);
    assert!(STATIC_REDIS_SECS < STATIC_PARQUET_SECS);
}

#[test]
fn tiers_keep_fast_ttl_within_durable_ttl() {
    for t in [Tier::Hot, Tier::Warm, Tier::Cold, Tier::Static] {
        assert!(t.fast_secs() <= t.durable_secs());
    }
    assert_eq!(Tier::Hot.fast_secs(), 30);
    assert_eq!(Tier::Hot.durable_secs(), 300);
    assert_eq!(Tier::Warm.fast_secs(), 300);
    assert_eq!(Tier::Warm.durable_secs(), 900);
    assert_eq!(Tier::Cold.fast_secs(), 1800);
    assert_eq!(Tier::Cold.durable_secs(), 3600);
    assert_eq!(Tier::Static.fast_secs(), 3600);
    assert_eq!(Tier::Static.durable_secs(), 86400);
}

fn exchanges(names: &[&str]) -> TokenExchanges {
    TokenExchanges { exchanges: names.iter().map(|s| s.to_string()).collect() }
}

#[test]
fn test_service_creation() {
    let config = TokensConfig::new();
    assert!(config.get_tokens().is_empty());
}

#[test]
fn test_ticker_normalization() {
    assert_eq!(TokensConfig::get_ticker("slow"), "SLOW");
    assert_eq!(TokensConfig::get_ticker("SLOW"), "SLOW");
    assert_eq!(TokensConfig::get_ticker("Nacho"), "NACHO");
    assert_eq!(TokensConfig::get_ticker("kasper"), "KASPER");
    assert_eq!(TokensConfig::get_ticker(""), "");
    assert_eq!(TokensConfig::get_ticker("sLoW"), "SLOW");
    assert_eq!(TokensConfig::get_ticker("token123"), "TOKEN123");
}

#[test]
fn tokens_keep_insertion_order_and_replace_in_place() {
    let mut config = TokensConfig::new();
    config.insert("Kaspa".to_string(), exchanges(&["ascendex", "bitget"]));
    config.insert("Nacho".to_string(), exchanges(&["xeggex"]));
    config.insert("Kaspa".to_string(), exchanges(&["mexc"]));
    assert_eq!(config.get_tokens(), vec!["Kaspa".to_string(), "Nacho".to_string()]);
    assert_eq!(config.get_exchanges("Kaspa"), Some(&vec!["mexc".to_string()]));
}

#[test]
fn exchanges_found_exactly_then_ignoring_case() {
    let mut config = TokensConfig::new();
    config.insert("nacho".to_string(), exchanges(&["a"]));
    config.insert("NACHO".to_string(), exchanges(&["b"]));
    config.insert("Kaspa".to_string(), exchanges(&["c"]));
    assert_eq!(config.get_exchanges("NACHO"), Some(&vec!["b".to_string()]));
    assert_eq!(config.get_exchanges("Nacho"), Some(&vec!["a".to_string()]));
    assert_eq!(config.get_exchanges("KASPA"), Some(&vec!["c".to_string()]));
    assert_eq!(config.get_exchanges("slow"), None);
    assert!(config.has_token("kaspa"));
    assert!(config.has_token("Kaspa"));
    assert!(!config.has_token("kasp"));
}

#[test]
fn token_exchanges_answers_or_reports_missing_token() {
    let mut config = TokensConfig::new();
    config.insert("Kaspa".to_string(), exchanges(&["bitget"]));
    let ok = token_exchanges(&config, "kaspa").unwrap();
    assert_eq!(ok.ticker, "kaspa");
    assert_eq!(ok.exchanges, vec!["bitget".to_string()]);
    let err = token_exchanges(&config, "Slow").unwrap_err();
    assert_eq!(err.error, "Token 'Slow' not found in configuration");
    assert!(err.details.is_none());
}

#[test]
fn available_tokens_are_counted() {
    let r = AvailableTokensResponse::from_tokens(vec!["a".to_string(), "b".to_string()]);
    assert_eq!(r.count, 2);
    assert_eq!(r.tokens, vec!["a".to_string(), "b".to_string()]);
}

#[test]
fn rate_limit_response_reports_core_only() {
    let stats = RateLimitStats { limit: 10, remaining: 7, used: 3, reset: 1_700_000_040 };
    let r = RateLimitResponse::from_stats(stats);
    assert_eq!(r.resources.core.limit, 10);
    assert_eq!(r.resources.core.remaining, 7);
    assert_eq!(r.resources.core.used, 3);
    assert_eq!(r.resources.core.reset, 1_700_000_040);
    assert!(r.resources.search.is_none());
    assert!(r.resources.graphql.is_none());
}

#[test]
fn content_type_from_text() {
    assert_eq!(ContentType::from("file".to_string()), ContentType::File);
    assert_eq!(ContentType::from("dir".to_string()), ContentType::Dir);
    assert_eq!(ContentType::from("other".to_string()), ContentType::Unknown);
    assert_eq!(ContentType::from("File".to_string()), ContentType::Unknown);
}

#[test]
fn repo_config_compares_by_fields() {
    let a = RepoConfig { source: "github".to_string(), owner: "KaspaDev".to_string(), repo: "Kaspa-Exchange-Data".to_string() };
    let b = a.clone();
    assert_eq!(a, b);
}
