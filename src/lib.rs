//! Tiered caching for a data gateway: a fast store, a durable
//! category-partitioned store, and a sliding-window gate on calls to the
//! remote source, composed by the cache orchestrator.
pub mod cache_keys;
pub mod cache_service;
pub mod clock;
pub mod json;
pub mod models;
pub mod parquet_store;
pub mod rate_limiter;
pub mod responses;
pub mod stats;
pub mod text;
pub mod tokens_config;
pub mod ttl;
