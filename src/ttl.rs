//! Lifetimes of the two cache tiers, per class of data.
use vstd::prelude::*;

verus! {

/// Fast-store lifetime of hot data (floor prices, recent orders).
pub const HOT_REDIS_SECS: u64 = 30;

/// Durable-store lifetime of hot data.
pub const HOT_PARQUET_SECS: u64 = 300;

/// Fast-store lifetime of warm data (trade and token statistics).
pub const WARM_REDIS_SECS: u64 = 300;

/// Durable-store lifetime of warm data.
pub const WARM_PARQUET_SECS: u64 = 900;

/// Fast-store lifetime of cold data (token information, history).
pub const COLD_REDIS_SECS: u64 = 1800;

/// Durable-store lifetime of cold data.
pub const COLD_PARQUET_SECS: u64 = 3600;

/// Fast-store lifetime of static data (logos, metadata).
pub const STATIC_REDIS_SECS: u64 = 3600;

/// Durable-store lifetime of static data.
pub const STATIC_PARQUET_SECS: u64 = 86400;

/// A class of cached data; each class has a pair of lifetimes, one per store.
#[derive(Clone, Copy, Debug, PartialEq, Eq, Structural)]
pub enum Tier {
    Hot,
    Warm,
    Cold,
    Static,
}

impl Tier {
    /// Lifetime in the fast store, in seconds.
    pub open spec fn fast_ttl(self) -> u64 {
        match self {
            Tier::Hot => HOT_REDIS_SECS,
            Tier::Warm => WARM_REDIS_SECS,
            Tier::Cold => COLD_REDIS_SECS,
            Tier::Static => STATIC_REDIS_SECS,
        }
    }

    /// Lifetime in the durable store, in seconds.
    pub open spec fn durable_ttl(self) -> u64 {
        match self {
            Tier::Hot => HOT_PARQUET_SECS,
            Tier::Warm => WARM_PARQUET_SECS,
            Tier::Cold => COLD_PARQUET_SECS,
            Tier::Static => STATIC_PARQUET_SECS,
        }
    }

    /// Lifetime in the fast store, in seconds.
    pub fn fast_secs(self) -> (r: u64)
        ensures
            r == self.fast_ttl(),
    {
        match self {
            Tier::Hot => HOT_REDIS_SECS,
            Tier::Warm => WARM_REDIS_SECS,
            Tier::Cold => COLD_REDIS_SECS,
            Tier::Static => STATIC_REDIS_SECS,
        }
    }

    /// Lifetime in the durable store, in seconds.
    pub fn durable_secs(self) -> (r: u64)
        ensures
            r == self.durable_ttl(),
    {
        match self {
            Tier::Hot => HOT_PARQUET_SECS,
            Tier::Warm => WARM_PARQUET_SECS,
            Tier::Cold => COLD_PARQUET_SECS,
            Tier::Static => STATIC_PARQUET_SECS,
        }
    }
}

/// Every tier keeps a fast copy no longer than its durable copy, so that once
/// the fast copy expires a durable one is usually still there.
pub proof fn tier_ttls_ordered(t: Tier)
    ensures
        t.fast_ttl() <= t.durable_ttl(),
        t.fast_ttl() > 0,
{
}

} // verus!
