//! Where each kind of marketplace data is cached: its keys in both stores,
//! its category, and its tier. Tickers are upper-cased first.
use vstd::prelude::*;

use crate::cache_service::CacheKeys;
use crate::parquet_store::{FLOOR_PRICES, HISTORICAL, HOT_MINTS, KNS, KRC721, LOGOS, ORDERS, TOKEN_INFO, TRADE_STATS};
use crate::text::{append_decimal, decimal_of, upper_of, uppercase};
use crate::ttl::Tier;

verus! {

/// Minutes looked back over when a caller names none.
pub const DEFAULT_MINUTES: i64 = 60;

/// Whether `k` holds the given keys, the category `c`, and the lifetimes of tier `t`.
pub open spec fn keys_are(k: CacheKeys, redis: Seq<char>, c: Seq<char>, parquet: Seq<char>, t: Tier) -> bool {
    &&& k.redis_key@ == redis
    &&& k.parquet_category@ == c
    &&& k.parquet_key@ == parquet
    &&& k.redis_ttl_secs == t.fast_ttl()
    &&& k.parquet_ttl_secs == t.durable_ttl()
}

fn keys_from(redis_key: String, category: &str, parquet_key: String, tier: Tier) -> (r: CacheKeys)
    ensures
        keys_are(r, redis_key@, category@, parquet_key@, tier),
{
    CacheKeys {
        redis_key,
        parquet_category: category.to_owned(),
        parquet_key,
        redis_ttl_secs: tier.fast_secs(),
        parquet_ttl_secs: tier.durable_secs(),
    }
}

/// Keys of trade statistics for a time frame, of one token or all.
pub fn trade_stats_keys(time_frame: &str, ticker: Option<&str>) -> (r: CacheKeys)
    ensures
        match ticker {
            Some(t) => keys_are(r, "kaspa:trade_stats:"@ + time_frame@ + ":"@ + upper_of(t@), TRADE_STATS@, time_frame@ + "_"@ + upper_of(t@), Tier::Warm),
            None => keys_are(r, "kaspa:trade_stats:"@ + time_frame@, TRADE_STATS@, time_frame@, Tier::Warm),
        },
{
    match ticker {
        Some(tk) => {
            let t = uppercase(tk);
            let mut redis = "kaspa:trade_stats:".to_owned();
            redis.append(time_frame);
            redis.append(":");
            redis.append(t.as_str());
            let mut parquet = time_frame.to_owned();
            parquet.append("_");
            parquet.append(t.as_str());
            keys_from(redis, TRADE_STATS, parquet, Tier::Warm)
        },
        None => {
            let mut redis = "kaspa:trade_stats:".to_owned();
            redis.append(time_frame);
            let parquet = time_frame.to_owned();
            keys_from(redis, TRADE_STATS, parquet, Tier::Warm)
        },
    }
}

/// Keys of floor prices of one token or all.
pub fn floor_prices_keys(ticker: Option<&str>) -> (r: CacheKeys)
    ensures
        match ticker {
            Some(t) => keys_are(r, "kaspa:floor_price:"@ + upper_of(t@), FLOOR_PRICES@, upper_of(t@), Tier::Hot),
            None => keys_are(r, "kaspa:floor_price:all"@, FLOOR_PRICES@, "all"@, Tier::Hot),
        },
{
    match ticker {
        Some(tk) => {
            let t = uppercase(tk);
            let mut redis = "kaspa:floor_price:".to_owned();
            redis.append(t.as_str());
            let parquet = t.clone();
            keys_from(redis, FLOOR_PRICES, parquet, Tier::Hot)
        },
        None => {
            let redis = "kaspa:floor_price:all".to_owned();
            let parquet = "all".to_owned();
            keys_from(redis, FLOOR_PRICES, parquet, Tier::Hot)
        },
    }
}

/// Keys of sold orders of one token or all, over the last `minutes` (60 when not given).
pub fn sold_orders_keys(ticker: Option<&str>, minutes: Option<i64>) -> (r: CacheKeys)
    ensures
        match ticker {
            Some(t) => keys_are(r, "kaspa:sold_orders:"@ + upper_of(t@) + ":"@ + decimal_of((match minutes { Some(m) => m, None => DEFAULT_MINUTES }) as int), ORDERS@, upper_of(t@) + "_"@ + decimal_of((match minutes { Some(m) => m, None => DEFAULT_MINUTES }) as int), Tier::Hot),
            None => keys_are(r, "kaspa:sold_orders:all:"@ + decimal_of((match minutes { Some(m) => m, None => DEFAULT_MINUTES }) as int), ORDERS@, "all_"@ + decimal_of((match minutes { Some(m) => m, None => DEFAULT_MINUTES }) as int), Tier::Hot),
        },
{
    let mins: i64 = match minutes {
        Some(m) => m,
        None => DEFAULT_MINUTES,
    };
    match ticker {
        Some(tk) => {
            let t = uppercase(tk);
            let mut redis = "kaspa:sold_orders:".to_owned();
            redis.append(t.as_str());
            redis.append(":");
            append_decimal(&mut redis, mins);
            let mut parquet = t.clone();
            parquet.append("_");
            append_decimal(&mut parquet, mins);
            keys_from(redis, ORDERS, parquet, Tier::Hot)
        },
        None => {
            let mut redis = "kaspa:sold_orders:all:".to_owned();
            append_decimal(&mut redis, mins);
            let mut parquet = "all_".to_owned();
            append_decimal(&mut parquet, mins);
            keys_from(redis, ORDERS, parquet, Tier::Hot)
        },
    }
}

/// Keys of the most recent sold order.
pub fn last_order_sold_keys() -> (r: CacheKeys)
    ensures
        keys_are(r, "kaspa:last_order_sold"@, ORDERS@, "last"@, Tier::Hot),
{
    let redis = "kaspa:last_order_sold".to_owned();
    let parquet = "last".to_owned();
    keys_from(redis, ORDERS, parquet, Tier::Hot)
}

/// Keys of trending mints over a time interval.
pub fn hot_mints_keys(time_interval: &str) -> (r: CacheKeys)
    ensures
        keys_are(r, "kaspa:hot_mints:"@ + time_interval@, HOT_MINTS@, time_interval@, Tier::Warm),
{
    let mut redis = "kaspa:hot_mints:".to_owned();
    redis.append(time_interval);
    let parquet = time_interval.to_owned();
    keys_from(redis, HOT_MINTS, parquet, Tier::Warm)
}

/// Keys of information on one token.
pub fn token_info_keys(ticker: &str) -> (r: CacheKeys)
    ensures
        keys_are(r, "kaspa:token_info:"@ + upper_of(ticker@), TOKEN_INFO@, upper_of(ticker@), Tier::Cold),
{
    let t = uppercase(ticker);
    let mut redis = "kaspa:token_info:".to_owned();
    redis.append(t.as_str());
    let parquet = t.clone();
    keys_from(redis, TOKEN_INFO, parquet, Tier::Cold)
}

/// Keys of logos of one token or all.
pub fn tokens_logos_keys(ticker: Option<&str>) -> (r: CacheKeys)
    ensures
        match ticker {
            Some(t) => keys_are(r, "kaspa:logos:"@ + upper_of(t@), LOGOS@, upper_of(t@), Tier::Static),
            None => keys_are(r, "kaspa:logos:all"@, LOGOS@, "all"@, Tier::Static),
        },
{
    match ticker {
        Some(tk) => {
            let t = uppercase(tk);
            let mut redis = "kaspa:logos:".to_owned();
            redis.append(t.as_str());
            let parquet = t.clone();
            keys_from(redis, LOGOS, parquet, Tier::Static)
        },
        None => {
            let redis = "kaspa:logos:all".to_owned();
            let parquet = "all".to_owned();
            keys_from(redis, LOGOS, parquet, Tier::Static)
        },
    }
}

/// Keys of tickers with open orders.
pub fn open_orders_keys() -> (r: CacheKeys)
    ensures
        keys_are(r, "kaspa:open_orders"@, ORDERS@, "active"@, Tier::Hot),
{
    let redis = "kaspa:open_orders".to_owned();
    let parquet = "active".to_owned();
    keys_from(redis, ORDERS, parquet, Tier::Hot)
}

/// Keys of price and volume history of one token over a time frame.
pub fn historical_data_keys(time_frame: &str, ticker: &str) -> (r: CacheKeys)
    ensures
        keys_are(r, "kaspa:historical:"@ + upper_of(ticker@) + ":"@ + time_frame@, HISTORICAL@, upper_of(ticker@) + "_"@ + time_frame@, Tier::Cold),
{
    let t = uppercase(ticker);
    let mut redis = "kaspa:historical:".to_owned();
    redis.append(t.as_str());
    redis.append(":");
    redis.append(time_frame);
    let mut parquet = t.clone();
    parquet.append("_");
    parquet.append(time_frame);
    keys_from(redis, HISTORICAL, parquet, Tier::Cold)
}

/// Keys of recent NFT mints of one collection or all.
pub fn krc721_mints_keys(ticker: Option<&str>) -> (r: CacheKeys)
    ensures
        match ticker {
            Some(t) => keys_are(r, "kaspa:krc721:mints:"@ + upper_of(t@), KRC721@, "mints_"@ + upper_of(t@), Tier::Warm),
            None => keys_are(r, "kaspa:krc721:mints:all"@, KRC721@, "mints_all"@, Tier::Warm),
        },
{
    match ticker {
        Some(tk) => {
            let t = uppercase(tk);
            let mut redis = "kaspa:krc721:mints:".to_owned();
            redis.append(t.as_str());
            let mut parquet = "mints_".to_owned();
            parquet.append(t.as_str());
            keys_from(redis, KRC721, parquet, Tier::Warm)
        },
        None => {
            let redis = "kaspa:krc721:mints:all".to_owned();
            let parquet = "mints_all".to_owned();
            keys_from(redis, KRC721, parquet, Tier::Warm)
        },
    }
}

/// Keys of sold NFT orders of one collection or all, over the last `minutes` (60 when not given).
pub fn krc721_sold_orders_keys(ticker: Option<&str>, minutes: Option<i64>) -> (r: CacheKeys)
    ensures
        match ticker {
            Some(t) => keys_are(r, "kaspa:krc721:sold:"@ + upper_of(t@) + ":"@ + decimal_of((match minutes { Some(m) => m, None => DEFAULT_MINUTES }) as int), KRC721@, "sold_"@ + upper_of(t@) + "_"@ + decimal_of((match minutes { Some(m) => m, None => DEFAULT_MINUTES }) as int), Tier::Hot),
            None => keys_are(r, "kaspa:krc721:sold:all:"@ + decimal_of((match minutes { Some(m) => m, None => DEFAULT_MINUTES }) as int), KRC721@, "sold_all_"@ + decimal_of((match minutes { Some(m) => m, None => DEFAULT_MINUTES }) as int), Tier::Hot),
        },
{
    let mins: i64 = match minutes {
        Some(m) => m,
        None => DEFAULT_MINUTES,
    };
    match ticker {
        Some(tk) => {
            let t = uppercase(tk);
            let mut redis = "kaspa:krc721:sold:".to_owned();
            redis.append(t.as_str());
            redis.append(":");
            append_decimal(&mut redis, mins);
            let mut parquet = "sold_".to_owned();
            parquet.append(t.as_str());
            parquet.append("_");
            append_decimal(&mut parquet, mins);
            keys_from(redis, KRC721, parquet, Tier::Hot)
        },
        None => {
            let mut redis = "kaspa:krc721:sold:all:".to_owned();
            append_decimal(&mut redis, mins);
            let mut parquet = "sold_all_".to_owned();
            append_decimal(&mut parquet, mins);
            keys_from(redis, KRC721, parquet, Tier::Hot)
        },
    }
}

/// Keys of listed NFT orders of one collection or all.
pub fn krc721_listed_orders_keys(ticker: Option<&str>) -> (r: CacheKeys)
    ensures
        match ticker {
            Some(t) => keys_are(r, "kaspa:krc721:listed:"@ + upper_of(t@), KRC721@, "listed_"@ + upper_of(t@), Tier::Hot),
            None => keys_are(r, "kaspa:krc721:listed:all"@, KRC721@, "listed_all"@, Tier::Hot),
        },
{
    match ticker {
        Some(tk) => {
            let t = uppercase(tk);
            let mut redis = "kaspa:krc721:listed:".to_owned();
            redis.append(t.as_str());
            let mut parquet = "listed_".to_owned();
            parquet.append(t.as_str());
            keys_from(redis, KRC721, parquet, Tier::Hot)
        },
        None => {
            let redis = "kaspa:krc721:listed:all".to_owned();
            let parquet = "listed_all".to_owned();
            keys_from(redis, KRC721, parquet, Tier::Hot)
        },
    }
}

/// Keys of nFT trade statistics for a time frame, of one collection or all.
pub fn krc721_trade_stats_keys(time_frame: &str, ticker: Option<&str>) -> (r: CacheKeys)
    ensures
        match ticker {
            Some(t) => keys_are(r, "kaspa:krc721:stats:"@ + time_frame@ + ":"@ + upper_of(t@), KRC721@, "stats_"@ + time_frame@ + "_"@ + upper_of(t@), Tier::Warm),
            None => keys_are(r, "kaspa:krc721:stats:"@ + time_frame@, KRC721@, "stats_"@ + time_frame@, Tier::Warm),
        },
{
    match ticker {
        Some(tk) => {
            let t = uppercase(tk);
            let mut redis = "kaspa:krc721:stats:".to_owned();
            redis.append(time_frame);
            redis.append(":");
            redis.append(t.as_str());
            let mut parquet = "stats_".to_owned();
            parquet.append(time_frame);
            parquet.append("_");
            parquet.append(t.as_str());
            keys_from(redis, KRC721, parquet, Tier::Warm)
        },
        None => {
            let mut redis = "kaspa:krc721:stats:".to_owned();
            redis.append(time_frame);
            let mut parquet = "stats_".to_owned();
            parquet.append(time_frame);
            keys_from(redis, KRC721, parquet, Tier::Warm)
        },
    }
}

/// Keys of trending NFT mints over a time interval.
pub fn krc721_hot_mints_keys(time_interval: &str) -> (r: CacheKeys)
    ensures
        keys_are(r, "kaspa:krc721:hot_mints:"@ + time_interval@, KRC721@, "hot_mints_"@ + time_interval@, Tier::Warm),
{
    let mut redis = "kaspa:krc721:hot_mints:".to_owned();
    redis.append(time_interval);
    let mut parquet = "hot_mints_".to_owned();
    parquet.append(time_interval);
    keys_from(redis, KRC721, parquet, Tier::Warm)
}

/// Keys of nFT floor prices of one collection or all.
pub fn krc721_floor_prices_keys(ticker: Option<&str>) -> (r: CacheKeys)
    ensures
        match ticker {
            Some(t) => keys_are(r, "kaspa:krc721:floor:"@ + upper_of(t@), KRC721@, "floor_"@ + upper_of(t@), Tier::Hot),
            None => keys_are(r, "kaspa:krc721:floor:all"@, KRC721@, "floor_all"@, Tier::Hot),
        },
{
    match ticker {
        Some(tk) => {
            let t = uppercase(tk);
            let mut redis = "kaspa:krc721:floor:".to_owned();
            redis.append(t.as_str());
            let mut parquet = "floor_".to_owned();
            parquet.append(t.as_str());
            keys_from(redis, KRC721, parquet, Tier::Hot)
        },
        None => {
            let redis = "kaspa:krc721:floor:all".to_owned();
            let parquet = "floor_all".to_owned();
            keys_from(redis, KRC721, parquet, Tier::Hot)
        },
    }
}

/// Keys of information on one NFT collection.
pub fn krc721_collection_info_keys(ticker: &str) -> (r: CacheKeys)
    ensures
        keys_are(r, "kaspa:krc721:collection:"@ + upper_of(ticker@), KRC721@, "collection_"@ + upper_of(ticker@), Tier::Warm),
{
    let t = uppercase(ticker);
    let mut redis = "kaspa:krc721:collection:".to_owned();
    redis.append(t.as_str());
    let mut parquet = "collection_".to_owned();
    parquet.append(t.as_str());
    keys_from(redis, KRC721, parquet, Tier::Warm)
}

/// Keys of metadata of one NFT of a collection.
pub fn nft_metadata_keys(ticker: &str, token_id: i64) -> (r: CacheKeys)
    ensures
        keys_are(r, "kaspa:krc721:metadata:"@ + upper_of(ticker@) + ":"@ + decimal_of(token_id as int), KRC721@, "metadata_"@ + upper_of(ticker@) + "_"@ + decimal_of(token_id as int), Tier::Cold),
{
    let t = uppercase(ticker);
    let mut redis = "kaspa:krc721:metadata:".to_owned();
    redis.append(t.as_str());
    redis.append(":");
    append_decimal(&mut redis, token_id);
    let mut parquet = "metadata_".to_owned();
    parquet.append(t.as_str());
    parquet.append("_");
    append_decimal(&mut parquet, token_id);
    keys_from(redis, KRC721, parquet, Tier::Cold)
}

/// Keys of sold name-service orders over the last `minutes` (60 when not given).
pub fn kns_sold_orders_keys(minutes: Option<i64>) -> (r: CacheKeys)
    ensures
        keys_are(r, "kaspa:kns:sold:"@ + decimal_of((match minutes { Some(m) => m, None => DEFAULT_MINUTES }) as int), KNS@, "sold_"@ + decimal_of((match minutes { Some(m) => m, None => DEFAULT_MINUTES }) as int), Tier::Hot),
{
    let mins: i64 = match minutes {
        Some(m) => m,
        None => DEFAULT_MINUTES,
    };
    let mut redis = "kaspa:kns:sold:".to_owned();
    append_decimal(&mut redis, mins);
    let mut parquet = "sold_".to_owned();
    append_decimal(&mut parquet, mins);
    keys_from(redis, KNS, parquet, Tier::Hot)
}

/// Keys of name-service trade statistics for a time frame, of one asset or all.
pub fn kns_trade_stats_keys(time_frame: &str, asset: Option<&str>) -> (r: CacheKeys)
    ensures
        match asset {
            Some(a) => keys_are(r, "kaspa:kns:stats:"@ + time_frame@ + ":"@ + a@, KNS@, "stats_"@ + time_frame@ + "_"@ + a@, Tier::Warm),
            None => keys_are(r, "kaspa:kns:stats:"@ + time_frame@, KNS@, "stats_"@ + time_frame@, Tier::Warm),
        },
{
    match asset {
        Some(a) => {
            let mut redis = "kaspa:kns:stats:".to_owned();
            redis.append(time_frame);
            redis.append(":");
            redis.append(a);
            let mut parquet = "stats_".to_owned();
            parquet.append(time_frame);
            parquet.append("_");
            parquet.append(a);
            keys_from(redis, KNS, parquet, Tier::Warm)
        },
        None => {
            let mut redis = "kaspa:kns:stats:".to_owned();
            redis.append(time_frame);
            let mut parquet = "stats_".to_owned();
            parquet.append(time_frame);
            keys_from(redis, KNS, parquet, Tier::Warm)
        },
    }
}

/// Keys of listed name-service orders.
pub fn kns_listed_orders_keys() -> (r: CacheKeys)
    ensures
        keys_are(r, "kaspa:kns:listed"@, KNS@, "listed"@, Tier::Hot),
{
    let redis = "kaspa:kns:listed".to_owned();
    let parquet = "listed".to_owned();
    keys_from(redis, KNS, parquet, Tier::Hot)
}

} // verus!
