//! The tiered cache orchestrator: fast store, then durable store, then the
//! rate-limited remote source.
//!
//! The fast store and the remote source are reached by the caller, so a lookup
//! runs in steps: the caller reads the fast store and hands the answer to
//! `lookup_at`; where that says `Fetch`, it calls the remote source and hands
//! the outcome to `complete_fetch_at`. Every value returned is meant to be
//! written back to the fast store, best effort, with the fast lifetime.
use vstd::prelude::*;

use crate::clock::{millis_to_secs, now_millis};
use crate::json::{json_text, parses_as_json};
use crate::parquet_store::{
    find, footprint_row, is_known_category, known_categories, sweep, valid_in, without, written,
    CacheStats, CategoryStats, ParquetStore, StoredEntry,
};
use crate::rate_limiter::{admits, after_call, RateLimiter};
use crate::stats::{bump, total_hits, CategoryCounter, CategoryCounters};

verus! {

/// The fast store: a key to text cache whose entries expire on their own.
/// Failures never reach the orchestrator: a failed read is "not present", and
/// a failed write is reported and otherwise ignored.
pub trait CacheRepository {
    /// The value under `key`, if present and not expired.
    fn get(&self, key: &str) -> Option<String>;

    /// Stores `value` under `key` for `ttl_seconds`.
    fn set(&mut self, key: &str, value: &str, ttl_seconds: u64) -> Result<(), String>;
}

/// Where one piece of data is cached, and for how long in each store.
#[derive(Debug, Clone)]
pub struct CacheKeys {
    /// Key in the fast store.
    pub redis_key: String,
    /// Category in the durable store.
    pub parquet_category: String,
    /// Key within that category.
    pub parquet_key: String,
    /// Lifetime in the fast store, in seconds.
    pub redis_ttl_secs: u64,
    /// Lifetime in the durable store, in seconds.
    pub parquet_ttl_secs: u64,
}

/// Why a lookup gave no value.
#[derive(Debug, Clone)]
pub enum CacheError {
    /// The remote call was suppressed: the limit of calls per minute was reached.
    RateLimitExceeded { limit: u32 },
    /// The remote source failed.
    FetchFailed { cause: String },
    /// The fetched value did not have the expected shape; it was not cached.
    DeserializeFailed { cause: String },
}

/// The answer of the cache tiers to one lookup.
#[derive(Debug)]
pub enum Lookup {
    /// Served from the fast store.
    FastHit(String),
    /// Served from the durable store.
    DurableHit(String),
    /// Missed at both tiers, and the remote call was admitted: fetch, then
    /// hand the outcome to `complete_fetch_at`.
    Fetch,
    /// Missed at both tiers, and the remote call was refused.
    RateLimited { limit: u32 },
}

/// Whether a lookup answer counts as a hit.
pub open spec fn is_hit(r: Lookup) -> bool {
    r is FastHit || r is DurableHit
}

/// Seconds since the epoch at `now` milliseconds (0 before the epoch).
pub open spec fn secs_at(now: i64) -> i64 {
    if now < 0 {
        0
    } else {
        ((now as int) / 1000) as i64
    }
}

/// The payload the durable store serves for `keys` at `now` (seconds): the
/// entry must be valid for the durable lifetime and its payload JSON text.
pub open spec fn durable_payload(s: Seq<StoredEntry>, keys: CacheKeys, now: i64) -> Option<String> {
    if valid_in(s, keys.parquet_category@, keys.parquet_key@, now, keys.parquet_ttl_secs) {
        match find(s, keys.parquet_category@, keys.parquet_key@) {
            Some(e) => match e.payload {
                Some(p) => if json_text(p@) {
                    Some(p)
                } else {
                    None
                },
                None => None,
            },
            None => None,
        }
    } else {
        None
    }
}

/// Whether `after` is `before` with one lookup in `c` counted.
pub open spec fn counted(before: CategoryCounters, after: CategoryCounters, c: Seq<char>, hit: bool) -> bool {
    &&& after.counts(c) == bump(before.counts(c), hit)
    &&& forall|c2: Seq<char>| c2 != c ==> after.counts(c2) == before.counts(c2)
}

/// A row of statistics for a category with lookups but nothing stored.
pub open spec fn activity_row(row: (String, CategoryStats), x: CategoryCounter) -> bool {
    &&& row.0@ == x.category@
    &&& row.1.keys == 0
    &&& row.1.size_bytes == 0
    &&& row.1.description@ == x.category@ + " (cache activity)"@
    &&& row.1.hits == x.hits
    &&& row.1.misses == x.misses
    &&& row.1.requests == x.requests
}

/// The counters, in order, of categories not known at start-up that have seen lookups.
pub open spec fn unknown_active(s: Seq<CategoryCounter>) -> Seq<CategoryCounter>
    decreases s.len(),
{
    if s.len() == 0 {
        s
    } else if !known_categories().contains(s.last().category@) && s.last().requests > 0 {
        unknown_active(s.drop_last()).push(s.last())
    } else {
        unknown_active(s.drop_last())
    }
}

/// Once an entry is invalidated, the durable store serves nothing for it, at
/// any time: the next lookup that the fast store does not answer is a miss.
pub proof fn invalidated_entry_is_not_served(s: Seq<StoredEntry>, keys: CacheKeys, now: i64)
    ensures
        durable_payload(without(s, keys.parquet_category@, keys.parquet_key@), keys, now) is None,
{
    crate::parquet_store::delete_idempotent(s, keys.parquet_category@, keys.parquet_key@, now, keys.parquet_ttl_secs);
}

/// After a fetch of JSON text `v` is completed at `cached` (seconds), the
/// durable store serves `v` for the same keys at any `now` (milliseconds) less
/// than the durable lifetime later: a lookup that the fast store does not
/// answer is then a durable hit, with no remote call.
pub proof fn fetched_value_is_served(s: Seq<StoredEntry>, e: StoredEntry, keys: CacheKeys, v: String, cached: i64, now: i64)
    requires
        written(e, keys.parquet_category@, keys.parquet_key@, v, cached, keys.parquet_ttl_secs),
        json_text(v@),
        (secs_at(now) as int) - (cached as int) < keys.parquet_ttl_secs as int,
    ensures
        durable_payload(without(s, keys.parquet_category@, keys.parquet_key@).push(e), keys, secs_at(now))
            == Some(v),
{
    crate::parquet_store::read_after_write(s, e, keys.parquet_category@, keys.parquet_key@);
}

/// Each counter kept by `unknown_active` is one of the sequence's, of an
/// unknown category.
proof fn lemma_unknown_active_from(s: Seq<CategoryCounter>)
    ensures
        forall|j: int|
            0 <= j < unknown_active(s).len() ==> !known_categories().contains(
                #[trigger] unknown_active(s)[j].category@,
            ) && exists|i: int| 0 <= i < s.len() && s[i] == unknown_active(s)[j],
    decreases s.len(),
{
    if s.len() > 0 {
        let d = s.drop_last();
        lemma_unknown_active_from(d);
        let u = unknown_active(s);
        assert forall|j: int| 0 <= j < u.len() implies !known_categories().contains(#[trigger] u[j].category@)
            && exists|i: int| 0 <= i < s.len() && s[i] == u[j] by {
            if j < unknown_active(d).len() {
                assert(u[j] == unknown_active(d)[j]);
                assert(!known_categories().contains(unknown_active(d)[j].category@));
                let i = choose|i: int| 0 <= i < d.len() && d[i] == unknown_active(d)[j];
                assert(s[i] == u[j]);
            } else {
                assert(s[s.len() - 1] == u[j]);
            }
        }
    }
}

/// Counters of distinct categories keep them distinct under `unknown_active`.
proof fn lemma_unknown_active_distinct(s: Seq<CategoryCounter>)
    requires
        crate::stats::distinct_categories(s),
    ensures
        crate::stats::distinct_categories(unknown_active(s)),
    decreases s.len(),
{
    if s.len() > 0 {
        let d = s.drop_last();
        assert(crate::stats::distinct_categories(d)) by {
            assert forall|i: int, j: int| 0 <= i < d.len() && 0 <= j < d.len() && i != j
                implies #[trigger] d[i].category@ != #[trigger] d[j].category@ by {
                assert(s[i] == d[i] && s[j] == d[j]);
            }
        }
        lemma_unknown_active_distinct(d);
        lemma_unknown_active_from(d);
        let ud = unknown_active(d);
        let u = unknown_active(s);
        if u != ud {
            assert forall|a: int, b: int| 0 <= a < u.len() && 0 <= b < u.len() && a != b
                implies #[trigger] u[a].category@ != #[trigger] u[b].category@ by {
                if a < ud.len() && b < ud.len() {
                    assert(u[a] == ud[a] && u[b] == ud[b]);
                } else if a < ud.len() {
                    assert(!known_categories().contains(ud[a].category@));
                    assert(u[a] == ud[a]);
                    let i = choose|i: int| 0 <= i < d.len() && d[i] == ud[a];
                    assert(s[i] == u[a]);
                    assert(u[b] == s[s.len() - 1]);
                } else {
                    assert(!known_categories().contains(ud[b].category@));
                    assert(u[b] == ud[b]);
                    let i = choose|i: int| 0 <= i < d.len() && d[i] == ud[b];
                    assert(s[i] == u[b]);
                    assert(u[a] == s[s.len() - 1]);
                }
            }
        }
    }
}

/// The tiered cache: the durable store, the admission gate for the remote
/// source, and the lookup counters.
#[derive(Debug)]
pub struct CacheService {
    parquet: ParquetStore,
    rate_limiter: RateLimiter,
    cache_hits: u64,
    category_stats: CategoryCounters,
}

impl CacheService {
    /// The durable store.
    pub closed spec fn store(&self) -> ParquetStore {
        self.parquet
    }

    /// The admission gate.
    pub closed spec fn limiter(&self) -> RateLimiter {
        self.rate_limiter
    }

    /// Lookups answered from a cache tier.
    pub closed spec fn hits(&self) -> u64 {
        self.cache_hits
    }

    /// The lookup counters, per category.
    pub closed spec fn counters(&self) -> CategoryCounters {
        self.category_stats
    }

    /// The limiter holds no more timestamps than its limit, every counter adds
    /// up, the durable store's names are distinct, and the total of hits is the
    /// sum of the per-category hits (held at `u64::MAX` once it gets there).
    pub open spec fn wf(&self) -> bool {
        &&& self.limiter().wf()
        &&& self.counters().wf()
        &&& self.store().wf()
        &&& self.hits() as int == if total_hits(self.counters().counters()) > u64::MAX as int {
            u64::MAX as int
        } else {
            total_hits(self.counters().counters())
        }
    }

    /// A cache over `parquet`, admitting remote calls through `rate_limiter`,
    /// with no lookups counted.
    pub fn new(parquet: ParquetStore, rate_limiter: RateLimiter) -> (r: Self)
        requires
            rate_limiter.wf(),
            parquet.wf(),
        ensures
            r.wf(),
            r.store() == parquet,
            r.limiter() == rate_limiter,
            r.hits() == 0,
            r.counters().counters() == Seq::<CategoryCounter>::empty(),
    {
        CacheService { parquet, rate_limiter, cache_hits: 0, category_stats: CategoryCounters::new() }
    }

    /// The durable store, for the caller that mirrors it to disk.
    pub fn parquet(&self) -> (r: &ParquetStore)
        ensures
            *r == self.store(),
    {
        &self.parquet
    }

    /// The admission gate, for status callers.
    pub fn rate_limiter(&self) -> (r: &RateLimiter)
        ensures
            *r == self.limiter(),
    {
        &self.rate_limiter
    }

    /// Puts back an entry of the durable store found on disk at start-up.
    pub fn restore(&mut self, entry: StoredEntry)
        requires
            old(self).wf(),
        ensures
            final(self).wf(),
            final(self).store().entries() == without(
                old(self).store().entries(),
                entry.category@,
                entry.key@,
            ).push(entry),
            final(self).store().base() == old(self).store().base(),
            final(self).limiter() == old(self).limiter(),
            final(self).hits() == old(self).hits(),
            final(self).counters() == old(self).counters(),
    {
        self.parquet.restore(entry)
    }

    /// Counts a hit in `category`.
    fn record_category_hit(&mut self, category: &str)
        requires
            old(self).wf(),
        ensures
            final(self).wf(),
            counted(old(self).counters(), final(self).counters(), category@, true),
            final(self).store() == old(self).store(),
            final(self).limiter() == old(self).limiter(),
    {
        let counted = self.category_stats.record(category, true);
        if counted && self.cache_hits < u64::MAX {
            self.cache_hits = self.cache_hits + 1;
        }
    }

    /// Counts a miss in `category`.
    fn record_category_miss(&mut self, category: &str)
        requires
            old(self).wf(),
        ensures
            final(self).wf(),
            counted(old(self).counters(), final(self).counters(), category@, false),
            final(self).hits() == old(self).hits(),
            final(self).store() == old(self).store(),
            final(self).limiter() == old(self).limiter(),
    {
        let _ = self.category_stats.record(category, false);
    }

    /// The payload the durable store would serve for `keys` at `now`
    /// (milliseconds since the epoch), for a caller that must decode it before
    /// it can say whether it is usable.
    pub fn probe_durable_at(&self, keys: &CacheKeys, now: i64) -> (r: Option<String>)
        requires
            self.wf(),
        ensures
            r == durable_payload(self.store().entries(), *keys, secs_at(now)),
    {
        let secs: i64 = if now < 0 {
            0
        } else {
            millis_to_secs(now)
        };
        let cat = keys.parquet_category.as_str();
        let key = keys.parquet_key.as_str();
        if self.parquet.is_valid_at(cat, key, keys.parquet_ttl_secs, secs) {
            if let Some(p) = self.parquet.read(cat, key) {
                if parses_as_json(p.as_str()) {
                    return Some(p);
                }
            }
        }
        None
    }

    /// One lookup of `keys` at `now` (milliseconds since the epoch), given what
    /// the fast store held under `keys.redis_key` and whether that value could
    /// be decoded, and whether the caller can decode what the durable store
    /// holds (see `probe_durable_at`). A usable fast value is served; else a
    /// usable durable payload (valid entry, JSON text); else the lookup is a
    /// miss and the remote call goes to the admission limiter, at `tick` on its
    /// clock (see `RateLimiter::monotonic_millis`). Every lookup counts exactly
    /// one hit or miss in its category.
    pub fn lookup_at(
        &mut self,
        keys: &CacheKeys,
        fast: Option<String>,
        fast_usable: bool,
        durable_usable: bool,
        now: i64,
        tick: i64,
    ) -> (r: Lookup)
        requires
            old(self).wf(),
        ensures
            final(self).wf(),
            final(self).store() == old(self).store(),
            counted(old(self).counters(), final(self).counters(), keys.parquet_category@, is_hit(r)),
            is_hit(r) ==> final(self).limiter() == old(self).limiter(),
            match r {
                Lookup::FastHit(v) => fast_usable && fast == Some(v),
                Lookup::DurableHit(p) => !(fast_usable && fast is Some) && durable_usable && durable_payload(
                    old(self).store().entries(),
                    *keys,
                    secs_at(now),
                ) == Some(p),
                _ => {
                    &&& !(fast_usable && fast is Some)
                    &&& !(durable_usable && durable_payload(old(self).store().entries(), *keys, secs_at(now)) is Some)
                    &&& final(self).limiter().spec_limit() == old(self).limiter().spec_limit()
                    &&& final(self).limiter().timestamps() == after_call(
                        old(self).limiter().timestamps(),
                        old(self).limiter().spec_limit(),
                        tick,
                    )
                    &&& (r is Fetch <==> admits(
                        old(self).limiter().timestamps(),
                        old(self).limiter().spec_limit(),
                        tick,
                    ))
                    &&& (r is RateLimited ==> r->limit == old(self).limiter().spec_limit())
                },
            },
    {
        if fast_usable {
            if let Some(v) = fast {
                self.record_category_hit(keys.parquet_category.as_str());
                return Lookup::FastHit(v);
            }
        }
        if durable_usable {
            if let Some(p) = self.probe_durable_at(keys, now) {
                self.record_category_hit(keys.parquet_category.as_str());
                return Lookup::DurableHit(p);
            }
        }
        self.record_category_miss(keys.parquet_category.as_str());
        if self.rate_limiter.check_and_record_at(tick) {
            Lookup::Fetch
        } else {
            Lookup::RateLimited { limit: self.rate_limiter.limit() }
        }
    }

    /// `lookup_at` for JSON payloads: the fast value is usable when it is JSON text.
    pub fn lookup_json_at(&mut self, keys: &CacheKeys, fast: Option<String>, now: i64, tick: i64) -> (r: Lookup)
        requires
            old(self).wf(),
        ensures
            final(self).wf(),
            final(self).store() == old(self).store(),
            counted(old(self).counters(), final(self).counters(), keys.parquet_category@, is_hit(r)),
            is_hit(r) ==> final(self).limiter() == old(self).limiter(),
            !is_hit(r) ==> final(self).limiter().timestamps() == after_call(
                old(self).limiter().timestamps(),
                old(self).limiter().spec_limit(),
                tick,
            ),
            final(self).limiter().spec_limit() == old(self).limiter().spec_limit(),
            r is RateLimited ==> r->limit == old(self).limiter().spec_limit(),
            match r {
                Lookup::FastHit(v) => fast == Some(v) && json_text(v@),
                Lookup::DurableHit(p) => durable_payload(old(self).store().entries(), *keys, secs_at(now))
                    == Some(p) && !(fast matches Some(v) && json_text(v@)),
                _ => durable_payload(old(self).store().entries(), *keys, secs_at(now)) is None
                    && !(fast matches Some(v) && json_text(v@)) && (r is Fetch <==> admits(
                    old(self).limiter().timestamps(),
                    old(self).limiter().spec_limit(),
                    tick,
                )),
            },
    {
        let usable = match &fast {
            Some(v) => parses_as_json(v.as_str()),
            None => false,
        };
        self.lookup_at(keys, fast, usable, true, now, tick)
    }

    /// Finishes a lookup that said `Fetch`, given what the remote source
    /// returned and, for a value, whether it decoded into the expected shape.
    /// A decoded value is written to the durable store, cached at `now`
    /// (milliseconds since the epoch) with the durable lifetime, and returned.
    pub fn complete_fetch_at(
        &mut self,
        keys: &CacheKeys,
        fetched: Result<String, String>,
        decoded: Result<(), String>,
        now: i64,
    ) -> (r: Result<String, CacheError>)
        requires
            old(self).wf(),
        ensures
            final(self).wf(),
            final(self).limiter() == old(self).limiter(),
            final(self).counters() == old(self).counters(),
            final(self).hits() == old(self).hits(),
            final(self).store().base() == old(self).store().base(),
            match fetched {
                Err(cause) => r == Err::<String, CacheError>(CacheError::FetchFailed { cause })
                    && final(self).store() == old(self).store(),
                Ok(v) => match decoded {
                    Err(cause) => r == Err::<String, CacheError>(CacheError::DeserializeFailed { cause })
                        && final(self).store() == old(self).store(),
                    Ok(_) => {
                        &&& r == Ok::<String, CacheError>(v)
                        &&& final(self).store().entries() == without(
                            old(self).store().entries(),
                            keys.parquet_category@,
                            keys.parquet_key@,
                        ).push(final(self).store().entries().last())
                        &&& written(
                            final(self).store().entries().last(),
                            keys.parquet_category@,
                            keys.parquet_key@,
                            v,
                            secs_at(now),
                            keys.parquet_ttl_secs,
                        )
                    },
                },
            },
    {
        match fetched {
            Err(cause) => Err(CacheError::FetchFailed { cause }),
            Ok(v) => match decoded {
                Err(cause) => Err(CacheError::DeserializeFailed { cause }),
                Ok(_) => {
                    let secs: i64 = if now < 0 {
                        0
                    } else {
                        millis_to_secs(now)
                    };
                    self.parquet.write_simple_at(
                        keys.parquet_category.as_str(),
                        keys.parquet_key.as_str(),
                        v.clone(),
                        keys.parquet_ttl_secs,
                        secs,
                    );
                    Ok(v)
                },
            },
        }
    }

    /// A whole lookup of JSON text at `now` (milliseconds since the epoch)
    /// against the fast store `fast`, calling `fetcher` only when both tiers
    /// miss and the admission gate lets the call through at `tick` on its clock.
    /// A value served from the durable store or fetched is written back to
    /// `fast`, best effort.
    pub fn get_cached_json_with<R: CacheRepository, F: FnOnce() -> Result<String, String>>(
        &mut self,
        fast: &mut R,
        keys: &CacheKeys,
        fetcher: F,
        now: i64,
        tick: i64,
    ) -> (r: Result<String, CacheError>)
        requires
            old(self).wf(),
            fetcher.requires(()),
        ensures
            final(self).wf(),
            final(self).store().base() == old(self).store().base(),
            final(self).limiter().spec_limit() == old(self).limiter().spec_limit(),
            exists|hit: bool| counted(old(self).counters(), final(self).counters(), keys.parquet_category@, hit),
            r matches Err(CacheError::RateLimitExceeded { limit }) ==> {
                &&& limit == old(self).limiter().spec_limit()
                &&& !admits(old(self).limiter().timestamps(), old(self).limiter().spec_limit(), tick)
                &&& durable_payload(old(self).store().entries(), *keys, secs_at(now)) is None
                &&& final(self).store() == old(self).store()
            },
            r matches Ok(v) ==> json_text(v@) || fetcher.ensures((), Ok::<String, String>(v)),
            r matches Err(CacheError::FetchFailed { cause }) ==> {
                &&& fetcher.ensures((), Err::<String, String>(cause))
                &&& admits(old(self).limiter().timestamps(), old(self).limiter().spec_limit(), tick)
                &&& durable_payload(old(self).store().entries(), *keys, secs_at(now)) is None
                &&& final(self).store() == old(self).store()
            },
            !(r is Err && r->Err_0 is DeserializeFailed),
    {
        let cached = fast.get(keys.redis_key.as_str());
        match self.lookup_json_at(keys, cached, now, tick) {
            Lookup::FastHit(v) => Ok(v),
            Lookup::DurableHit(p) => {
                let _ = fast.set(keys.redis_key.as_str(), p.as_str(), keys.redis_ttl_secs);
                Ok(p)
            },
            Lookup::RateLimited { limit } => Err(CacheError::RateLimitExceeded { limit }),
            Lookup::Fetch => {
                let fetched = fetcher();
                let r = self.complete_fetch_at(keys, fetched, Ok(()), now);
                if let Ok(v) = &r {
                    let _ = fast.set(keys.redis_key.as_str(), v.as_str(), keys.redis_ttl_secs);
                }
                r
            },
        }
    }

    /// Starts a forced refresh at `tick` on the limiter's clock: the cache
    /// tiers are skipped, and the remote call goes to the admission limiter. On
    /// `Ok`, fetch and hand the outcome to `complete_fetch_at`.
    pub fn refresh_at(&mut self, tick: i64) -> (r: Result<(), CacheError>)
        requires
            old(self).wf(),
        ensures
            final(self).wf(),
            final(self).store() == old(self).store(),
            final(self).counters() == old(self).counters(),
            final(self).hits() == old(self).hits(),
            final(self).limiter().spec_limit() == old(self).limiter().spec_limit(),
            final(self).limiter().timestamps() == after_call(
                old(self).limiter().timestamps(),
                old(self).limiter().spec_limit(),
                tick,
            ),
            r is Ok <==> admits(old(self).limiter().timestamps(), old(self).limiter().spec_limit(), tick),
            r is Err ==> r == Err::<(), CacheError>(
                CacheError::RateLimitExceeded { limit: old(self).limiter().spec_limit() },
            ),
    {
        if self.rate_limiter.check_and_record_at(tick) {
            Ok(())
        } else {
            Err(CacheError::RateLimitExceeded { limit: self.rate_limiter.limit() })
        }
    }

    /// Removes the durable entry under `(category, key)`. The fast store has no
    /// delete: its copy lives on until its own lifetime ends.
    pub fn invalidate(&mut self, category: &str, key: &str)
        requires
            old(self).wf(),
        ensures
            final(self).wf(),
            final(self).store().entries() == without(old(self).store().entries(), category@, key@),
            final(self).store().base() == old(self).store().base(),
            final(self).limiter() == old(self).limiter(),
            final(self).counters() == old(self).counters(),
            final(self).hits() == old(self).hits(),
    {
        self.parquet.delete(category, key)
    }

    /// Sweeps category `category` of the durable store at `now` (milliseconds
    /// since the epoch), removing the entries not valid for `max_age_secs`;
    /// returns how many went.
    pub fn cleanup_expired_at(&mut self, category: &str, max_age_secs: u64, now: i64) -> (r: usize)
        requires
            old(self).wf(),
        ensures
            final(self).wf(),
            final(self).store().entries() == sweep(old(self).store().entries(), category@, secs_at(now), max_age_secs),
            final(self).store().base() == old(self).store().base(),
            r as int + final(self).store().entries().len() == old(self).store().entries().len(),
            final(self).limiter() == old(self).limiter(),
            final(self).counters() == old(self).counters(),
            final(self).hits() == old(self).hits(),
    {
        let secs: i64 = if now < 0 {
            0
        } else {
            millis_to_secs(now)
        };
        self.parquet.cleanup_expired_at(category, max_age_secs, secs)
    }

    /// The durable store's statistics with the lookup counters merged in: each
    /// known category carries its counts, and each other category with lookups
    /// gets a row of its own after them.
    pub fn get_stats(&self) -> (r: CacheStats)
        requires
            self.wf(),
        ensures
            r.categories@.len() == known_categories().len() + unknown_active(
                self.counters().counters(),
            ).len(),
            forall|i: int, j: int|
                0 <= i < r.categories@.len() && 0 <= j < r.categories@.len() && i != j
                    ==> #[trigger] r.categories@[i].0@ != #[trigger] r.categories@[j].0@,
            forall|i: int|
                0 <= i < known_categories().len() ==> {
                    let row = #[trigger] r.categories@[i];
                    let c = known_categories()[i];
                    &&& row.0@ == c
                    &&& row.1.keys == crate::parquet_store::keys_in(self.store().entries(), c).len()
                    &&& row.1.size_bytes == crate::parquet_store::bytes_in(self.store().entries(), c)
                    &&& row.1.description@ == crate::parquet_store::description_of(c)
                    &&& (row.1.hits, row.1.misses, row.1.requests) == self.counters().counts(c)
                },
            forall|j: int|
                0 <= j < unknown_active(self.counters().counters()).len() ==> activity_row(
                    #[trigger] r.categories@[known_categories().len() + j],
                    unknown_active(self.counters().counters())[j],
                ),
            r.total_keys == crate::parquet_store::keys_over(self.store().entries(), known_categories()),
            r.total_size_bytes == crate::parquet_store::bytes_over(self.store().entries(), known_categories()),
            r.categories_count == known_categories().len(),
            r.base_path@ == self.store().base(),
            r.cache_hits == self.hits(),
    {
        let base = self.parquet.get_stats();
        let CacheStats { total_keys, total_size_bytes, categories_count, base_path, categories, cache_hits: _ } = base;
        let mut rows: Vec<(String, CategoryStats)> = Vec::new();
        let mut i: usize = 0;
        while i < categories.len()
            invariant
                categories@.len() == known_categories().len(),
                forall|j: int|
                    0 <= j < known_categories().len() ==> footprint_row(
                        #[trigger] categories@[j],
                        self.store().entries(),
                        known_categories()[j],
                    ),
                i <= categories@.len(),
                rows@.len() == i,
                forall|j: int|
                    0 <= j < i ==> {
                        let row = #[trigger] rows@[j];
                        let c = known_categories()[j];
                        &&& row.0@ == c
                        &&& row.1.keys == crate::parquet_store::keys_in(self.store().entries(), c).len()
                        &&& row.1.size_bytes == crate::parquet_store::bytes_in(self.store().entries(), c)
                        &&& row.1.description@ == crate::parquet_store::description_of(c)
                        &&& (row.1.hits, row.1.misses, row.1.requests) == self.counters().counts(c)
                    },
            decreases categories@.len() - i,
        {
            let (name, st) = &categories[i];
            assert(footprint_row(categories@[i as int], self.store().entries(), known_categories()[i as int]));
            let (hits, misses, requests) = self.category_stats.counts_of(name.as_str());
            rows.push(
                (
                    name.clone(),
                    CategoryStats {
                        keys: st.keys,
                        size_bytes: st.size_bytes,
                        description: st.description.clone(),
                        hits,
                        misses,
                        requests,
                    },
                ),
            );
            i = i + 1;
        }
        let ghost s = self.category_stats.counters();
        let n = self.category_stats.len();
        let mut k: usize = 0;
        assert(s.take(0) =~= Seq::<CategoryCounter>::empty());
        while k < n
            invariant
                n == s.len(),
                s == self.counters().counters(),
                k <= n,
                rows@.len() == known_categories().len() + unknown_active(s.take(k as int)).len(),
                forall|j: int|
                    0 <= j < known_categories().len() ==> {
                        let row = #[trigger] rows@[j];
                        let c = known_categories()[j];
                        &&& row.0@ == c
                        &&& row.1.keys == crate::parquet_store::keys_in(self.store().entries(), c).len()
                        &&& row.1.size_bytes == crate::parquet_store::bytes_in(self.store().entries(), c)
                        &&& row.1.description@ == crate::parquet_store::description_of(c)
                        &&& (row.1.hits, row.1.misses, row.1.requests) == self.counters().counts(c)
                    },
                forall|j: int|
                    0 <= j < unknown_active(s.take(k as int)).len() ==> activity_row(
                        #[trigger] rows@[known_categories().len() + j],
                        unknown_active(s.take(k as int))[j],
                    ),
            decreases n - k,
        {
            let x = self.category_stats.get(k);
            assert(s.take(k as int + 1).drop_last() == s.take(k as int));
            assert(s.take(k as int + 1).last() == s[k as int]);
            if !is_known_category(x.category.as_str()) && x.requests > 0 {
                let mut description = x.category.clone();
                description.append(" (cache activity)");
                rows.push(
                    (
                        x.category.clone(),
                        CategoryStats {
                            keys: 0,
                            size_bytes: 0,
                            description,
                            hits: x.hits,
                            misses: x.misses,
                            requests: x.requests,
                        },
                    ),
                );
            }
            k = k + 1;
        }
        assert(s.take(n as int) == s);
        proof {
            crate::parquet_store::lemma_known_distinct();
            lemma_unknown_active_from(s);
            lemma_unknown_active_distinct(s);
            let kn = known_categories().len();
            let u = unknown_active(s);
            assert forall|a: int, b: int|
                0 <= a < rows@.len() && 0 <= b < rows@.len() && a != b
                    implies #[trigger] rows@[a].0@ != #[trigger] rows@[b].0@ by {
                if a >= kn {
                    assert(activity_row(rows@[kn + (a - kn)], u[a - kn]));
                }
                if b >= kn {
                    assert(activity_row(rows@[kn + (b - kn)], u[b - kn]));
                }
                if a < kn && b >= kn {
                    assert(known_categories().contains(known_categories()[a]));
                }
                if b < kn && a >= kn {
                    assert(known_categories().contains(known_categories()[b]));
                }
            }
        }
        CacheStats {
            total_keys,
            total_size_bytes,
            categories_count,
            base_path,
            categories: rows,
            cache_hits: self.cache_hits,
        }
    }
}

} // verus!
