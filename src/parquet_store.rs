//! The durable store: category-partitioned entries, each a serialized payload
//! and a metadata record that says when it was cached.
//!
//! The store keeps the entries of its base directory as values; the program
//! around the library writes each change through to disk and hands back what it
//! found there at start-up (`restore`).
use vstd::prelude::*;

use crate::clock::{millis_to_secs, now_millis};
use crate::text::same_text;

verus! {

/// Category of token information (supply, market cap).
pub const TOKEN_INFO: &'static str = "tokens";

/// Category of trade statistics.
pub const TRADE_STATS: &'static str = "trade_stats";

/// Category of floor prices.
pub const FLOOR_PRICES: &'static str = "floor_prices";

/// Category of historical (OHLCV) data.
pub const HISTORICAL: &'static str = "historical";

/// Category of market orders.
pub const ORDERS: &'static str = "orders";

/// Category of trending mints.
pub const HOT_MINTS: &'static str = "hot_mints";

/// Category of token images.
pub const LOGOS: &'static str = "logos";

/// Category of NFT collections and their metadata.
pub const KRC721: &'static str = "krc721";

/// Category of the name service.
pub const KNS: &'static str = "kns";

/// Where cached data comes from, as written into each metadata record.
pub const DATA_SOURCE: &'static str = "api.kaspa.com";

/// The categories known at start-up, in the order statistics list them.
pub open spec fn known_categories() -> Seq<Seq<char>> {
    seq![
        TOKEN_INFO@,
        TRADE_STATS@,
        FLOOR_PRICES@,
        HISTORICAL@,
        ORDERS@,
        HOT_MINTS@,
        LOGOS@,
        KRC721@,
        KNS@,
    ]
}

/// The known categories are distinct.
pub proof fn lemma_known_distinct()
    ensures
        forall|i: int, j: int|
            0 <= i < known_categories().len() && 0 <= j < known_categories().len() && i != j
                ==> #[trigger] known_categories()[i] != #[trigger] known_categories()[j],
{
    reveal_strlit("tokens");
    reveal_strlit("trade_stats");
    reveal_strlit("floor_prices");
    reveal_strlit("historical");
    reveal_strlit("orders");
    reveal_strlit("hot_mints");
    reveal_strlit("logos");
    reveal_strlit("krc721");
    reveal_strlit("kns");
    let k = known_categories();
    assert forall|i: int, j: int| 0 <= i < k.len() && 0 <= j < k.len() && i != j implies k[i] != k[j] by {
        if k[i] == k[j] {
            assert(k[i][0] == k[j][0]);
            assert(k[i].len() == k[j].len());
            if k[i].len() > 1 {
                assert(k[i][1] == k[j][1]);
            }
            if k[i].len() > 2 {
                assert(k[i][2] == k[j][2]);
            }
        }
    }
}

/// The categories known at start-up, in the order statistics list them.
pub fn category_names() -> (r: Vec<&'static str>)
    ensures
        r@.len() == known_categories().len(),
        forall|i: int| 0 <= i < r@.len() ==> #[trigger] r@[i]@ == known_categories()[i],
{
    let r = vec![TOKEN_INFO, TRADE_STATS, FLOOR_PRICES, HISTORICAL, ORDERS, HOT_MINTS, LOGOS, KRC721, KNS];
    assert(r@.len() == 9);
    r
}

/// Whether `c` is one of the categories known at start-up.
pub fn is_known_category(c: &str) -> (r: bool)
    ensures
        r == known_categories().contains(c@),
{
    let names = category_names();
    let mut i: usize = 0;
    while i < names.len()
        invariant
            names@.len() == known_categories().len(),
            forall|j: int| 0 <= j < names@.len() ==> #[trigger] names@[j]@ == known_categories()[j],
            i <= names@.len(),
            forall|j: int| 0 <= j < i ==> known_categories()[j] != c@,
        decreases names@.len() - i,
    {
        if same_text(names[i], c) {
            assert(known_categories()[i as int] == c@);
            return true;
        }
        i = i + 1;
    }
    false
}

/// The human-readable description of a category.
pub open spec fn description_of(c: Seq<char>) -> Seq<char> {
    if c == TOKEN_INFO@ {
        "Token Information (Supply, Market Cap)"@
    } else if c == TRADE_STATS@ {
        "Trade Statistics (Volume, High/Low)"@
    } else if c == FLOOR_PRICES@ {
        "Floor Prices"@
    } else if c == HISTORICAL@ {
        "Historical Data (OHLCV)"@
    } else if c == ORDERS@ {
        "Market Orders"@
    } else if c == HOT_MINTS@ {
        "Trending Mints"@
    } else if c == LOGOS@ {
        "Token Images"@
    } else if c == KRC721@ {
        "NFT Collections & Metadata"@
    } else if c == KNS@ {
        "Kaspa Name Service"@
    } else {
        "Unknown Category"@
    }
}

/// When an entry was cached, where it came from, and for how long it was meant to live.
#[derive(Debug, Clone)]
pub struct CacheMetadata {
    /// Seconds since the Unix epoch at which the entry was cached.
    pub cached_at: i64,
    pub source: String,
    pub ttl_seconds: u64,
}

impl CacheMetadata {
    /// Metadata of an entry cached at `now` (seconds since the epoch).
    pub fn new_at(ttl_seconds: u64, now: i64) -> (r: Self)
        ensures
            r.cached_at == now,
            r.source@ == DATA_SOURCE@,
            r.ttl_seconds == ttl_seconds,
    {
        CacheMetadata { cached_at: now, source: DATA_SOURCE.to_owned(), ttl_seconds }
    }

    /// Metadata of an entry cached now, by the wall clock.
    pub fn new(ttl_seconds: u64) -> (r: Self)
        ensures
            r.source@ == DATA_SOURCE@,
            r.ttl_seconds == ttl_seconds,
    {
        let ms = now_millis();
        let now = if ms < 0 {
            0
        } else {
            millis_to_secs(ms)
        };
        Self::new_at(ttl_seconds, now)
    }

    /// Whether at least `ttl_seconds` have passed between caching and `now`:
    /// the entry is no longer valid for its own lifetime.
    pub open spec fn expired_at(&self, now: i64) -> bool {
        (now as int) - (self.cached_at as int) >= self.ttl_seconds as int
    }

    /// Whether at least `ttl_seconds` have passed between caching and `now`.
    pub fn is_expired_at(&self, now: i64) -> (r: bool)
        ensures
            r == self.expired_at(now),
    {
        (now as i128) - (self.cached_at as i128) >= self.ttl_seconds as i128
    }

    /// `is_expired_at` by the wall clock.
    pub fn is_expired(&self) -> (r: bool)
        ensures
            exists|now: i64| r == self.expired_at(now),
    {
        let now = now_secs();
        self.is_expired_at(now)
    }
}

/// One cached entry as it stands in the store; either record may be missing
/// when it was restored from a partly written directory.
#[derive(Debug)]
pub struct StoredEntry {
    pub category: String,
    pub key: String,
    /// The serialized payload, if its record exists.
    pub payload: Option<String>,
    /// The metadata record, if it exists and could be read.
    pub metadata: Option<CacheMetadata>,
    /// Size of the payload record in bytes.
    pub size_bytes: u64,
}

/// Whether an entry is the one stored under `(c, k)`.
pub open spec fn names(e: StoredEntry, c: Seq<char>, k: Seq<char>) -> bool {
    e.category@ == c && e.key@ == k
}

/// The last entry stored under `(c, k)`, if any.
pub open spec fn find(s: Seq<StoredEntry>, c: Seq<char>, k: Seq<char>) -> Option<StoredEntry>
    decreases s.len(),
{
    if s.len() == 0 {
        None
    } else if names(s.last(), c, k) {
        Some(s.last())
    } else {
        find(s.drop_last(), c, k)
    }
}

/// How many entries are stored under `(c, k)`.
pub open spec fn count_named(s: Seq<StoredEntry>, c: Seq<char>, k: Seq<char>) -> nat
    decreases s.len(),
{
    if s.len() == 0 {
        0
    } else {
        count_named(s.drop_last(), c, k) + if names(s.last(), c, k) {
            1nat
        } else {
            0nat
        }
    }
}

/// No two entries are stored under the same `(category, key)`.
pub open spec fn distinct_names(s: Seq<StoredEntry>) -> bool {
    forall|c: Seq<char>, k: Seq<char>| #[trigger] count_named(s, c, k) <= 1
}

/// The entries, in order, less those stored under `(c, k)`.
pub open spec fn without(s: Seq<StoredEntry>, c: Seq<char>, k: Seq<char>) -> Seq<StoredEntry>
    decreases s.len(),
{
    if s.len() == 0 {
        s
    } else if names(s.last(), c, k) {
        without(s.drop_last(), c, k)
    } else {
        without(s.drop_last(), c, k).push(s.last())
    }
}

/// Whether `e` is the entry that a write of `payload` under `(c, k)` at `now`
/// with lifetime `ttl` stores.
pub open spec fn written(e: StoredEntry, c: Seq<char>, k: Seq<char>, payload: String, now: i64, ttl: u64) -> bool {
    &&& e.category@ == c
    &&& e.key@ == k
    &&& e.payload == Some(payload)
    &&& e.metadata matches Some(m) && m.cached_at == now && m.ttl_seconds == ttl && m.source@ == DATA_SOURCE@
}

/// An entry is valid at `now` when both records exist and fewer than `max_age`
/// seconds have passed since it was cached.
pub open spec fn entry_valid(e: StoredEntry, now: i64, max_age: u64) -> bool {
    match e.metadata {
        Some(m) => e.payload is Some && (now as int) - (m.cached_at as int) < max_age as int,
        None => false,
    }
}

/// Whether `find` gives a valid entry.
pub open spec fn valid_in(s: Seq<StoredEntry>, c: Seq<char>, k: Seq<char>, now: i64, max_age: u64) -> bool {
    match find(s, c, k) {
        Some(e) => entry_valid(e, now, max_age),
        None => false,
    }
}

/// Whether an entry is listed under category `c` (its payload record exists).
pub open spec fn listed(e: StoredEntry, c: Seq<char>) -> bool {
    e.category@ == c && e.payload is Some
}

/// The keys listed under category `c`, in order.
pub open spec fn keys_in(s: Seq<StoredEntry>, c: Seq<char>) -> Seq<Seq<char>>
    decreases s.len(),
{
    if s.len() == 0 {
        Seq::empty()
    } else if listed(s.last(), c) {
        keys_in(s.drop_last(), c).push(s.last().key@)
    } else {
        keys_in(s.drop_last(), c)
    }
}

/// `a + b`, or `u64::MAX` where that does not fit.
pub open spec fn sat_add(a: u64, b: u64) -> u64 {
    if a as int + b as int > u64::MAX as int {
        u64::MAX
    } else {
        (a + b) as u64
    }
}

/// Total size of the entries listed under `c`, saturating at `u64::MAX`.
pub open spec fn bytes_in(s: Seq<StoredEntry>, c: Seq<char>) -> u64
    decreases s.len(),
{
    if s.len() == 0 {
        0
    } else if listed(s.last(), c) {
        sat_add(bytes_in(s.drop_last(), c), s.last().size_bytes)
    } else {
        bytes_in(s.drop_last(), c)
    }
}

/// Whether a sweep of category `c` at `now` removes the entry: it is listed
/// there and not valid.
pub open spec fn swept(e: StoredEntry, c: Seq<char>, now: i64, max_age: u64) -> bool {
    listed(e, c) && !entry_valid(e, now, max_age)
}

/// The entries, in order, that a sweep of `c` keeps.
pub open spec fn sweep(s: Seq<StoredEntry>, c: Seq<char>, now: i64, max_age: u64) -> Seq<StoredEntry>
    decreases s.len(),
{
    if s.len() == 0 {
        s
    } else if swept(s.last(), c, now, max_age) {
        sweep(s.drop_last(), c, now, max_age)
    } else {
        sweep(s.drop_last(), c, now, max_age).push(s.last())
    }
}

/// `a + b`, or `usize::MAX` where that does not fit.
pub open spec fn sat_add_usize(a: usize, b: usize) -> usize {
    if a as int + b as int > usize::MAX as int {
        usize::MAX
    } else {
        (a + b) as usize
    }
}

/// Keys listed over the categories `cats`, saturating at `usize::MAX`.
pub open spec fn keys_over(s: Seq<StoredEntry>, cats: Seq<Seq<char>>) -> usize
    decreases cats.len(),
{
    if cats.len() == 0 {
        0
    } else {
        sat_add_usize(keys_over(s, cats.drop_last()), keys_in(s, cats.last()).len() as usize)
    }
}

/// Payload bytes over the categories `cats`, saturating at `u64::MAX`.
pub open spec fn bytes_over(s: Seq<StoredEntry>, cats: Seq<Seq<char>>) -> u64
    decreases cats.len(),
{
    if cats.len() == 0 {
        0
    } else {
        sat_add(bytes_over(s, cats.drop_last()), bytes_in(s, cats.last()))
    }
}

/// Whether `row` gives the footprint of category `c` in `s`, with no lookups counted.
pub open spec fn footprint_row(row: (String, CategoryStats), s: Seq<StoredEntry>, c: Seq<char>) -> bool {
    &&& row.0@ == c
    &&& row.1.keys == keys_in(s, c).len()
    &&& row.1.size_bytes == bytes_in(s, c)
    &&& row.1.description@ == description_of(c)
    &&& row.1.hits == 0
    &&& row.1.misses == 0
    &&& row.1.requests == 0
}

/// Counters and footprint of one category.
#[derive(Debug, Clone)]
pub struct CategoryStats {
    pub keys: usize,
    pub size_bytes: u64,
    pub description: String,
    /// Lookups in this category answered from a cache tier.
    pub hits: u64,
    /// Lookups in this category that reached the remote source.
    pub misses: u64,
    /// All lookups in this category.
    pub requests: u64,
}

/// Footprint of the durable store, with the lookup counters merged in by the orchestrator.
#[derive(Debug)]
pub struct CacheStats {
    pub total_keys: usize,
    pub total_size_bytes: u64,
    pub categories_count: usize,
    pub base_path: String,
    /// Per category, by name; names are unique.
    pub categories: Vec<(String, CategoryStats)>,
    /// Lookups answered from a cache tier, over all categories.
    pub cache_hits: u64,
}

/// The durable, category-partitioned store.
#[derive(Debug)]
pub struct ParquetStore {
    base_path: String,
    entries: Vec<StoredEntry>,
}

impl ParquetStore {
    /// The directory the store lives in.
    pub closed spec fn base(&self) -> Seq<char> {
        self.base_path@
    }

    /// The stored entries, in order of their last write.
    pub closed spec fn entries(&self) -> Seq<StoredEntry> {
        self.entries@
    }

    /// No two entries share a `(category, key)`.
    pub open spec fn wf(&self) -> bool {
        distinct_names(self.entries())
    }

    /// The entry stored under `(c, k)`, if any.
    pub open spec fn lookup(&self, c: Seq<char>, k: Seq<char>) -> Option<StoredEntry> {
        find(self.entries(), c, k)
    }

    /// An empty store over the directory `base_path`.
    pub fn new(base_path: &str) -> (r: Self)
        ensures
            r.wf(),
            r.base() == base_path@,
            r.entries() == Seq::<StoredEntry>::empty(),
    {
        ParquetStore { base_path: base_path.to_owned(), entries: Vec::new() }
    }

    /// The directory the store lives in.
    pub fn base_path(&self) -> (r: &str)
        ensures
            r@ == self.base(),
    {
        self.base_path.as_str()
    }

    /// Path of the payload record of `(category, key)`.
    pub fn parquet_path(&self, category: &str, key: &str) -> (r: String)
        ensures
            r@ == self.base() + "/"@ + category@ + "/"@ + key@ + ".parquet"@,
    {
        let mut p = self.base_path.clone();
        p.append("/");
        p.append(category);
        p.append("/");
        p.append(key);
        p.append(".parquet");
        p
    }

    /// Path of the metadata record of `(category, key)`.
    pub fn metadata_path(&self, category: &str, key: &str) -> (r: String)
        ensures
            r@ == self.base() + "/"@ + category@ + "/"@ + key@ + ".meta.json"@,
    {
        let mut p = self.base_path.clone();
        p.append("/");
        p.append(category);
        p.append("/");
        p.append(key);
        p.append(".meta.json");
        p
    }

    /// Path of the directory of `category`.
    pub fn category_path(&self, category: &str) -> (r: String)
        ensures
            r@ == self.base() + "/"@ + category@,
    {
        let mut p = self.base_path.clone();
        p.append("/");
        p.append(category);
        p
    }

    /// Position of the last entry stored under `(c, k)`.
    fn position(&self, c: &str, k: &str) -> (r: Option<usize>)
        ensures
            match r {
                Some(i) => i < self.entries().len() && names(self.entries()[i as int], c@, k@)
                    && find(self.entries(), c@, k@) == Some(self.entries()[i as int]),
                None => find(self.entries(), c@, k@) is None,
            },
    {
        let mut i: usize = self.entries.len();
        assert(self.entries@.take(i as int) == self.entries@);
        while i > 0
            invariant
                i <= self.entries@.len(),
                find(self.entries@, c@, k@) == find(self.entries@.take(i as int), c@, k@),
            decreases i,
        {
            let e = &self.entries[i - 1];
            assert(self.entries@.take(i as int).drop_last() == self.entries@.take(i - 1));
            if same_text(e.category.as_str(), c) && same_text(e.key.as_str(), k) {
                return Some(i - 1);
            }
            i = i - 1;
        }
        None
    }

    /// Whether the entry under `(category, key)` has both records and was cached
    /// fewer than `max_age_secs` seconds before `now` (seconds since the epoch).
    /// A missing record, or a metadata record that could not be read, gives `false`.
    pub fn is_valid_at(&self, category: &str, key: &str, max_age_secs: u64, now: i64) -> (r: bool)
        ensures
            r == valid_in(self.entries(), category@, key@, now, max_age_secs),
    {
        match self.position(category, key) {
            Some(i) => {
                let e = &self.entries[i];
                match &e.metadata {
                    Some(m) => e.payload.is_some() && (now as i128) - (m.cached_at as i128)
                        < max_age_secs as i128,
                    None => false,
                }
            },
            None => false,
        }
    }

    /// `is_valid_at` by the wall clock.
    pub fn is_valid(&self, category: &str, key: &str, max_age_secs: u64) -> (r: bool)
        ensures
            r ==> self.lookup(category@, key@) is Some,
            exists|now: i64| r == valid_in(self.entries(), category@, key@, now, max_age_secs),
    {
        let now = now_secs();
        self.is_valid_at(category, key, max_age_secs, now)
    }

    /// The entry stored under `(category, key)`, both records as they stand.
    pub fn get_entry(&self, category: &str, key: &str) -> (r: Option<&StoredEntry>)
        ensures
            match r {
                Some(e) => self.lookup(category@, key@) == Some(*e),
                None => self.lookup(category@, key@) is None,
            },
    {
        match self.position(category, key) {
            Some(i) => Some(&self.entries[i]),
            None => None,
        }
    }

    /// The payload stored under `(category, key)`; `None` when there is no such
    /// entry or its payload record is missing. Staleness is not judged here.
    pub fn read(&self, category: &str, key: &str) -> (r: Option<String>)
        ensures
            r == match self.lookup(category@, key@) {
                Some(e) => e.payload,
                None => None,
            },
    {
        match self.position(category, key) {
            Some(i) => match &self.entries[i].payload {
                Some(p) => Some(p.clone()),
                None => None,
            },
            None => None,
        }
    }

    /// Removes every entry stored under `(c, k)`, keeping the order of the rest.
    fn remove_entries(&mut self, c: &str, k: &str)
        ensures
            final(self).base() == old(self).base(),
            final(self).entries() == without(old(self).entries(), c@, k@),
    {
        let ghost orig = self.entries@;
        let mut rest: Vec<StoredEntry> = Vec::new();
        std::mem::swap(&mut rest, &mut self.entries);
        let mut kept: Vec<StoredEntry> = Vec::new();
        let ghost n: int = 0;
        while rest.len() > 0
            invariant
                0 <= n <= orig.len(),
                rest@ == orig.subrange(n, orig.len() as int),
                kept@ == without(orig.take(n), c@, k@),
            decreases rest@.len(),
        {
            let e = rest.remove(0);
            proof {
                assert(e == orig[n]);
                assert(orig.take(n + 1).drop_last() == orig.take(n));
                assert(orig.take(n + 1).last() == orig[n]);
                assert(rest@ =~= orig.subrange(n + 1, orig.len() as int));
                n = n + 1;
            }
            if !(same_text(e.category.as_str(), c) && same_text(e.key.as_str(), k)) {
                kept.push(e);
            }
        }
        assert(orig.take(n) == orig);
        self.entries = kept;
    }

    /// Stores `payload` under `(category, key)`, cached at `now` (seconds since
    /// the epoch) for `ttl_seconds`, replacing what was there.
    pub fn write_simple_at(&mut self, category: &str, key: &str, payload: String, ttl_seconds: u64, now: i64)
        requires
            old(self).wf(),
        ensures
            final(self).wf(),
            final(self).base() == old(self).base(),
            final(self).entries() == without(old(self).entries(), category@, key@).push(
                final(self).entries().last(),
            ),
            written(final(self).entries().last(), category@, key@, payload, now, ttl_seconds),
    {
        let size = payload.as_str().len() as u64;
        let meta = CacheMetadata::new_at(ttl_seconds, now);
        self.remove_entries(category, key);
        self.entries.push(
            StoredEntry {
                category: category.to_owned(),
                key: key.to_owned(),
                payload: Some(payload),
                metadata: Some(meta),
                size_bytes: size,
            },
        );
        proof {
            lemma_replace_keeps_distinct(old(self).entries(), self.entries@.last());
        }
    }

    /// `write_simple_at` by the wall clock.
    pub fn write_simple(&mut self, category: &str, key: &str, payload: String, ttl_seconds: u64)
        requires
            old(self).wf(),
        ensures
            final(self).wf(),
            final(self).base() == old(self).base(),
            final(self).entries() == without(old(self).entries(), category@, key@).push(
                final(self).entries().last(),
            ),
            exists|now: i64| written(final(self).entries().last(), category@, key@, payload, now, ttl_seconds),
    {
        let now = now_secs();
        self.write_simple_at(category, key, payload, ttl_seconds, now)
    }

    /// Puts back an entry found on disk, replacing what was stored under its name.
    pub fn restore(&mut self, entry: StoredEntry)
        requires
            old(self).wf(),
        ensures
            final(self).wf(),
            final(self).base() == old(self).base(),
            final(self).entries() == without(old(self).entries(), entry.category@, entry.key@).push(entry),
    {
        let c = entry.category.clone();
        let k = entry.key.clone();
        self.remove_entries(c.as_str(), k.as_str());
        self.entries.push(entry);
        proof {
            lemma_replace_keeps_distinct(old(self).entries(), entry);
        }
    }

    /// Removes the entry under `(category, key)`, both records; removing an
    /// absent entry does nothing.
    pub fn delete(&mut self, category: &str, key: &str)
        requires
            old(self).wf(),
        ensures
            final(self).wf(),
            final(self).base() == old(self).base(),
            final(self).entries() == without(old(self).entries(), category@, key@),
    {
        self.remove_entries(category, key);
        proof {
            assert forall|c: Seq<char>, k: Seq<char>| #[trigger] count_named(self.entries@, c, k) <= 1 by {
                lemma_count_without(old(self).entries(), category@, key@, c, k);
                assert(count_named(old(self).entries(), c, k) <= 1);
            }
        }
    }

    /// The keys listed under `category`, in order of their last write.
    pub fn list_keys(&self, category: &str) -> (r: Vec<String>)
        requires
            self.wf(),
        ensures
            r@.map_values(|s: String| s@) == keys_in(self.entries(), category@),
            keys_in(self.entries(), category@).no_duplicates(),
    {
        proof {
            lemma_keys_distinct(self.entries@, category@);
        }
        let mut r: Vec<String> = Vec::new();
        let mut i: usize = 0;
        while i < self.entries.len()
            invariant
                i <= self.entries@.len(),
                r@.map_values(|s: String| s@) == keys_in(self.entries@.take(i as int), category@),
            decreases self.entries@.len() - i,
        {
            let e = &self.entries[i];
            assert(self.entries@.take(i as int + 1).drop_last() == self.entries@.take(i as int));
            if same_text(e.category.as_str(), category) && e.payload.is_some() {
                r.push(e.key.clone());
                assert(r@.map_values(|s: String| s@) =~= keys_in(self.entries@.take(i as int), category@).push(e.key@));
            }
            i = i + 1;
        }
        assert(self.entries@.take(i as int) == self.entries@);
        r
    }

    /// Number of keys and total payload size listed under `category`.
    pub fn footprint(&self, category: &str) -> (r: (usize, u64))
        ensures
            r.0 == keys_in(self.entries(), category@).len(),
            r.1 == bytes_in(self.entries(), category@),
    {
        let mut n: usize = 0;
        let mut bytes: u64 = 0;
        let mut i: usize = 0;
        while i < self.entries.len()
            invariant
                i <= self.entries@.len(),
                n == keys_in(self.entries@.take(i as int), category@).len(),
                bytes == bytes_in(self.entries@.take(i as int), category@),
                n <= i,
            decreases self.entries@.len() - i,
        {
            let e = &self.entries[i];
            assert(self.entries@.take(i as int + 1).drop_last() == self.entries@.take(i as int));
            if same_text(e.category.as_str(), category) && e.payload.is_some() {
                n = n + 1;
                bytes = if bytes > u64::MAX - e.size_bytes {
                    u64::MAX
                } else {
                    bytes + e.size_bytes
                };
            }
            i = i + 1;
        }
        assert(self.entries@.take(i as int) == self.entries@);
        (n, bytes)
    }

    /// Removes the entries listed under `category` that are not valid at `now`
    /// (seconds since the epoch) for `max_age_secs`; returns how many went.
    pub fn cleanup_expired_at(&mut self, category: &str, max_age_secs: u64, now: i64) -> (r: usize)
        requires
            old(self).wf(),
        ensures
            final(self).wf(),
            final(self).base() == old(self).base(),
            final(self).entries() == sweep(old(self).entries(), category@, now, max_age_secs),
            r as int + final(self).entries().len() == old(self).entries().len(),
    {
        let ghost orig = self.entries@;
        let mut rest: Vec<StoredEntry> = Vec::new();
        std::mem::swap(&mut rest, &mut self.entries);
        let mut kept: Vec<StoredEntry> = Vec::new();
        let mut deleted: usize = 0;
        let total = rest.len();
        let ghost n: int = 0;
        while rest.len() > 0
            invariant
                0 <= n <= orig.len(),
                orig.len() == total,
                rest@ == orig.subrange(n, orig.len() as int),
                kept@ == sweep(orig.take(n), category@, now, max_age_secs),
                deleted + kept@.len() == n,
            decreases rest@.len(),
        {
            let e = rest.remove(0);
            proof {
                assert(e == orig[n]);
                assert(orig.take(n + 1).drop_last() == orig.take(n));
                assert(orig.take(n + 1).last() == orig[n]);
                assert(rest@ =~= orig.subrange(n + 1, orig.len() as int));
                n = n + 1;
            }
            let valid = match &e.metadata {
                Some(m) => e.payload.is_some() && (now as i128) - (m.cached_at as i128)
                    < max_age_secs as i128,
                None => false,
            };
            if same_text(e.category.as_str(), category) && e.payload.is_some() && !valid {
                deleted = deleted + 1;
            } else {
                kept.push(e);
            }
        }
        assert(orig.take(n) == orig);
        self.entries = kept;
        proof {
            assert forall|c: Seq<char>, k: Seq<char>| #[trigger] count_named(self.entries@, c, k) <= 1 by {
                lemma_count_sweep(orig, category@, now, max_age_secs, c, k);
                assert(count_named(orig, c, k) <= 1);
            }
        }
        deleted
    }

    /// `cleanup_expired_at` by the wall clock.
    pub fn cleanup_expired(&mut self, category: &str, max_age_secs: u64) -> (r: usize)
        requires
            old(self).wf(),
        ensures
            final(self).wf(),
            final(self).base() == old(self).base(),
            exists|now: i64| final(self).entries() == sweep(old(self).entries(), category@, now, max_age_secs),
            r as int + final(self).entries().len() == old(self).entries().len(),
    {
        let now = now_secs();
        self.cleanup_expired_at(category, max_age_secs, now)
    }

    /// Footprint of every known category, in the order of `known_categories`,
    /// with totals over them; lookup counters are left at zero.
    pub fn get_stats(&self) -> (r: CacheStats)
        ensures
            r.categories@.len() == known_categories().len(),
            forall|i: int, j: int|
                0 <= i < r.categories@.len() && 0 <= j < r.categories@.len() && i != j
                    ==> #[trigger] r.categories@[i].0@ != #[trigger] r.categories@[j].0@,
            forall|i: int|
                0 <= i < known_categories().len() ==> footprint_row(
                    #[trigger] r.categories@[i],
                    self.entries(),
                    known_categories()[i],
                ),
            r.total_keys == keys_over(self.entries(), known_categories()),
            r.total_size_bytes == bytes_over(self.entries(), known_categories()),
            r.categories_count == known_categories().len(),
            r.base_path@ == self.base(),
            r.cache_hits == 0,
    {
        let names = category_names();
        let mut rows: Vec<(String, CategoryStats)> = Vec::new();
        let mut total_keys: usize = 0;
        let mut total_size: u64 = 0;
        let mut i: usize = 0;
        while i < names.len()
            invariant
                names@.len() == known_categories().len(),
                forall|j: int| 0 <= j < names@.len() ==> #[trigger] names@[j]@ == known_categories()[j],
                i <= names@.len(),
                rows@.len() == i,
                forall|j: int| 0 <= j < i ==> footprint_row(#[trigger] rows@[j], self.entries(), known_categories()[j]),
                total_keys == keys_over(self.entries(), known_categories().take(i as int)),
                total_size == bytes_over(self.entries(), known_categories().take(i as int)),
            decreases names@.len() - i,
        {
            let name = names[i];
            let (keys, bytes) = self.footprint(name);
            let description = self.get_category_description(name);
            assert(known_categories().take(i as int + 1).drop_last() == known_categories().take(i as int));
            total_keys = if total_keys > usize::MAX - keys {
                usize::MAX
            } else {
                total_keys + keys
            };
            total_size = if total_size > u64::MAX - bytes {
                u64::MAX
            } else {
                total_size + bytes
            };
            rows.push(
                (
                    name.to_owned(),
                    CategoryStats { keys, size_bytes: bytes, description, hits: 0, misses: 0, requests: 0 },
                ),
            );
            i = i + 1;
        }
        assert(known_categories().take(i as int) == known_categories());
        proof {
            lemma_known_distinct();
            assert forall|a: int, b: int|
                0 <= a < rows@.len() && 0 <= b < rows@.len() && a != b
                    implies #[trigger] rows@[a].0@ != #[trigger] rows@[b].0@ by {
                assert(footprint_row(rows@[a], self.entries(), known_categories()[a]));
                assert(footprint_row(rows@[b], self.entries(), known_categories()[b]));
            }
        }
        CacheStats {
            total_keys,
            total_size_bytes: total_size,
            categories_count: names.len(),
            base_path: self.base_path.clone(),
            categories: rows,
            cache_hits: 0,
        }
    }

    /// The description of `category`, as listed in statistics.
    pub fn get_category_description(&self, category: &str) -> (r: String)
        ensures
            r@ == description_of(category@),
    {
        let d: &str = if same_text(category, TOKEN_INFO) {
            "Token Information (Supply, Market Cap)"
        } else if same_text(category, TRADE_STATS) {
            "Trade Statistics (Volume, High/Low)"
        } else if same_text(category, FLOOR_PRICES) {
            "Floor Prices"
        } else if same_text(category, HISTORICAL) {
            "Historical Data (OHLCV)"
        } else if same_text(category, ORDERS) {
            "Market Orders"
        } else if same_text(category, HOT_MINTS) {
            "Trending Mints"
        } else if same_text(category, LOGOS) {
            "Token Images"
        } else if same_text(category, KRC721) {
            "NFT Collections & Metadata"
        } else if same_text(category, KNS) {
            "Kaspa Name Service"
        } else {
            "Unknown Category"
        };
        d.to_owned()
    }
}

/// Removing `(c, k)` leaves nothing under that name and every other name as it was.
pub proof fn lemma_find_without(s: Seq<StoredEntry>, c: Seq<char>, k: Seq<char>, c2: Seq<char>, k2: Seq<char>)
    ensures
        find(without(s, c, k), c2, k2) == if c2 == c && k2 == k {
            None
        } else {
            find(s, c2, k2)
        },
    decreases s.len(),
{
    if s.len() > 0 {
        lemma_find_without(s.drop_last(), c, k, c2, k2);
        if !names(s.last(), c, k) {
            assert(without(s, c, k).drop_last() == without(s.drop_last(), c, k));
        }
    }
}

/// Removing `(c, k)` leaves no entry under that name and the count of every
/// other name as it was.
pub proof fn lemma_count_without(s: Seq<StoredEntry>, c: Seq<char>, k: Seq<char>, c2: Seq<char>, k2: Seq<char>)
    ensures
        count_named(without(s, c, k), c2, k2) == if c2 == c && k2 == k {
            0
        } else {
            count_named(s, c2, k2)
        },
    decreases s.len(),
{
    if s.len() > 0 {
        lemma_count_without(s.drop_last(), c, k, c2, k2);
        if !names(s.last(), c, k) {
            assert(without(s, c, k).drop_last() == without(s.drop_last(), c, k));
        }
    }
}

/// A sweep keeps no more entries under any name than there were.
proof fn lemma_count_sweep(s: Seq<StoredEntry>, cat: Seq<char>, now: i64, max_age: u64, c: Seq<char>, k: Seq<char>)
    ensures
        count_named(sweep(s, cat, now, max_age), c, k) <= count_named(s, c, k),
    decreases s.len(),
{
    if s.len() > 0 {
        lemma_count_sweep(s.drop_last(), cat, now, max_age, c, k);
        if !swept(s.last(), cat, now, max_age) {
            assert(sweep(s, cat, now, max_age).drop_last() == sweep(s.drop_last(), cat, now, max_age));
        }
    }
}

/// Replacing what is stored under an entry's name by that entry keeps names distinct.
proof fn lemma_replace_keeps_distinct(s: Seq<StoredEntry>, e: StoredEntry)
    requires
        distinct_names(s),
    ensures
        distinct_names(without(s, e.category@, e.key@).push(e)),
{
    let w = without(s, e.category@, e.key@);
    assert forall|c: Seq<char>, k: Seq<char>| #[trigger] count_named(w.push(e), c, k) <= 1 by {
        assert(w.push(e).drop_last() == w);
        lemma_count_without(s, e.category@, e.key@, c, k);
        assert(count_named(s, c, k) <= 1);
    }
}

/// A key listed under `c` has an entry under `(c, k)`.
proof fn lemma_listed_counted(s: Seq<StoredEntry>, c: Seq<char>, k: Seq<char>)
    requires
        keys_in(s, c).contains(k),
    ensures
        count_named(s, c, k) >= 1,
    decreases s.len(),
{
    if s.len() > 0 {
        if listed(s.last(), c) {
            if keys_in(s.drop_last(), c).contains(k) {
                lemma_listed_counted(s.drop_last(), c, k);
            } else {
                let i = choose|i: int| 0 <= i < keys_in(s, c).len() && keys_in(s, c)[i] == k;
                assert(i == keys_in(s, c).len() - 1);
            }
        } else {
            lemma_listed_counted(s.drop_last(), c, k);
        }
    }
}

/// With distinct names, no key is listed twice under a category.
proof fn lemma_keys_distinct(s: Seq<StoredEntry>, c: Seq<char>)
    requires
        distinct_names(s),
    ensures
        keys_in(s, c).no_duplicates(),
    decreases s.len(),
{
    if s.len() > 0 {
        let d = s.drop_last();
        assert forall|c2: Seq<char>, k2: Seq<char>| #[trigger] count_named(d, c2, k2) <= 1 by {
            assert(count_named(s, c2, k2) <= 1);
        }
        lemma_keys_distinct(d, c);
        if listed(s.last(), c) {
            let k = s.last().key@;
            assert(count_named(s, c, k) <= 1);
            if keys_in(d, c).contains(k) {
                lemma_listed_counted(d, c, k);
            }
            let ks = keys_in(d, c);
            assert forall|i: int, j: int| 0 <= i < ks.push(k).len() && 0 <= j < ks.push(k).len() && i != j
                implies ks.push(k)[i] != ks.push(k)[j] by {
                if i < ks.len() && j < ks.len() {
                } else if i < ks.len() {
                    assert(ks.contains(ks[i]));
                } else {
                    assert(ks.contains(ks[j]));
                }
            }
        }
    }
}

/// What is read back under a name after a write is what was written, and the
/// write changes nothing that is read under any other name.
pub proof fn read_after_write(s: Seq<StoredEntry>, written: StoredEntry, c: Seq<char>, k: Seq<char>)
    ensures
        find(without(s, written.category@, written.key@).push(written), written.category@, written.key@)
            == Some(written),
        !(c == written.category@ && k == written.key@) ==> find(
            without(s, written.category@, written.key@).push(written),
            c,
            k,
        ) == find(s, c, k),
{
    let w = without(s, written.category@, written.key@);
    assert(w.push(written).drop_last() == w);
    lemma_find_without(s, written.category@, written.key@, c, k);
}

/// An entry written at `cached` with a positive lifetime `max_age` is valid at
/// once, and at a later time `now` exactly while `now - cached < max_age`.
pub proof fn valid_until_max_age(s: Seq<StoredEntry>, written: StoredEntry, cached: i64, now: i64, max_age: u64)
    requires
        written.payload is Some,
        written.metadata matches Some(m) && m.cached_at == cached,
        max_age > 0,
    ensures
        valid_in(
            without(s, written.category@, written.key@).push(written),
            written.category@,
            written.key@,
            cached,
            max_age,
        ),
        valid_in(
            without(s, written.category@, written.key@).push(written),
            written.category@,
            written.key@,
            now,
            max_age,
        ) <==> (now as int) - (cached as int) < max_age as int,
{
}

/// Removing an entry makes it not valid at any time, and removing it again
/// changes nothing.
pub proof fn delete_idempotent(s: Seq<StoredEntry>, c: Seq<char>, k: Seq<char>, now: i64, max_age: u64)
    ensures
        !valid_in(without(s, c, k), c, k, now, max_age),
        without(without(s, c, k), c, k) == without(s, c, k),
    decreases s.len(),
{
    lemma_find_without(s, c, k, c, k);
    if s.len() > 0 {
        delete_idempotent(s.drop_last(), c, k, now, max_age);
        if !names(s.last(), c, k) {
            assert(without(s, c, k).drop_last() == without(s.drop_last(), c, k));
        }
    }
}

/// The wall clock in whole seconds since the epoch (0 before it).
fn now_secs() -> i64 {
    let ms = now_millis();
    if ms < 0 {
        0
    } else {
        millis_to_secs(ms)
    }
}

} // verus!
