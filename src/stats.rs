//! Per-category lookup counters, owned by the orchestrator.
use vstd::prelude::*;

use crate::text::same_text;

verus! {

/// Lookup counters of one category.
#[derive(Debug)]
pub struct CategoryCounter {
    pub category: String,
    pub hits: u64,
    pub misses: u64,
    pub requests: u64,
}

/// Every lookup counted is a hit or a miss, not both.
pub open spec fn consistent(c: CategoryCounter) -> bool {
    c.hits as int + c.misses as int == c.requests as int
}

/// The last counter of category `c`, if any.
pub open spec fn find_counter(s: Seq<CategoryCounter>, c: Seq<char>) -> Option<CategoryCounter>
    decreases s.len(),
{
    if s.len() == 0 {
        None
    } else if s.last().category@ == c {
        Some(s.last())
    } else {
        find_counter(s.drop_last(), c)
    }
}

/// No two counters share a category.
pub open spec fn distinct_categories(s: Seq<CategoryCounter>) -> bool {
    forall|i: int, j: int|
        0 <= i < s.len() && 0 <= j < s.len() && i != j ==> #[trigger] s[i].category@ != #[trigger] s[j].category@
}

/// Hits, misses and requests counted for category `c` (all zero if none were).
pub open spec fn counts_in(s: Seq<CategoryCounter>, c: Seq<char>) -> (u64, u64, u64) {
    match find_counter(s, c) {
        Some(x) => (x.hits, x.misses, x.requests),
        None => (0, 0, 0),
    }
}

/// The counts after one more lookup, a hit or a miss; left as they are once
/// `requests` can count no further.
pub open spec fn bump(t: (u64, u64, u64), hit: bool) -> (u64, u64, u64) {
    if t.2 == u64::MAX {
        t
    } else if hit {
        ((t.0 + 1) as u64, t.1, (t.2 + 1) as u64)
    } else {
        (t.0, (t.1 + 1) as u64, (t.2 + 1) as u64)
    }
}

/// Hits counted over all categories.
pub open spec fn total_hits(s: Seq<CategoryCounter>) -> int
    decreases s.len(),
{
    if s.len() == 0 {
        0
    } else {
        total_hits(s.drop_last()) + s.last().hits as int
    }
}

/// Replacing the counter at `k` changes the total by the change of its hits.
proof fn lemma_total_update(s: Seq<CategoryCounter>, k: int, x: CategoryCounter)
    requires
        0 <= k < s.len(),
    ensures
        total_hits(s.update(k, x)) == total_hits(s) - s[k].hits + x.hits,
    decreases s.len(),
{
    let t = s.update(k, x);
    if k == s.len() - 1 {
        assert(t.drop_last() == s.drop_last());
    } else {
        assert(t.drop_last() == s.drop_last().update(k, x));
        lemma_total_update(s.drop_last(), k, x);
    }
}

/// The lookup counters of all categories that have seen a lookup.
#[derive(Debug)]
pub struct CategoryCounters {
    counters: Vec<CategoryCounter>,
}

impl CategoryCounters {
    /// The counters, one per category, in order of first lookup.
    pub closed spec fn counters(&self) -> Seq<CategoryCounter> {
        self.counters@
    }

    /// Hits, misses and requests counted for category `c`.
    pub open spec fn counts(&self, c: Seq<char>) -> (u64, u64, u64) {
        counts_in(self.counters(), c)
    }

    /// Categories are distinct and every counter is consistent.
    pub open spec fn wf(&self) -> bool {
        &&& distinct_categories(self.counters())
        &&& forall|i: int| 0 <= i < self.counters().len() ==> consistent(#[trigger] self.counters()[i])
    }

    /// No lookups counted yet.
    pub fn new() -> (r: Self)
        ensures
            r.wf(),
            r.counters() == Seq::<CategoryCounter>::empty(),
    {
        CategoryCounters { counters: Vec::new() }
    }

    /// Number of categories with counters.
    pub fn len(&self) -> (r: usize)
        ensures
            r == self.counters().len(),
    {
        self.counters.len()
    }

    /// The counter at position `i`.
    pub fn get(&self, i: usize) -> (r: &CategoryCounter)
        requires
            i < self.counters().len(),
        ensures
            *r == self.counters()[i as int],
    {
        &self.counters[i]
    }

    /// Hits, misses and requests counted for `category`.
    pub fn counts_of(&self, category: &str) -> (r: (u64, u64, u64))
        ensures
            r == self.counts(category@),
    {
        let mut i: usize = self.counters.len();
        let ghost s = self.counters@;
        assert(s.take(i as int) == s);
        while i > 0
            invariant
                i <= s.len(),
                s == self.counters@,
                find_counter(s, category@) == find_counter(s.take(i as int), category@),
            decreases i,
        {
            assert(s.take(i as int).drop_last() == s.take(i - 1));
            let c = &self.counters[i - 1];
            if same_text(c.category.as_str(), category) {
                return (c.hits, c.misses, c.requests);
            }
            i = i - 1;
        }
        (0, 0, 0)
    }

    /// Counts one lookup in `category`, a hit or a miss. A category seen for the
    /// first time gets its counter then. Returns whether the lookup was counted:
    /// counters stop once `requests` can count no further.
    pub fn record(&mut self, category: &str, hit: bool) -> (counted: bool)
        requires
            old(self).wf(),
        ensures
            final(self).wf(),
            counted == (old(self).counts(category@).2 < u64::MAX),
            total_hits(final(self).counters()) == total_hits(old(self).counters()) + if counted && hit {
                1int
            } else {
                0int
            },
            final(self).counts(category@) == bump(old(self).counts(category@), hit),
            forall|c: Seq<char>| c != category@ ==> final(self).counts(c) == old(self).counts(c),
    {
        let mut i: usize = self.counters.len();
        let ghost s = self.counters@;
        assert(s.take(i as int) == s);
        while i > 0
            invariant
                i <= s.len(),
                s == self.counters@,
                find_counter(s, category@) == find_counter(s.take(i as int), category@),
                forall|j: int| i <= j < s.len() ==> #[trigger] s[j].category@ != category@,
            ensures
                i > 0 ==> s[i - 1].category@ == category@,
                forall|j: int| i <= j < s.len() ==> #[trigger] s[j].category@ != category@,
            decreases i,
        {
            assert(s.take(i as int).drop_last() == s.take(i - 1));
            if same_text(self.counters[i - 1].category.as_str(), category) {
                break;
            }
            i = i - 1;
        }
        if i == 0 {
            proof {
                lemma_find_none(s, category@);
            }
            let c = CategoryCounter {
                category: category.to_owned(),
                hits: if hit { 1 } else { 0 },
                misses: if hit { 0 } else { 1 },
                requests: 1,
            };
            self.counters.push(c);
            proof {
                let t = self.counters@;
                assert(t.drop_last() == s);
                assert forall|c2: Seq<char>| c2 != category@ implies counts_in(t, c2) == counts_in(s, c2) by {}
            }
            true
        } else {
            let k = i - 1;
            proof {
                lemma_find_at(s, k as int, category@);
            }
            let old_c = &self.counters[k];
            if old_c.requests < u64::MAX {
                let c = CategoryCounter {
                    category: old_c.category.clone(),
                    hits: if hit { old_c.hits + 1 } else { old_c.hits },
                    misses: if hit { old_c.misses } else { old_c.misses + 1 },
                    requests: old_c.requests + 1,
                };
                self.counters.set(k, c);
                proof {
                    let t = self.counters@;
                    assert(t == s.update(k as int, c));
                    lemma_total_update(s, k as int, c);
                    lemma_find_at(t, k as int, category@);
                    assert forall|c2: Seq<char>| c2 != category@ implies counts_in(t, c2) == counts_in(s, c2) by {
                        lemma_find_update_other(s, k as int, c, c2);
                    }
                }
                true
            } else {
                false
            }
        }
    }
}

/// A name with no counter: `find_counter` finds none and no position holds it.
proof fn lemma_find_none(s: Seq<CategoryCounter>, c: Seq<char>)
    requires
        forall|j: int| 0 <= j < s.len() ==> #[trigger] s[j].category@ != c,
    ensures
        find_counter(s, c) is None,
    decreases s.len(),
{
    if s.len() > 0 {
        lemma_find_none(s.drop_last(), c);
    }
}

/// With distinct categories, the counter at position `k` is the one found by its name.
proof fn lemma_find_at(s: Seq<CategoryCounter>, k: int, c: Seq<char>)
    requires
        distinct_categories(s),
        0 <= k < s.len(),
        s[k].category@ == c,
    ensures
        find_counter(s, c) == Some(s[k]),
    decreases s.len(),
{
    if k != s.len() - 1 {
        assert(s.last().category@ != c);
        lemma_find_at(s.drop_last(), k, c);
    }
}

/// Replacing the counter at `k` by one of the same category changes nothing
/// found under any other name.
proof fn lemma_find_update_other(s: Seq<CategoryCounter>, k: int, x: CategoryCounter, c: Seq<char>)
    requires
        0 <= k < s.len(),
        x.category@ == s[k].category@,
        c != x.category@,
    ensures
        find_counter(s.update(k, x), c) == find_counter(s, c),
    decreases s.len(),
{
    let t = s.update(k, x);
    if k == s.len() - 1 {
        assert(t.drop_last() == s.drop_last());
    } else {
        assert(t.drop_last() == s.drop_last().update(k, x));
        lemma_find_update_other(s.drop_last(), k, x, c);
    }
}

/// For every category, hits and misses add up to the lookups counted.
pub proof fn hits_and_misses_add_up(s: CategoryCounters, c: Seq<char>)
    requires
        s.wf(),
    ensures
        s.counts(c).0 as int + s.counts(c).1 as int == s.counts(c).2 as int,
{
    lemma_find_consistent(s.counters(), c);
}

/// A counter found by name is one of the sequence's.
proof fn lemma_find_consistent(s: Seq<CategoryCounter>, c: Seq<char>)
    requires
        forall|i: int| 0 <= i < s.len() ==> consistent(#[trigger] s[i]),
    ensures
        counts_in(s, c).0 as int + counts_in(s, c).1 as int == counts_in(s, c).2 as int,
    decreases s.len(),
{
    if s.len() > 0 {
        assert(consistent(s[s.len() - 1]));
        lemma_find_consistent(s.drop_last(), c);
    }
}

} // verus!
