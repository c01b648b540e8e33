//! TTL-bounded memoization of external lookups.
//!
//! One `LookupCache` instance serves one external data source. A lookup key
//! is ASCII-case-normalized, then either answered from a still-fresh entry
//! or by running the supplied fetch closure. A successful fetch is stored
//! with the current time and triggers an inline sweep of every expired
//! entry; a failed fetch is never stored.
//!
//! As with the cooldown tracker, time is passed in explicitly as whole
//! seconds.

use vstd::prelude::*;

use crate::elapsed_seconds;
use crate::error::BotError;
use crate::strutil::{ascii_lower, lower_seq, str_eq};

verus! {

/// A fetched value together with the time it was stored.
pub struct CacheEntry<V> {
    pub value: V,
    pub stored_at: u64,
}

/// An entry is fresh while strictly less than `ttl` seconds old.
pub open spec fn entry_fresh<V>(e: CacheEntry<V>, ttl: u64, now: u64) -> bool {
    elapsed_seconds(e.stored_at, now) < ttl
}

/// A lookup under `key` at `now` is answered from the cache exactly when a
/// fresh entry for it exists.
pub open spec fn cache_hit<V>(
    m: Map<Seq<char>, CacheEntry<V>>,
    key: Seq<char>,
    ttl: u64,
    now: u64,
) -> bool {
    m.contains_key(key) && entry_fresh(m[key], ttl, now)
}

/// The cache after a sweep at `now`: exactly the fresh entries remain.
pub open spec fn cache_swept<V>(
    m: Map<Seq<char>, CacheEntry<V>>,
    ttl: u64,
    now: u64,
) -> Map<Seq<char>, CacheEntry<V>> {
    Map::new(
        |key: Seq<char>| m.contains_key(key) && entry_fresh(m[key], ttl, now),
        |key: Seq<char>| m[key],
    )
}

/// The cache after a successful fetch of `value` for `key` at `now`:
/// expired entries are swept and the new entry is recorded at `now`.
pub open spec fn cache_after_store<V>(
    m: Map<Seq<char>, CacheEntry<V>>,
    key: Seq<char>,
    value: V,
    ttl: u64,
    now: u64,
) -> Map<Seq<char>, CacheEntry<V>> {
    cache_swept(m, ttl, now).insert(key, CacheEntry { value, stored_at: now })
}

/// Memoizes the results of one external data source, keyed by the
/// case-normalized lookup identifier.
pub struct LookupCache<V> {
    entries: Vec<(String, CacheEntry<V>)>,
}

impl<V> View for LookupCache<V> {
    type V = Map<Seq<char>, CacheEntry<V>>;

    closed spec fn view(&self) -> Map<Seq<char>, CacheEntry<V>> {
        Map::new(
            |key: Seq<char>|
                exists|i: int| 0 <= i < self.entries@.len() && self.entries@[i].0@ == key,
            |key: Seq<char>|
                {
                    let i = choose|i: int|
                        0 <= i < self.entries@.len() && self.entries@[i].0@ == key;
                    self.entries@[i].1
                },
        )
    }
}

impl<V: Clone> LookupCache<V> {
    /// At most one entry per key.
    pub closed spec fn wf(&self) -> bool {
        forall|i: int, j: int|
            0 <= i < j < self.entries@.len() ==> self.entries@[i].0@ != self.entries@[j].0@
    }

    proof fn lemma_entry_view(&self, i: int)
        requires
            self.wf(),
            0 <= i < self.entries@.len(),
        ensures
            self@.contains_key(self.entries@[i].0@),
            self@[self.entries@[i].0@] == self.entries@[i].1,
    {
        let key = self.entries@[i].0@;
        assert(self@.contains_key(key));
        let j = choose|j: int| 0 <= j < self.entries@.len() && self.entries@[j].0@ == key;
        if i < j {
            assert(self.entries@[i].0@ != self.entries@[j].0@);
        } else if j < i {
            assert(self.entries@[j].0@ != self.entries@[i].0@);
        }
    }

    /// Creates an empty cache.
    pub fn new() -> (r: Self)
        ensures
            r.wf(),
            r@ == Map::<Seq<char>, CacheEntry<V>>::empty(),
    {
        let r = LookupCache { entries: Vec::new() };
        proof {
            assert(r@ =~= Map::<Seq<char>, CacheEntry<V>>::empty());
        }
        r
    }

    /// Looks for the entry stored under the already-normalized `key`.
    fn find(&self, key: &str) -> (r: Option<usize>)
        requires
            self.wf(),
        ensures
            match r {
                Some(i) => i < self.entries@.len() && self.entries@[i as int].0@ == key@
                    && self@.contains_key(key@) && self@[key@] == self.entries@[i as int].1,
                None => !self@.contains_key(key@),
            },
    {
        let mut i: usize = 0;
        while i < self.entries.len()
            invariant
                self.wf(),
                i <= self.entries@.len(),
                forall|j: int| 0 <= j < i ==> self.entries@[j].0@ != key@,
            decreases self.entries@.len() - i,
        {
            if str_eq(self.entries[i].0.as_str(), key) {
                proof {
                    self.lemma_entry_view(i as int);
                }
                return Some(i);
            }
            i += 1;
        }
        None
    }

    /// Drops every entry that is `ttl_seconds` or more seconds old at `now`.
    #[verifier::rlimit(60)]
    fn sweep_expired(&mut self, ttl_seconds: u64, now: u64)
        requires
            old(self).wf(),
        ensures
            final(self).wf(),
            final(self)@ == cache_swept(old(self)@, ttl_seconds, now),
    {
        let ghost orig = old(self).entries@;
        let mut kept: Vec<(String, CacheEntry<V>)> = Vec::new();
        while self.entries.len() > 0
            invariant
                old(self).wf(),
                orig == old(self).entries@,
                self.entries@.len() <= orig.len(),
                self.entries@ == orig.take(self.entries@.len() as int),
                forall|a: int, b: int|
                    0 <= a < b < kept@.len() ==> kept@[a].0@ != kept@[b].0@,
                forall|a: int| #![trigger kept@[a]]
                    0 <= a < kept@.len() ==> exists|j: int| #![trigger orig[j]]
                        self.entries@.len() <= j < orig.len() && kept@[a] == orig[j],
                forall|j: int| #![trigger orig[j]]
                    self.entries@.len() <= j < orig.len() ==> (entry_fresh(
                        orig[j].1,
                        ttl_seconds,
                        now,
                    ) <==> exists|a: int| #![trigger kept@[a]]
                        0 <= a < kept@.len() && kept@[a] == orig[j]),
            decreases self.entries@.len(),
        {
            let ghost before = self.entries@;
            let pair = self.entries.pop().unwrap();
            let ghost cur = self.entries@.len() as int;
            proof {
                assert(before[before.len() - 1] == orig.take(before.len() as int)[before.len()
                    - 1]);
                assert(pair == orig[cur]);
                assert(self.entries@ =~= orig.take(cur));
            }
            let ghost prev = kept@;
            proof {
                assert forall|a: int| 0 <= a < prev.len() implies prev[a].0@ != orig[cur].0@ by {
                    let j = choose|j: int|
                        #![trigger orig[j]]
                        cur + 1 <= j < orig.len() && prev[a] == orig[j];
                    assert(old(self).entries@[cur].0@ != old(self).entries@[j].0@);
                    assert(orig[cur].0@ != orig[j].0@);
                }
            }
            let stored_at = pair.1.stored_at;
            let elapsed = if now >= stored_at {
                now - stored_at
            } else {
                0
            };
            if elapsed < ttl_seconds {
                kept.push(pair);
            }
            proof {
                assert forall|j: int|
                    #![trigger orig[j]]
                    cur <= j < orig.len() implies (entry_fresh(orig[j].1, ttl_seconds, now)
                    <==> exists|a: int|
                    #![trigger kept@[a]]
                    0 <= a < kept@.len() && kept@[a] == orig[j]) by {
                    if j == cur {
                        if entry_fresh(orig[j].1, ttl_seconds, now) {
                            assert(kept@[kept@.len() - 1] == orig[j]);
                        } else {
                            assert forall|a: int| 0 <= a < kept@.len() implies kept@[a]
                                != orig[j] by {
                                assert(kept@[a] == prev[a]);
                                assert(prev[a].0@ != orig[cur].0@);
                            }
                        }
                    } else {
                        if entry_fresh(orig[j].1, ttl_seconds, now) {
                            let a = choose|a: int|
                                #![trigger prev[a]]
                                0 <= a < prev.len() && prev[a] == orig[j];
                            assert(kept@[a] == orig[j]);
                        } else {
                            assert forall|a: int| 0 <= a < kept@.len() implies kept@[a]
                                != orig[j] by {
                                if a < prev.len() {
                                    assert(kept@[a] == prev[a]);
                                    assert(!(exists|b: int|
                                        #![trigger prev[b]]
                                        0 <= b < prev.len() && prev[b] == orig[j]));
                                } else {
                                    assert(kept@[a] == orig[cur]);
                                    assert(old(self).entries@[cur].0@ != old(
                                        self,
                                    ).entries@[j].0@);
                                    assert(orig[j].0@ != orig[cur].0@);
                                }
                            }
                        }
                    }
                }
            }
        }
        self.entries = kept;
        proof {
            let older = *old(self);
            assert(orig.take(0) =~= Seq::<(String, CacheEntry<V>)>::empty());
            assert forall|key: Seq<char>| #[trigger] self@.contains_key(key) implies (
            older@.contains_key(key) && entry_fresh(older@[key], ttl_seconds, now) && self@[key]
                == older@[key]) by {
                let a = choose|a: int|
                    0 <= a < self.entries@.len() && self.entries@[a].0@ == key;
                self.lemma_entry_view(a);
                let j = choose|j: int|
                    #![trigger orig[j]]
                    0 <= j < orig.len() && self.entries@[a] == orig[j];
                older.lemma_entry_view(j);
            }
            assert forall|key: Seq<char>|
                older@.contains_key(key) && entry_fresh(older@[key], ttl_seconds, now) implies #[
            trigger] self@.contains_key(key) by {
                let j = choose|j: int|
                    0 <= j < older.entries@.len() && older.entries@[j].0@ == key;
                older.lemma_entry_view(j);
                assert(entry_fresh(orig[j].1, ttl_seconds, now));
                let a = choose|a: int|
                    #![trigger self.entries@[a]]
                    0 <= a < self.entries@.len() && self.entries@[a] == orig[j];
                assert(self.entries@[a].0@ == key);
            }
            assert(self@ =~= cache_swept(older@, ttl_seconds, now));
        }
    }

    /// Answers the lookup for `key` from a fresh cached entry, if one
    /// exists; the key is ASCII-case-normalized first. Nothing changes.
    pub fn lookup(&self, key: &str, ttl_seconds: u64, now: u64) -> (r: Option<V>)
        requires
            self.wf(),
        ensures
            match r {
                Some(v) => cache_hit(self@, lower_seq(key@), ttl_seconds, now)
                    && vstd::pervasive::cloned(self@[lower_seq(key@)].value, v),
                None => !cache_hit(self@, lower_seq(key@), ttl_seconds, now),
            },
    {
        let norm = ascii_lower(key);
        match self.find(norm.as_str()) {
            Some(i) => {
                let stored_at = self.entries[i].1.stored_at;
                let elapsed = if now >= stored_at {
                    now - stored_at
                } else {
                    0
                };
                if elapsed < ttl_seconds {
                    Some(self.entries[i].1.value.clone())
                } else {
                    None
                }
            },
            None => None,
        }
    }

    /// Stores a fetched value for `key` at `now`, sweeping every expired
    /// entry inline; the key is ASCII-case-normalized first.
    pub fn store(&mut self, key: &str, value: V, ttl_seconds: u64, now: u64)
        requires
            old(self).wf(),
        ensures
            final(self).wf(),
            final(self)@ == cache_after_store(
                old(self)@,
                lower_seq(key@),
                final(self)@[lower_seq(key@)].value,
                ttl_seconds,
                now,
            ),
            final(self)@[lower_seq(key@)].value == value,
    {
        let norm = ascii_lower(key);
        self.sweep_expired(ttl_seconds, now);
        let ghost mid = *self;
        match self.find(norm.as_str()) {
            Some(i) => {
                proof {
                    self.lemma_entry_view(i as int);
                }
                let refreshed = (norm, CacheEntry { value, stored_at: now });
                proof {
                    assert(refreshed.0@ == self.entries@[i as int].0@);
                }
                vstd::pervasive::VecAdditionalExecFns::set(&mut self.entries, i, refreshed);
                proof {
                    let k = lower_seq(key@);
                    assert forall|a: int, b: int|
                        0 <= a < b < self.entries@.len() implies self.entries@[a].0@
                        != self.entries@[b].0@ by {
                        assert(self.entries@[a].0@ == mid.entries@[a].0@);
                        assert(self.entries@[b].0@ == mid.entries@[b].0@);
                    }
                    self.lemma_entry_view(i as int);
                    let target = cache_after_store(
                        old(self)@,
                        k,
                        self@[k].value,
                        ttl_seconds,
                        now,
                    );
                    assert forall|k2: Seq<char>| #[trigger]
                        self@.contains_key(k2) implies target.contains_key(k2) && self@[k2]
                        == target[k2] by {
                        if k2 != k {
                            let a = choose|a: int|
                                0 <= a < self.entries@.len() && self.entries@[a].0@ == k2;
                            assert(a != i);
                            assert(self.entries@[a] == mid.entries@[a]);
                            self.lemma_entry_view(a);
                            mid.lemma_entry_view(a);
                        }
                    }
                    assert forall|k2: Seq<char>| #[trigger]
                        target.contains_key(k2) implies self@.contains_key(k2) by {
                        if k2 != k {
                            assert(mid@.contains_key(k2));
                            let a = choose|a: int|
                                0 <= a < mid.entries@.len() && mid.entries@[a].0@ == k2;
                            assert(a != i);
                            assert(self.entries@[a].0@ == k2);
                        }
                    }
                    assert(self@ =~= target);
                }
            },
            None => {
                self.entries.push((norm, CacheEntry { value, stored_at: now }));
                proof {
                    let k = lower_seq(key@);
                    assert(self.entries@[self.entries@.len() - 1].0@ == k);
                    assert forall|a: int, b: int|
                        0 <= a < b < self.entries@.len() implies self.entries@[a].0@
                        != self.entries@[b].0@ by {
                        if b < self.entries@.len() - 1 {
                            assert(mid.entries@[a].0@ != mid.entries@[b].0@);
                        } else {
                            assert(self.entries@[a].0@ == mid.entries@[a].0@);
                            mid.lemma_entry_view(a);
                        }
                    }
                    self.lemma_entry_view(self.entries@.len() - 1);
                    let target = cache_after_store(
                        old(self)@,
                        k,
                        self@[k].value,
                        ttl_seconds,
                        now,
                    );
                    assert forall|k2: Seq<char>| #[trigger]
                        self@.contains_key(k2) implies target.contains_key(k2) && self@[k2]
                        == target[k2] by {
                        if k2 != k {
                            let a = choose|a: int|
                                0 <= a < self.entries@.len() && self.entries@[a].0@ == k2;
                            assert(a < self.entries@.len() - 1);
                            self.lemma_entry_view(a);
                            assert(self.entries@[a] == mid.entries@[a]);
                            mid.lemma_entry_view(a);
                        }
                    }
                    assert forall|k2: Seq<char>| #[trigger]
                        target.contains_key(k2) implies self@.contains_key(k2) by {
                        if k2 != k {
                            assert(mid@.contains_key(k2));
                            let a = choose|a: int|
                                0 <= a < mid.entries@.len() && mid.entries@[a].0@ == k2;
                            assert(self.entries@[a].0@ == k2);
                        }
                    }
                    assert(self@ =~= target);
                }
            },
        }
    }

    /// Answers the lookup for `key` from a fresh cached entry if one exists,
    /// and otherwise runs `fetch`: its value is stored at `now` (sweeping
    /// every expired entry inline) and returned; its error is returned and
    /// nothing is stored. The key is ASCII-case-normalized first.
    pub fn get_or_fetch<F: FnOnce() -> Result<V, BotError>>(
        &mut self,
        key: &str,
        ttl_seconds: u64,
        now: u64,
        fetch: F,
    ) -> (r: Result<V, BotError>)
        requires
            old(self).wf(),
            call_requires(fetch, ()),
        ensures
            final(self).wf(),
            cache_hit(old(self)@, lower_seq(key@), ttl_seconds, now) ==> {
                &&& final(self)@ == old(self)@
                &&& r matches Ok(v) && vstd::pervasive::cloned(
                    old(self)@[lower_seq(key@)].value,
                    v,
                )
            },
            !cache_hit(old(self)@, lower_seq(key@), ttl_seconds, now) ==> match r {
                Ok(v) => {
                    &&& final(self)@ == cache_after_store(
                        old(self)@,
                        lower_seq(key@),
                        final(self)@[lower_seq(key@)].value,
                        ttl_seconds,
                        now,
                    )
                    &&& call_ensures(fetch, (), Ok(final(self)@[lower_seq(key@)].value))
                    &&& vstd::pervasive::cloned(final(self)@[lower_seq(key@)].value, v)
                },
                Err(e) => {
                    &&& final(self)@ == old(self)@
                    &&& call_ensures(fetch, (), Err(e))
                },
            },
    {
        let norm = ascii_lower(key);
        match self.find(norm.as_str()) {
            Some(i) => {
                let stored_at = self.entries[i].1.stored_at;
                let elapsed = if now >= stored_at {
                    now - stored_at
                } else {
                    0
                };
                if elapsed < ttl_seconds {
                    proof {
                        assert(cache_hit(self@, lower_seq(key@), ttl_seconds, now));
                    }
                    let out = self.entries[i].1.value.clone();
                    return Ok(out);
                }
                proof {
                    assert(!entry_fresh(self@[norm@], ttl_seconds, now));
                }
                self.fetch_and_store(norm, ttl_seconds, now, fetch)
            },
            None => self.fetch_and_store(norm, ttl_seconds, now, fetch),
        }
    }

    /// The miss path: runs `fetch` and stores its value, if any, at `now`.
    fn fetch_and_store<F: FnOnce() -> Result<V, BotError>>(
        &mut self,
        norm: String,
        ttl_seconds: u64,
        now: u64,
        fetch: F,
    ) -> (r: Result<V, BotError>)
        requires
            old(self).wf(),
            call_requires(fetch, ()),
            !cache_hit(old(self)@, norm@, ttl_seconds, now),
        ensures
            final(self).wf(),
            match r {
                Ok(v) => {
                    &&& final(self)@ == cache_after_store(
                        old(self)@,
                        norm@,
                        final(self)@[norm@].value,
                        ttl_seconds,
                        now,
                    )
                    &&& call_ensures(fetch, (), Ok(final(self)@[norm@].value))
                    &&& vstd::pervasive::cloned(final(self)@[norm@].value, v)
                },
                Err(e) => {
                    &&& final(self)@ == old(self)@
                    &&& call_ensures(fetch, (), Err(e))
                },
            },
    {
        let fetched = fetch();
        match fetched {
            Ok(value) => {
                self.sweep_expired(ttl_seconds, now);
                let ghost mid = *self;
                let out = value.clone();
                proof {
                    assert forall|a: int| 0 <= a < self.entries@.len() implies self.entries@[a].0@
                        != norm@ by {
                        self.lemma_entry_view(a);
                        assert(old(self)@.contains_key(self.entries@[a].0@) && entry_fresh(
                            old(self)@[self.entries@[a].0@],
                            ttl_seconds,
                            now,
                        ));
                    }
                }
                self.entries.push((norm, CacheEntry { value, stored_at: now }));
                proof {
                    let k = self.entries@[self.entries@.len() - 1].0@;
                    assert forall|a: int, b: int|
                        0 <= a < b < self.entries@.len() implies self.entries@[a].0@
                        != self.entries@[b].0@ by {
                        if b < self.entries@.len() - 1 {
                            assert(mid.entries@[a].0@ != mid.entries@[b].0@);
                        } else {
                            assert(self.entries@[a].0@ == mid.entries@[a].0@);
                            assert(mid.entries@[a].0@ != k);
                        }
                    }
                    self.lemma_entry_view(self.entries@.len() - 1);
                    let target = cache_after_store(
                        old(self)@,
                        k,
                        self@[k].value,
                        ttl_seconds,
                        now,
                    );
                    assert forall|k2: Seq<char>| #[trigger]
                        self@.contains_key(k2) implies target.contains_key(k2) && self@[k2]
                        == target[k2] by {
                        if k2 != k {
                            let a = choose|a: int|
                                0 <= a < self.entries@.len() && self.entries@[a].0@ == k2;
                            assert(a < self.entries@.len() - 1);
                            self.lemma_entry_view(a);
                            assert(self.entries@[a] == mid.entries@[a]);
                            mid.lemma_entry_view(a);
                            assert(mid@.contains_key(k2) && mid@[k2] == self@[k2]);
                        }
                    }
                    assert forall|k2: Seq<char>| #[trigger]
                        target.contains_key(k2) implies self@.contains_key(k2) by {
                        if k2 != k {
                            assert(mid@.contains_key(k2));
                            let a = choose|a: int|
                                0 <= a < mid.entries@.len() && mid.entries@[a].0@ == k2;
                            assert(self.entries@[a].0@ == k2);
                        }
                    }
                    assert(self@ =~= target);
                }
                Ok(out)
            },
            Err(e) => Err(e),
        }
    }
}

/// Cache hit: a value stored at `t0` answers a lookup strictly less than
/// `ttl` seconds later from the cache, exactly as stored.
pub proof fn lemma_cache_hit_after_store<V>(
    m: Map<Seq<char>, CacheEntry<V>>,
    key: Seq<char>,
    value: V,
    ttl: u64,
    t0: u64,
    t1: u64,
)
    requires
        t0 <= t1,
        t1 - t0 < ttl,
    ensures
        ({
            let m1 = cache_after_store(m, key, value, ttl, t0);
            &&& cache_hit(m1, key, ttl, t1)
            &&& m1[key].value == value
            &&& m1[key].stored_at == t0
        }),
{
}

/// Cache expiry: once `ttl` seconds have passed the stored entry answers no
/// lookup any more, and a renewed fetch stores the new value over the old.
pub proof fn lemma_cache_expiry<V>(
    m: Map<Seq<char>, CacheEntry<V>>,
    key: Seq<char>,
    v1: V,
    v2: V,
    ttl: u64,
    t0: u64,
    t1: u64,
)
    requires
        t0 <= t1,
        t1 - t0 >= ttl,
    ensures
        ({
            let m1 = cache_after_store(m, key, v1, ttl, t0);
            &&& !cache_hit(m1, key, ttl, t1)
            &&& cache_after_store(m1, key, v2, ttl, t1)[key].value == v2
            &&& cache_after_store(m1, key, v2, ttl, t1)[key].stored_at == t1
        }),
{
}

/// No negative caching: a failed fetch leaves the store unchanged, and a key
/// that misses keeps missing at every later time while nothing is stored,
/// so the next lookup runs the fetch again.
pub proof fn lemma_miss_persists<V>(
    m: Map<Seq<char>, CacheEntry<V>>,
    key: Seq<char>,
    ttl: u64,
    t0: u64,
    t1: u64,
)
    requires
        t0 <= t1,
        !cache_hit(m, key, ttl, t0),
    ensures
        !cache_hit(m, key, ttl, t1),
{
}

} // verus!
