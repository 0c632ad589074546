//! The generic expiring cache: a keyed store of serialized payloads with a
//! timestamp, consulted cache-first. A lookup within the freshness window
//! returns the stored payload without recomputing; otherwise the caller's
//! producer runs and its result replaces the entry. A startup sweep drops
//! entries older than the retention window.
use vstd::prelude::*;

use crate::strutil::str_eq;
use crate::EngineError;

verus! {

/// Seconds after which a swept cache entry is dropped: seven days.
pub const RETENTION_SECS: i64 = 604800;

/// One cached row: the key, when it was written, and the serialized
/// payload.
#[derive(Debug)]
pub struct CacheEntry {
    pub cache_key: String,
    pub cache_time: i64,
    pub cache_content: String,
}

impl CacheEntry {
    /// A field-for-field copy of the entry.
    pub fn duplicate(&self) -> (r: Self)
        ensures
            r == *self,
    {
        CacheEntry {
            cache_key: self.cache_key.clone(),
            cache_time: self.cache_time,
            cache_content: self.cache_content.clone(),
        }
    }
}

/// The mathematical shape of one cached row: key, write time, payload.
pub open spec fn entry_model(e: CacheEntry) -> (Seq<char>, i64, Seq<char>) {
    (e.cache_key@, e.cache_time, e.cache_content@)
}

/// The mathematical shape of the whole store, in row order.
pub open spec fn cache_model(s: Seq<CacheEntry>) -> Seq<(Seq<char>, i64, Seq<char>)> {
    s.map_values(|e: CacheEntry| entry_model(e))
}

/// The first row with the given key, if any.
pub open spec fn spec_lookup(m: Seq<(Seq<char>, i64, Seq<char>)>, key: Seq<char>) -> Option<
    (Seq<char>, i64, Seq<char>),
>
    decreases m.len(),
{
    if m.len() == 0 {
        None
    } else if m[0].0 == key {
        Some(m[0])
    } else {
        spec_lookup(m.drop_first(), key)
    }
}

/// The store after writing a row: the first row with the same key is
/// replaced, or the row is appended if the key is new.
pub open spec fn spec_store(
    m: Seq<(Seq<char>, i64, Seq<char>)>,
    e: (Seq<char>, i64, Seq<char>),
) -> Seq<(Seq<char>, i64, Seq<char>)>
    decreases m.len(),
{
    if m.len() == 0 {
        seq![e]
    } else if m[0].0 == e.0 {
        seq![e] + m.drop_first()
    } else {
        seq![m[0]] + spec_store(m.drop_first(), e)
    }
}

/// A row written at `t` is fresh at `now` within the window `ttl`.
pub open spec fn is_fresh(t: i64, now: i64, ttl: i64) -> bool {
    now - t < ttl
}

/// The payload a cache-first lookup serves without recomputing: the stored
/// payload if the key is present and still fresh, nothing otherwise.
pub open spec fn fresh_payload(
    m: Seq<(Seq<char>, i64, Seq<char>)>,
    key: Seq<char>,
    now: i64,
    ttl: i64,
) -> Option<Seq<char>> {
    match spec_lookup(m, key) {
        Some(e) => if is_fresh(e.1, now, ttl) {
            Some(e.2)
        } else {
            None
        },
        None => None,
    }
}

/// Predicate satisfied by the rows a sweep at cutoff `t` keeps.
pub open spec fn cache_live(t: i64) -> spec_fn(CacheEntry) -> bool {
    |e: CacheEntry| e.cache_time >= t
}

/// The keyed store of expiring cache rows.
pub struct WebCache {
    pub entries: Vec<CacheEntry>,
}

impl WebCache {
    /// Row keys are unique.
    pub open spec fn wf(self) -> bool {
        forall|i: int, j: int|
            0 <= i < j < self.entries@.len() ==> self.entries@[i].cache_key@
                != self.entries@[j].cache_key@
    }

    /// An empty cache.
    pub fn new() -> (c: WebCache)
        ensures
            c.entries@.len() == 0,
            c.wf(),
    {
        WebCache { entries: Vec::new() }
    }

    /// The first row with the given key, if any.
    pub fn get_web_cache(&self, key: &str) -> (r: Option<&CacheEntry>)
        ensures
            match r {
                Some(e) => spec_lookup(cache_model(self.entries@), key@) == Some(entry_model(*e)),
                None => spec_lookup(cache_model(self.entries@), key@) is None,
            },
    {
        let ghost m = cache_model(self.entries@);
        proof {
            assert(m.skip(0) =~= m);
        }
        let mut k: usize = 0;
        while k < self.entries.len()
            invariant
                0 <= k <= self.entries@.len(),
                m == cache_model(self.entries@),
                spec_lookup(m, key@) == spec_lookup(m.skip(k as int), key@),
            decreases self.entries@.len() - k,
        {
            proof {
                assert(m.len() == self.entries@.len());
                assert(m.skip(k as int)[0] == m[k as int]);
                assert(m[k as int] == entry_model(self.entries@[k as int]));
                assert(m.skip(k as int).drop_first() =~= m.skip(k + 1));
            }
            if str_eq(self.entries[k].cache_key.as_str(), key) {
                return Some(&self.entries[k]);
            }
            k += 1;
        }
        proof {
            assert(m.skip(m.len() as int) =~= Seq::<(Seq<char>, i64, Seq<char>)>::empty());
        }
        None
    }

    /// Write a row: replace the row with this key, or append one.
    pub fn save_web_cache(&mut self, key: &str, content: &str, now: i64)
        requires
            old(self).wf(),
        ensures
            final(self).wf(),
            cache_model(final(self).entries@) == spec_store(
                cache_model(old(self).entries@),
                (key@, now, content@),
            ),
    {
        let ghost m = cache_model(self.entries@);
        let ghost e = (key@, now, content@);
        proof {
            assert(m.skip(0) =~= m);
            assert(m.take(0) =~= Seq::<(Seq<char>, i64, Seq<char>)>::empty());
            assert(m.take(0) + spec_store(m.skip(0), e) =~= spec_store(m, e));
        }
        let mut k: usize = 0;
        while k < self.entries.len()
            invariant
                0 <= k <= self.entries@.len(),
                m == cache_model(self.entries@),
                e == (key@, now, content@),
                old(self) == self,
                old(self).wf(),
                forall|i: int| 0 <= i < k ==> self.entries@[i].cache_key@ != key@,
                spec_store(m, e) == m.take(k as int) + spec_store(m.skip(k as int), e),
            decreases self.entries@.len() - k,
        {
            proof {
                assert(m.len() == self.entries@.len());
                assert(m.skip(k as int)[0] == m[k as int]);
                assert(m[k as int] == entry_model(self.entries@[k as int]));
                assert(m.skip(k as int).drop_first() =~= m.skip(k + 1));
            }
            if str_eq(self.entries[k].cache_key.as_str(), key) {
                let row = CacheEntry {
                    cache_key: key.to_owned(),
                    cache_time: now,
                    cache_content: content.to_owned(),
                };
                self.entries.set(k, row);
                proof {
                    assert(m[k as int].0 == key@);
                    assert(m.skip(k as int)[0].0 == e.0);
                    assert(spec_store(m.skip(k as int), e) == seq![e] + m.skip(k as int)
                        .drop_first());
                    assert(entry_model(self.entries@[k as int]) == e);
                    assert(cache_model(self.entries@) =~= m.take(k as int) + (seq![e] + m.skip(
                        k + 1,
                    )));
                    assert(m.take(k as int) + (seq![e] + m.skip(k + 1)) =~= m.take(k as int)
                        + seq![e] + m.skip(k + 1));
                    assert(spec_store(m, e) =~= cache_model(self.entries@));
                    assert forall|i: int, j: int|
                        0 <= i < j < self.entries@.len() implies (#[trigger] self.entries@[
                        i
                    ]).cache_key@ != (#[trigger] self.entries@[j]).cache_key@ by {
                        assert(old(self).entries@[i].cache_key@ != old(self).entries@[
                            j
                        ].cache_key@);
                        if i == k {
                        } else if j == k {
                            assert(self.entries@[i] == old(self).entries@[i]);
                            assert(old(self).entries@[i].cache_key@ != key@);
                        } else {
                            assert(self.entries@[i] == old(self).entries@[i]);
                            assert(self.entries@[j] == old(self).entries@[j]);
                        }
                    }
                }
                return ;
            }
            proof {
                assert(spec_store(m.skip(k as int), e) == seq![m.skip(k as int)[0]] + spec_store(
                    m.skip(k + 1),
                    e,
                ));
                assert(m.take(k + 1) =~= m.take(k as int) + seq![m[k as int]]);
                assert(m.take(k as int) + (seq![m[k as int]] + spec_store(m.skip(k + 1), e))
                    =~= m.take(k + 1) + spec_store(m.skip(k + 1), e));
            }
            k += 1;
        }
        let row = CacheEntry {
            cache_key: key.to_owned(),
            cache_time: now,
            cache_content: content.to_owned(),
        };
        self.entries.push(row);
        proof {
            let n = m.len() as int;
            assert(m.skip(n) =~= Seq::<(Seq<char>, i64, Seq<char>)>::empty());
            assert(spec_store(m.skip(n), e) == seq![e]);
            assert(m.take(n) =~= m);
            assert(cache_model(self.entries@) =~= m + seq![e]);
            assert(spec_store(m, e) =~= cache_model(self.entries@));
        }
    }

    /// Drop every row written before the cutoff; younger rows survive in
    /// order.
    pub fn delete_expired_cache(&mut self, cutoff: i64)
        requires
            old(self).wf(),
        ensures
            final(self).wf(),
            final(self).entries@ == old(self).entries@.filter(cache_live(cutoff)),
    {
        let ghost p = cache_live(cutoff);
        let mut kept: Vec<CacheEntry> = Vec::new();
        let mut k: usize = 0;
        while k < self.entries.len()
            invariant
                0 <= k <= self.entries@.len(),
                p == cache_live(cutoff),
                kept@ == self.entries@.take(k as int).filter(p),
                old(self) == self,
            decreases self.entries@.len() - k,
        {
            proof {
                let s = self.entries@;
                let x = s[k as int];
                assert(s.take(k + 1) =~= s.take(k as int).push(x));
                s.take(k as int).lemma_filter_push(x, p);
                assert(p(x) == (x.cache_time >= cutoff));
            }
            if self.entries[k].cache_time >= cutoff {
                kept.push(self.entries[k].duplicate());
            }
            k += 1;
        }
        proof {
            assert(self.entries@.take(self.entries@.len() as int) =~= self.entries@);
            crate::seqext::lemma_filter_keeps_distinct(
                self.entries@,
                p,
                |en: CacheEntry| en.cache_key@,
            );
        }
        self.entries = kept;
    }

    /// The payload served without recomputing: the stored one if the key
    /// is present and written within `ttl_secs` of `now`, nothing
    /// otherwise. Callers whose producer must run elsewhere (an awaited
    /// fetch) consult this first and store the recomputed payload after.
    pub fn fresh_lookup(&self, key: &str, now: i64, ttl_secs: i64) -> (r: Option<String>)
        ensures
            match r {
                Some(v) => fresh_payload(cache_model(self.entries@), key@, now, ttl_secs) == Some(
                    v@,
                ),
                None => fresh_payload(cache_model(self.entries@), key@, now, ttl_secs) is None,
            },
    {
        match self.get_web_cache(key) {
            Some(e) => if (now as i128) - (e.cache_time as i128) < (ttl_secs as i128) {
                Some(e.cache_content.clone())
            } else {
                None
            },
            None => None,
        }
    }

    /// Cache-first fetch: within `ttl_secs` of the last write the stored
    /// payload is returned and the producer is not consulted; otherwise the
    /// producer runs, a success is stored under the key with time `now` and
    /// returned, and a failure is handed back with the store untouched - a
    /// stale entry is never served in place of a failed recompute.
    pub fn cache_first<F: FnOnce() -> Result<String, EngineError>>(
        &mut self,
        key: &str,
        ttl_secs: i64,
        now: i64,
        producer: F,
    ) -> (r: Result<String, EngineError>)
        requires
            old(self).wf(),
            call_requires(producer, ()),
        ensures
            final(self).wf(),
            match r {
                Ok(v) => if fresh_payload(
                    cache_model(old(self).entries@),
                    key@,
                    now,
                    ttl_secs,
                ) is Some {
                    v@ == fresh_payload(
                        cache_model(old(self).entries@),
                        key@,
                        now,
                        ttl_secs,
                    ).unwrap() && final(self).entries@ == old(self).entries@
                } else {
                    call_ensures(producer, (), Ok(v)) && cache_model(final(self).entries@)
                        == spec_store(cache_model(old(self).entries@), (key@, now, v@))
                },
                Err(e) => fresh_payload(cache_model(old(self).entries@), key@, now, ttl_secs)
                    is None && call_ensures(producer, (), Err(e)) && final(self).entries@ == old(
                    self,
                ).entries@,
            },
    {
        let cached: Option<(i64, String)> = match self.get_web_cache(key) {
            Some(e) => Some((e.cache_time, e.cache_content.clone())),
            None => None,
        };
        if let Some((t, content)) = cached {
            if (now as i128) - (t as i128) < (ttl_secs as i128) {
                return Ok(content);
            }
        }
        let produced = producer();
        match produced {
            Ok(v) => {
                self.save_web_cache(key, v.as_str(), now);
                Ok(v)
            },
            Err(e) => Err(e),
        }
    }
}

/// Writing a payload makes it the one the key looks up.
pub proof fn lemma_store_lookup(
    m: Seq<(Seq<char>, i64, Seq<char>)>,
    e: (Seq<char>, i64, Seq<char>),
)
    ensures
        spec_lookup(spec_store(m, e), e.0) == Some(e),
    decreases m.len(),
{
    if m.len() == 0 {
    } else if m[0].0 == e.0 {
        assert(spec_store(m, e) == seq![e] + m.drop_first());
        assert((seq![e] + m.drop_first())[0] == e);
    } else {
        lemma_store_lookup(m.drop_first(), e);
        let s = seq![m[0]] + spec_store(m.drop_first(), e);
        assert(s[0] == m[0]);
        assert(s.drop_first() =~= spec_store(m.drop_first(), e));
    }
}

/// Cache freshness: for any key and window, a lookup within `ttl` of the
/// last write serves exactly the written payload, so no recompute is
/// commanded; a lookup at or past the window serves nothing, so the
/// producer must run again.
pub proof fn lemma_cache_freshness(
    m: Seq<(Seq<char>, i64, Seq<char>)>,
    key: Seq<char>,
    t0: i64,
    v: Seq<char>,
    now: i64,
    ttl: i64,
)
    ensures
        now - t0 < ttl ==> fresh_payload(spec_store(m, (key, t0, v)), key, now, ttl) == Some(v),
        now - t0 >= ttl ==> fresh_payload(spec_store(m, (key, t0, v)), key, now, ttl) is None,
{
    lemma_store_lookup(m, (key, t0, v));
}

/// Deduplication within a shard: on a cold cache the first call stores its
/// freshly produced payload, and every later same-key lookup within the
/// window observes that payload instead of recomputing. The shard lock
/// serializes the calls that make this sequence.
pub proof fn lemma_dedup_within_shard(
    m: Seq<(Seq<char>, i64, Seq<char>)>,
    key: Seq<char>,
    t0: i64,
    v: Seq<char>,
    later: i64,
    ttl: i64,
)
    requires
        spec_lookup(m, key) is None,
        0 <= later - t0 < ttl,
    ensures
        fresh_payload(m, key, later, ttl) is None,
        fresh_payload(spec_store(m, (key, t0, v)), key, later, ttl) == Some(v),
{
    lemma_store_lookup(m, (key, t0, v));
}

} // verus!
