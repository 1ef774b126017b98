//! The transport response cache, modeled: a bounded in-memory map from
//! request signature to response body with a fixed time-to-live. A call
//! site that accepts slightly stale data is served from a fresh entry;
//! one that demands revalidation always bypasses the cache.

use vstd::prelude::*;
use crate::text::str_eq;

verus! {

/// One cached response: the request signature it answers, when it was
/// stored, and the body that was served.
#[derive(Debug, Clone)]
pub struct CacheEntry {
    pub key: String,
    pub stored_at: u64,
    pub body: String,
}

/// The index of the first entry with the given key, if any.
pub open spec fn spec_cache_find(entries: Seq<CacheEntry>, key: Seq<char>) -> Option<int>
    decreases entries.len(),
{
    if entries.len() == 0 {
        None
    } else if entries[0].key@ == key {
        Some(0)
    } else {
        match spec_cache_find(entries.drop_first(), key) {
            None => None,
            Some(i) => Some(i + 1),
        }
    }
}

pub proof fn lemma_cache_find(entries: Seq<CacheEntry>, key: Seq<char>)
    ensures
        match spec_cache_find(entries, key) {
            None => forall|i: int| 0 <= i < entries.len() ==> entries[i].key@ != key,
            Some(i) => 0 <= i < entries.len() && entries[i].key@ == key && forall|k: int|
                0 <= k < i ==> entries[k].key@ != key,
        },
    decreases entries.len(),
{
    if entries.len() == 0 {
    } else if entries[0].key@ == key {
    } else {
        lemma_cache_find(entries.drop_first(), key);
        match spec_cache_find(entries.drop_first(), key) {
            None => {
                assert forall|i: int| 0 <= i < entries.len() implies entries[i].key@ != key by {
                    if i > 0 {
                        assert(entries.drop_first()[i - 1] == entries[i]);
                    }
                }
            },
            Some(j) => {
                assert(entries.drop_first()[j] == entries[j + 1]);
                assert forall|k: int| 0 <= k < j + 1 implies entries[k].key@ != key by {
                    if k > 0 {
                        assert(entries.drop_first()[k - 1] == entries[k]);
                    }
                }
            },
        }
    }
}

/// A bounded map from request signature to cached body, with a fixed
/// time-to-live.
#[derive(Debug)]
pub struct ResponseCache {
    pub entries: Vec<CacheEntry>,
    pub capacity: usize,
    pub ttl_secs: u64,
}

impl ResponseCache {
    /// Well-formed: within capacity, and one entry per signature.
    pub open spec fn wf(self) -> bool {
        &&& self.capacity >= 1
        &&& self.entries@.len() <= self.capacity
        &&& forall|i: int, j: int|
            0 <= i < j < self.entries@.len() ==> self.entries@[i].key@ != self.entries@[j].key@
    }

    /// An entry stored at `stored_at` still answers at `now`.
    pub open spec fn spec_fresh(self, stored_at: u64, now: u64) -> bool {
        stored_at <= now <= stored_at + self.ttl_secs
    }

    /// What a lookup serves: nothing when the call site demands
    /// revalidation; otherwise the body of a fresh entry for the key.
    pub open spec fn spec_lookup(self, key: Seq<char>, now: u64, prefer_cached: bool) -> Option<
        Seq<char>,
    > {
        if !prefer_cached {
            None
        } else {
            match spec_cache_find(self.entries@, key) {
                Some(i) => if self.spec_fresh(self.entries@[i].stored_at, now) {
                    Some(self.entries@[i].body@)
                } else {
                    None
                },
                None => None,
            }
        }
    }

    /// An empty cache with the given bounds; a zero capacity is raised
    /// to one, so the cache is always well-formed.
    pub fn new(capacity: usize, ttl_secs: u64) -> (r: ResponseCache)
        ensures
            r.wf(),
            r.entries@.len() == 0,
            r.capacity == if capacity >= 1 {
                capacity as int
            } else {
                1
            },
            r.ttl_secs == ttl_secs,
    {
        let cap: usize = if capacity >= 1 {
            capacity
        } else {
            1
        };
        ResponseCache { entries: Vec::new(), capacity: cap, ttl_secs }
    }

    fn find_entry(&self, key: &str) -> (r: Option<usize>)
        ensures
            match r {
                Some(i) => spec_cache_find(self.entries@, key@) == Some(i as int),
                None => spec_cache_find(self.entries@, key@) is None,
            },
    {
        proof {
            lemma_cache_find(self.entries@, key@);
        }
        let mut i: usize = 0;
        while i < self.entries.len()
            invariant
                i <= self.entries@.len(),
                forall|k: int| 0 <= k < i ==> self.entries@[k].key@ != key@,
            decreases self.entries@.len() - i,
        {
            if str_eq(self.entries[i].key.as_str(), key) {
                proof {
                    lemma_cache_find(self.entries@, key@);
                    match spec_cache_find(self.entries@, key@) {
                        None => {
                            assert(self.entries@[i as int].key@ == key@);
                        },
                        Some(j) => {
                            if j < i {
                                assert(self.entries@[j].key@ != key@);
                            }
                            if j > i {
                                assert(self.entries@[i as int].key@ != key@);
                            }
                        },
                    }
                }
                return Some(i);
            }
            i = i + 1;
        }
        proof {
            if spec_cache_find(self.entries@, key@) is Some {
                let j = spec_cache_find(self.entries@, key@)->0;
                assert(self.entries@[j].key@ != key@);
            }
        }
        None
    }

    /// Serves a fresh cached body when the call site accepts one; a call
    /// with `prefer_cached` false never reads the cache.
    pub fn lookup(&self, key: &str, now: u64, prefer_cached: bool) -> (r: Option<String>)
        ensures
            r.deep_view() == self.spec_lookup(key@, now, prefer_cached),
            !prefer_cached ==> r is None,
    {
        if !prefer_cached {
            return None;
        }
        let found = self.find_entry(key);
        match found {
            Some(i) => {
                proof {
                    lemma_cache_find(self.entries@, key@);
                    assert(spec_cache_find(self.entries@, key@) == Some(i as int));
                }
                let e = &self.entries[i];
                if e.stored_at <= now && (now as u128) <= (e.stored_at as u128) + (
                self.ttl_secs as u128) {
                    proof {
                        assert(self.spec_fresh(self.entries@[i as int].stored_at, now));
                        assert(self.spec_lookup(key@, now, true) == Some(
                            self.entries@[i as int].body@,
                        ));
                    }
                    let body = e.body.clone();
                    let r = Some(body);
                    proof {
                        assert(r.deep_view() == Some(self.entries@[i as int].body@));
                    }
                    r
                } else {
                    proof {
                        assert(!self.spec_fresh(self.entries@[i as int].stored_at, now));
                        assert(self.spec_lookup(key@, now, true) is None);
                    }
                    None
                }
            },
            None => {
                proof {
                    assert(self.spec_lookup(key@, now, true) is None);
                }
                None
            },
        }
    }

    /// Records a response body for a signature at the given time. An
    /// existing entry for the signature is replaced; past the capacity
    /// bound, the oldest-inserted entry is evicted. Within the
    /// time-to-live window, every later stale-accepting lookup of the
    /// signature is served this body — the outbound request count for
    /// the signature cannot grow until the window ends.
    pub fn store(&mut self, key: &str, now: u64, body: String)
        ensures
            old(self).wf() ==> final(self).wf(),
            final(self).capacity == old(self).capacity,
            final(self).ttl_secs == old(self).ttl_secs,
            old(self).wf() ==> forall|t2: u64|
                now <= t2 <= now + final(self).ttl_secs ==> final(self).spec_lookup(
                    key@,
                    t2,
                    true,
                ) == Some(body@),
            old(self).wf() ==> forall|j: int|
                0 <= j < final(self).entries@.len() && final(self).entries@[j].key@ != key@
                    ==> exists|i: int|
                    0 <= i < old(self).entries@.len() && old(self).entries@[i]
                        == final(self).entries@[j],
    {
        let ghost bodyv = body@;
        let new_entry = CacheEntry { key: key.to_owned(), stored_at: now, body };
        match self.find_entry(key) {
            Some(i) => {
                proof {
                    lemma_cache_find(self.entries@, key@);
                }
                self.entries.remove(i);
                self.entries.push(new_entry);
            },
            None => {
                proof {
                    lemma_cache_find(self.entries@, key@);
                }
                if self.entries.len() >= self.capacity && self.entries.len() > 0 {
                    self.entries.remove(0);
                }
                self.entries.push(new_entry);
            },
        }
        proof {
            if old(self).wf() {
                let es = self.entries@;
                let last = es.len() - 1;
                assert(es[last].key@ == key@);
                assert(forall|k: int| 0 <= k < last ==> es[k].key@ != key@);
                lemma_cache_find(es, key@);
                match spec_cache_find(es, key@) {
                    None => {
                        assert(es[last].key@ != key@);
                    },
                    Some(f) => {
                        if f < last {
                            assert(es[f].key@ != key@);
                        }
                        assert(f == last);
                    },
                }
                assert forall|t2: u64|
                    now <= t2 <= now + self.ttl_secs implies self.spec_lookup(key@, t2, true)
                    == Some(bodyv) by {
                    assert(self.spec_fresh(now, t2));
                }
            }
        }
    }
}

/// A revalidating call site never reads the cache, whatever the cache
/// holds: its request always goes out.
pub proof fn lemma_bypass_always_fetches(c: ResponseCache, key: Seq<char>, now: u64)
    ensures
        c.spec_lookup(key, now, false) is None,
{
}

} // verus!
