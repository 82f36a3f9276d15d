//! Bounded-staleness in-memory cache from key hash to validated record.
//!
//! The cache is a derived, disposable view of the store: entries expire
//! lazily once their age reaches the freshness window, and revocation
//! removes them eagerly. It is modelled as a map from hash to entry; the
//! backing vector keeps one slot per key.

use crate::models::{ApiKey, ApiKeyV};
use crate::strutil::str_eq;
use crate::FRESHNESS_WINDOW_SECS;
use vstd::prelude::*;

verus! {

/// Mathematical view of a [`CacheEntry`].
pub struct CacheEntryV {
    pub api_key: ApiKeyV,
    pub cached_at: int,
}

/// A cached record together with the second at which it was inserted.
#[derive(Debug)]
pub struct CacheEntry {
    pub api_key: ApiKey,
    pub cached_at: u64,
}

impl View for CacheEntry {
    type V = CacheEntryV;

    open spec fn view(&self) -> CacheEntryV {
        CacheEntryV { api_key: self.api_key@, cached_at: self.cached_at as int }
    }
}

impl Clone for CacheEntry {
    fn clone(&self) -> (res: Self)
        ensures
            res == *self,
    {
        CacheEntry { api_key: self.api_key.clone(), cached_at: self.cached_at }
    }
}

/// An entry inserted at `cached_at` is still served at `now`: less than the
/// freshness window has elapsed.
pub open spec fn fresh_at(cached_at: int, now: int) -> bool {
    cached_at <= now && now - cached_at < FRESHNESS_WINDOW_SECS as int
}

/// What a lookup at `now` yields on a cache whose content is `m`: the
/// cached record only if its entry is still fresh, absent otherwise.
pub open spec fn lookup(m: Map<Seq<char>, CacheEntryV>, k: Seq<char>, now: int) -> Option<
    ApiKeyV,
> {
    if m.contains_key(k) && fresh_at(m[k].cached_at, now) {
        Some(m[k].api_key)
    } else {
        None
    }
}

/// The in-memory cache: one slot per key hash.
pub struct ApiKeyCache {
    entries: Vec<(String, CacheEntry)>,
}

/// No two slots share a key.
spec fn unique_keys(s: Seq<(String, CacheEntry)>) -> bool {
    forall|i: int, j: int|
        0 <= i < j < s.len() ==> (#[trigger] s[i]).0@ != (#[trigger] s[j]).0@
}

/// The map a slot sequence denotes; later slots win, though under
/// `unique_keys` there is never a collision.
spec fn entries_map(s: Seq<(String, CacheEntry)>) -> Map<Seq<char>, CacheEntryV>
    decreases s.len(),
{
    if s.len() == 0 {
        Map::empty()
    } else {
        entries_map(s.drop_last()).insert(s.last().0@, s.last().1@)
    }
}

proof fn lemma_entries_map_domain(s: Seq<(String, CacheEntry)>, h: Seq<char>)
    ensures
        entries_map(s).contains_key(h) <==> exists|i: int|
            0 <= i < s.len() && (#[trigger] s[i]).0@ == h,
    decreases s.len(),
{
    if s.len() > 0 {
        let s0 = s.drop_last();
        lemma_entries_map_domain(s0, h);
        if s.last().0@ == h {
            assert(s[s.len() - 1].0@ == h);
        } else {
            if entries_map(s).contains_key(h) {
                let i = choose|i: int| 0 <= i < s0.len() && (#[trigger] s0[i]).0@ == h;
                assert(s[i].0@ == h);
            }
            if exists|i: int| 0 <= i < s.len() && (#[trigger] s[i]).0@ == h {
                let i = choose|i: int| 0 <= i < s.len() && (#[trigger] s[i]).0@ == h;
                assert(i < s.len() - 1);
                assert(s0[i].0@ == h);
            }
        }
    }
}

proof fn lemma_entries_map_at(s: Seq<(String, CacheEntry)>, i: int)
    requires
        unique_keys(s),
        0 <= i < s.len(),
    ensures
        entries_map(s).contains_key(s[i].0@),
        entries_map(s)[s[i].0@] == s[i].1@,
    decreases s.len(),
{
    if i == s.len() - 1 {
    } else {
        assert(s[i].0@ != s.last().0@);
        lemma_entries_map_at(s.drop_last(), i);
    }
}

proof fn lemma_entries_map_push(s: Seq<(String, CacheEntry)>, p: (String, CacheEntry))
    ensures
        entries_map(s.push(p)) == entries_map(s).insert(p.0@, p.1@),
{
    assert(s.push(p).drop_last() =~= s);
    assert(s.push(p).last() == p);
}

proof fn lemma_entries_map_remove_at(s: Seq<(String, CacheEntry)>, i: int)
    requires
        unique_keys(s),
        0 <= i < s.len(),
    ensures
        entries_map(s.remove(i)) == entries_map(s).remove(s[i].0@),
    decreases s.len(),
{
    let h = s[i].0@;
    if i == s.len() - 1 {
        assert(s.remove(i) =~= s.drop_last());
        lemma_entries_map_domain(s.drop_last(), h);
        assert(!entries_map(s.drop_last()).contains_key(h));
        assert(entries_map(s.drop_last()) =~= entries_map(s.drop_last()).insert(
            h,
            s.last().1@,
        ).remove(h));
    } else {
        lemma_entries_map_remove_at(s.drop_last(), i);
        assert(s.remove(i).drop_last() =~= s.drop_last().remove(i));
        assert(s.remove(i).last() == s.last());
        assert(s[i].0@ != s.last().0@);
        assert(entries_map(s.drop_last()).remove(h).insert(s.last().0@, s.last().1@)
            =~= entries_map(s.drop_last()).insert(s.last().0@, s.last().1@).remove(h));
    }
}

impl View for ApiKeyCache {
    type V = Map<Seq<char>, CacheEntryV>;

    closed spec fn view(&self) -> Map<Seq<char>, CacheEntryV> {
        entries_map(self.entries@)
    }
}

impl Default for ApiKeyCache {
    fn default() -> (r: Self)
        ensures
            r.wf(),
            r@ == Map::<Seq<char>, CacheEntryV>::empty(),
    {
        ApiKeyCache::new()
    }
}

impl ApiKeyCache {
    /// The cache's internal invariant: one slot per key.
    pub closed spec fn wf(&self) -> bool {
        unique_keys(self.entries@)
    }

    /// An empty cache.
    pub fn new() -> (r: Self)
        ensures
            r.wf(),
            r@ == Map::<Seq<char>, CacheEntryV>::empty(),
    {
        ApiKeyCache { entries: Vec::new() }
    }

    /// Return the record cached under `key_hash`, but only while its entry
    /// is fresh at `now`; an expired or absent entry reads as absent.
    pub fn get(&self, key_hash: &str, now: u64) -> (r: Option<ApiKey>)
        requires
            self.wf(),
        ensures
            match r {
                Some(k) => lookup(self@, key_hash@, now as int) == Some(k@),
                None => lookup(self@, key_hash@, now as int) is None,
            },
    {
        let n = self.entries.len();
        let mut i: usize = 0;
        while i < n
            invariant
                self.wf(),
                n == self.entries@.len(),
                i <= n,
                forall|j: int| 0 <= j < i ==> (#[trigger] self.entries@[j]).0@ != key_hash@,
            decreases n - i,
        {
            let slot = &self.entries[i];
            if str_eq(slot.0.as_str(), key_hash) {
                proof {
                    lemma_entries_map_at(self.entries@, i as int);
                }
                let entry = &slot.1;
                if now >= entry.cached_at && now - entry.cached_at < FRESHNESS_WINDOW_SECS {
                    return Some(entry.api_key.clone());
                } else {
                    return None;
                }
            }
            i += 1;
        }
        proof {
            lemma_entries_map_domain(self.entries@, key_hash@);
        }
        None
    }

    /// Delete the entry under `key_hash` if one is present; idempotent.
    pub fn remove(&mut self, key_hash: &str)
        requires
            old(self).wf(),
        ensures
            final(self).wf(),
            final(self)@ == old(self)@.remove(key_hash@),
    {
        let n = self.entries.len();
        let mut i: usize = 0;
        while i < n
            invariant
                self.wf(),
                self.entries@ == old(self).entries@,
                n == self.entries@.len(),
                i <= n,
                forall|j: int| 0 <= j < i ==> (#[trigger] self.entries@[j]).0@ != key_hash@,
            decreases n - i,
        {
            let hit = str_eq(self.entries[i].0.as_str(), key_hash);
            if hit {
                proof {
                    lemma_entries_map_remove_at(self.entries@, i as int);
                }
                self.entries.remove(i);
                proof {
                    assert forall|a: int, b: int|
                        0 <= a < b < self.entries@.len() implies (#[trigger] self.entries@[a]).0@
                        != (#[trigger] self.entries@[b]).0@ by {
                        let a0 = if a < i as int { a } else { a + 1 };
                        let b0 = if b < i as int { b } else { b + 1 };
                        assert(old(self).entries@[a0].0@ != old(self).entries@[b0].0@);
                    }
                }
                return ;
            }
            i += 1;
        }
        proof {
            lemma_entries_map_domain(self.entries@, key_hash@);
            assert(self@ =~= self@.remove(key_hash@));
        }
    }

    /// Cache `api_key` under `key_hash`, overwriting any existing entry and
    /// stamping the entry with `now`.
    pub fn insert(&mut self, key_hash: String, api_key: ApiKey, now: u64)
        requires
            old(self).wf(),
        ensures
            final(self).wf(),
            final(self)@ == old(self)@.insert(
                key_hash@,
                CacheEntryV { api_key: api_key@, cached_at: now as int },
            ),
    {
        self.remove(key_hash.as_str());
        let ghost pruned = self.entries@;
        proof {
            lemma_entries_map_domain(pruned, key_hash@);
            lemma_entries_map_push(
                pruned,
                (key_hash, CacheEntry { api_key, cached_at: now }),
            );
        }
        let entry = CacheEntry { api_key, cached_at: now };
        self.entries.push((key_hash, entry));
        proof {
            assert(forall|j: int|
                0 <= j < pruned.len() ==> (#[trigger] pruned[j]).0@ != key_hash@);
            assert(self@ =~= old(self)@.insert(
                key_hash@,
                CacheEntryV { api_key: api_key@, cached_at: now as int },
            ));
        }
    }

    /// Eagerly evict every entry that is no longer fresh at `now`. Fresh
    /// entries are kept unchanged.
    pub fn cleanup_expired(&mut self, now: u64)
        requires
            old(self).wf(),
        ensures
            final(self).wf(),
            forall|k: Seq<char>|
                #[trigger] final(self)@.contains_key(k) <==> (old(self)@.contains_key(k)
                    && fresh_at(old(self)@[k].cached_at, now as int)),
            forall|k: Seq<char>|
                final(self)@.contains_key(k) ==> final(self)@[k] == old(self)@[k],
    {
        let n = self.entries.len();
        let mut kept: Vec<(String, CacheEntry)> = Vec::new();
        let mut i: usize = 0;
        while i < n
            invariant
                self.wf(),
                self.entries@ == old(self).entries@,
                n == self.entries@.len(),
                i <= n,
                unique_keys(kept@),
                forall|a: int|
                    0 <= a < kept@.len() ==> exists|j: int|
                        0 <= j < i && #[trigger] kept@[a] == self.entries@[j],
                forall|k: Seq<char>|
                    #[trigger] entries_map(kept@).contains_key(k) <==> exists|j: int|
                        0 <= j < i && (#[trigger] self.entries@[j]).0@ == k && fresh_at(
                            self.entries@[j].1@.cached_at,
                            now as int,
                        ),
                forall|a: int|
                    0 <= a < kept@.len() ==> entries_map(kept@)[(#[trigger] kept@[a]).0@]
                        == kept@[a].1@,
            decreases n - i,
        {
            let slot = &self.entries[i];
            if now >= slot.1.cached_at && now - slot.1.cached_at < FRESHNESS_WINDOW_SECS {
                let pushed = (slot.0.clone(), slot.1.clone());
                proof {
                    assert(pushed == self.entries@[i as int]);
                    assert(forall|a: int|
                        0 <= a < kept@.len() ==> (#[trigger] kept@[a]).0@
                            != self.entries@[i as int].0@);
                    lemma_entries_map_push(kept@, pushed);
                }
                kept.push(pushed);
                proof {
                    assert(forall|a: int|
                        0 <= a < kept@.len() - 1 ==> entries_map(kept@)[(
                        #[trigger] kept@[a]).0@] == kept@[a].1@) by {
                        assert(forall|a: int|
                            0 <= a < kept@.len() - 1 ==> (#[trigger] kept@[a]).0@ != kept@[
                            kept@.len() - 1].0@);
                    }
                }
            }
            i += 1;
        }
        self.entries = kept;
        proof {
            assert forall|k: Seq<char>| #[trigger]
                self@.contains_key(k) implies (old(self)@.contains_key(k) && fresh_at(
                old(self)@[k].cached_at,
                now as int,
            )) by {
                let j = choose|j: int|
                    0 <= j < n && (#[trigger] old(self).entries@[j]).0@ == k && fresh_at(
                        old(self).entries@[j].1@.cached_at,
                        now as int,
                    );
                lemma_entries_map_at(old(self).entries@, j);
            }
            assert forall|k: Seq<char>| old(self)@.contains_key(k) && fresh_at(
                old(self)@[k].cached_at,
                now as int,
            ) implies #[trigger] self@.contains_key(k) by {
                lemma_entries_map_domain(old(self).entries@, k);
                let j = choose|j: int| 0 <= j < n && (#[trigger] old(self).entries@[j]).0@ == k;
                lemma_entries_map_at(old(self).entries@, j);
            }
            assert forall|k: Seq<char>| #[trigger]
                self@.contains_key(k) implies self@[k] == old(self)@[k] by {
                lemma_entries_map_domain(self.entries@, k);
                let a = choose|a: int|
                    0 <= a < self.entries@.len() && (#[trigger] self.entries@[a]).0@ == k;
                lemma_entries_map_at(self.entries@, a);
                let j = choose|j: int|
                    0 <= j < n && #[trigger] self.entries@[a] == old(self).entries@[j];
                lemma_entries_map_at(old(self).entries@, j);
            }
        }
    }
}

/// Law: inserting a record at `t_ins` and looking it up at `t_get` yields
/// the cached copy exactly while less than the freshness window has
/// elapsed, and reads as absent from the window boundary on.
pub proof fn lemma_insert_then_lookup(
    c0: Map<Seq<char>, CacheEntryV>,
    k: Seq<char>,
    rec: ApiKeyV,
    t_ins: int,
    t_get: int,
)
    ensures
        lookup(c0.insert(k, CacheEntryV { api_key: rec, cached_at: t_ins }), k, t_get) == (
        if fresh_at(t_ins, t_get) {
            Some(rec)
        } else {
            None::<ApiKeyV>
        }),
{
}

} // verus!
