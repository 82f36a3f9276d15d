//! The authentication service: hashing, cache-then-store validation, and
//! key lifecycle.
//!
//! Every operation's effect on the cache and the store is captured by a
//! spec-level transition function, and the laws at the bottom of the
//! module relate those transitions: a created key validates, a revoked
//! key is rejected immediately, bootstrap is idempotent, and a validation
//! that filled the cache shields the store from repeated lookups.

use crate::cache::{fresh_at, lookup, ApiKeyCache, CacheEntryV};
use crate::errors::AuthError;
use crate::hashing::{hash_api_key, is_lower_hex_digit, key_hash_of, random_token};
use crate::models::{ApiKey, ApiKeyV, NewApiKey};
use crate::store::{
    contains_hash, counted, has_admin, idx_of_hash, record_for_hash, KeyStore,
};
use crate::FRESHNESS_WINDOW_SECS;
use vstd::prelude::*;

verus! {

/// What validating a key whose hash is `h` returns, given cache content
/// `c` and store content `s` at time `now`: the fresh cached record if one
/// exists, else the stored record, else a rejection.
pub open spec fn validate_result(
    c: Map<Seq<char>, CacheEntryV>,
    s: Seq<ApiKeyV>,
    h: Seq<char>,
    now: int,
) -> Result<ApiKeyV, AuthError> {
    match lookup(c, h, now) {
        Some(k) => Ok(k),
        None => if contains_hash(s, h) {
            Ok(record_for_hash(s, h))
        } else {
            Err(AuthError::InvalidKey)
        },
    }
}

/// The cache content after validating `h`: unchanged on a hit or a
/// rejection, filled with the stored record on a miss that resolved.
pub open spec fn validate_cache_after(
    c: Map<Seq<char>, CacheEntryV>,
    s: Seq<ApiKeyV>,
    h: Seq<char>,
    now: int,
) -> Map<Seq<char>, CacheEntryV> {
    match lookup(c, h, now) {
        Some(_) => c,
        None => if contains_hash(s, h) {
            c.insert(h, CacheEntryV { api_key: record_for_hash(s, h), cached_at: now })
        } else {
            c
        },
    }
}

/// Whether validating `h` at `now` is served by the cache alone, without
/// a store round-trip.
pub open spec fn validate_hits_cache(
    c: Map<Seq<char>, CacheEntryV>,
    h: Seq<char>,
    now: int,
) -> bool {
    lookup(c, h, now) is Some
}

/// The admin record bootstrap inserts.
pub open spec fn bootstrap_record(h: Seq<char>, id: int, now: int) -> ApiKeyV {
    ApiKeyV { id, key_hash: h, is_admin: true, created_at: now, last_used_at: None }
}

/// The store content after an admin bootstrap from a secret whose hash is
/// `h`: untouched when an admin already exists or when the hash collides
/// with an existing record, extended by one admin record otherwise.
pub open spec fn bootstrap_after(s: Seq<ApiKeyV>, h: Seq<char>, id: int, now: int) -> Seq<
    ApiKeyV,
> {
    if has_admin(s) {
        s
    } else if contains_hash(s, h) {
        s
    } else {
        s.push(bootstrap_record(h, id, now))
    }
}

/// Whether an admin bootstrap succeeds: it fails only when no admin
/// exists and the configured secret's hash collides with a non-admin
/// record.
pub open spec fn bootstrap_result(s: Seq<ApiKeyV>, h: Seq<char>) -> Result<(), AuthError> {
    if has_admin(s) {
        Ok(())
    } else if contains_hash(s, h) {
        Err(AuthError::Bootstrap)
    } else {
        Ok(())
    }
}

/// Orchestrates hashing, cache-then-store lookup and key lifecycle. The
/// service owns the cache; the store is handed in by the caller that owns
/// the process's record store.
pub struct AuthService {
    cache: ApiKeyCache,
}

impl View for AuthService {
    type V = Map<Seq<char>, CacheEntryV>;

    closed spec fn view(&self) -> Map<Seq<char>, CacheEntryV> {
        self.cache@
    }
}

impl AuthService {
    /// The service's internal invariant.
    pub closed spec fn wf(&self) -> bool {
        self.cache.wf()
    }

    /// A service with an empty cache.
    pub fn new() -> (r: Self)
        ensures
            r.wf(),
            r@ == Map::<Seq<char>, CacheEntryV>::empty(),
    {
        AuthService { cache: ApiKeyCache::new() }
    }

    /// Produce a fresh plaintext token: `ak_` followed by 32 random
    /// lowercase hex digits. It is shown to the caller exactly once; only
    /// its hash is ever stored.
    pub fn generate_api_key() -> (r: String)
        ensures
            r@.len() == 35,
            r@.subrange(0, 3) == "ak_"@,
            forall|i: int| 3 <= i < 35 ==> is_lower_hex_digit(#[trigger] r@[i]),
    {
        random_token()
    }

    /// Validate a presented secret: serve a fresh cache entry if one
    /// exists, otherwise look the hash up in the store, filling the cache
    /// on success. Rejects unknown keys with `InvalidKey`. The store's
    /// records are never changed, and its lookup counter moves only on a
    /// cache miss.
    pub fn validate_api_key(&mut self, store: &mut KeyStore, key: &str, now: u64) -> (r:
        Result<ApiKey, AuthError>)
        requires
            old(self).wf(),
            old(store).wf(),
        ensures
            final(self).wf(),
            final(store).wf(),
            final(store)@ == old(store)@,
            final(store).next_id() == old(store).next_id(),
            final(store).lookups() == if validate_hits_cache(
                old(self)@,
                key_hash_of(key@),
                now as int,
            ) {
                old(store).lookups()
            } else {
                counted(old(store).lookups())
            },
            final(self)@ == validate_cache_after(
                old(self)@,
                old(store)@,
                key_hash_of(key@),
                now as int,
            ),
            match r {
                Ok(k) => validate_result(old(self)@, old(store)@, key_hash_of(key@), now as int)
                    == Ok::<ApiKeyV, AuthError>(k@),
                Err(e) => validate_result(old(self)@, old(store)@, key_hash_of(key@), now as int)
                    == Err::<ApiKeyV, AuthError>(e),
            },
    {
        let key_hash = hash_api_key(key);
        if let Some(cached) = self.cache.get(key_hash.as_str(), now) {
            return Ok(cached);
        }
        match store.find_by_hash(key_hash.as_str()) {
            Some(api_key) => {
                self.cache.insert(key_hash, api_key.clone(), now);
                Ok(api_key)
            },
            None => Err(AuthError::InvalidKey),
        }
    }

    /// Create a key for a presented secret: insert a record with the given
    /// privilege flag and a server-assigned creation time, fill the cache,
    /// and hand the record back. Fails with `DuplicateKey` exactly when a
    /// record with the secret's hash already exists.
    pub fn create_api_key(&mut self, store: &mut KeyStore, key: &str, is_admin: bool, now: u64)
        -> (r: Result<ApiKey, AuthError>)
        requires
            old(self).wf(),
            old(store).wf(),
            old(store).next_id() < i32::MAX,
        ensures
            final(self).wf(),
            final(store).wf(),
            final(store).lookups() == old(store).lookups(),
            match r {
                Ok(k) => {
                    &&& !contains_hash(old(store)@, key_hash_of(key@))
                    &&& k@ == (ApiKeyV {
                        id: old(store).next_id(),
                        key_hash: key_hash_of(key@),
                        is_admin,
                        created_at: now as int,
                        last_used_at: None,
                    })
                    &&& final(store)@ == old(store)@.push(k@)
                    &&& final(store).next_id() == old(store).next_id() + 1
                    &&& final(self)@ == old(self)@.insert(
                        key_hash_of(key@),
                        CacheEntryV { api_key: k@, cached_at: now as int },
                    )
                },
                Err(e) => {
                    &&& e == AuthError::DuplicateKey
                    &&& contains_hash(old(store)@, key_hash_of(key@))
                    &&& final(store)@ == old(store)@
                    &&& final(store).next_id() == old(store).next_id()
                    &&& final(self)@ == old(self)@
                },
            },
    {
        let key_hash = hash_api_key(key);
        let new_key = NewApiKey { key_hash: key_hash.clone(), is_admin };
        match store.insert(new_key, now) {
            Ok(api_key) => {
                self.cache.insert(key_hash, api_key.clone(), now);
                Ok(api_key)
            },
            Err(e) => Err(e),
        }
    }

    /// Revoke the key for a presented secret: delete its record from the
    /// store and drop its cache entry, so the key stops validating at
    /// once rather than at cache expiry. Revoking an unknown secret is a
    /// no-op that still succeeds.
    pub fn revoke_api_key(&mut self, store: &mut KeyStore, key: &str) -> (r: Result<
        (),
        AuthError,
    >)
        requires
            old(self).wf(),
            old(store).wf(),
        ensures
            final(self).wf(),
            final(store).wf(),
            r is Ok,
            final(store).next_id() == old(store).next_id(),
            final(store).lookups() == old(store).lookups(),
            !contains_hash(final(store)@, key_hash_of(key@)),
            if contains_hash(old(store)@, key_hash_of(key@)) {
                final(store)@ == old(store)@.remove(
                    idx_of_hash(old(store)@, key_hash_of(key@)),
                )
            } else {
                final(store)@ == old(store)@
            },
            final(self)@ == old(self)@.remove(key_hash_of(key@)),
            !final(self)@.contains_key(key_hash_of(key@)),
    {
        let key_hash = hash_api_key(key);
        store.delete_by_hash(key_hash.as_str());
        self.cache.remove(key_hash.as_str());
        Ok(())
    }

    /// Enumerate every record, from the store; the cache is not
    /// authoritative for listing.
    pub fn list_api_keys(&self, store: &KeyStore) -> (r: Result<Vec<ApiKey>, AuthError>)
        ensures
            match r {
                Ok(v) => v@.len() == store@.len() && forall|i: int|
                    0 <= i < v@.len() ==> (#[trigger] v@[i])@ == store@[i],
                Err(_) => false,
            },
    {
        Ok(store.list_all())
    }

    /// Stamp the record with id `key_id` as last used at `now`. This is
    /// observability only: it never fails and touches nothing else.
    pub fn update_last_used(&self, store: &mut KeyStore, key_id: i32, now: u64)
        requires
            old(store).wf(),
        ensures
            final(store).wf(),
            final(store).next_id() == old(store).next_id(),
            final(store).lookups() == old(store).lookups(),
            final(store)@.len() == old(store)@.len(),
            forall|j: int|
                0 <= j < old(store)@.len() && (#[trigger] old(store)@[j]).id != key_id
                    ==> final(store)@[j] == old(store)@[j],
            forall|j: int|
                0 <= j < old(store)@.len() && (#[trigger] old(store)@[j]).id == key_id
                    ==> final(store)@[j] == (ApiKeyV {
                    last_used_at: Some(now as int),
                    ..old(store)@[j]
                }),
    {
        store.update_last_used(key_id, now);
    }

    /// Evict every cache entry that is no longer fresh at `now`.
    pub fn cleanup_cache(&mut self, now: u64)
        requires
            old(self).wf(),
        ensures
            final(self).wf(),
            forall|k: Seq<char>|
                #[trigger] final(self)@.contains_key(k) <==> (old(self)@.contains_key(k)
                    && fresh_at(old(self)@[k].cached_at, now as int)),
            forall|k: Seq<char>|
                final(self)@.contains_key(k) ==> final(self)@[k] == old(self)@[k],
    {
        self.cache.cleanup_expired(now);
    }

    /// Idempotent admin bootstrap: if any admin record exists this is a
    /// no-op; otherwise exactly one admin record is created from the
    /// configured secret. Fails with `Bootstrap` only when the secret's
    /// hash collides with an existing non-admin record.
    pub fn ensure_admin_exists(&self, store: &mut KeyStore, admin_secret: &str, now: u64)
        -> (r: Result<(), AuthError>)
        requires
            old(store).wf(),
            old(store).next_id() < i32::MAX,
        ensures
            final(store).wf(),
            final(store)@ == bootstrap_after(
                old(store)@,
                key_hash_of(admin_secret@),
                old(store).next_id(),
                now as int,
            ),
            r == bootstrap_result(old(store)@, key_hash_of(admin_secret@)),
            r is Ok ==> has_admin(final(store)@),
            final(store).lookups() == old(store).lookups(),
    {
        if store.has_admin_record() {
            return Ok(());
        }
        let key_hash = hash_api_key(admin_secret);
        let new_key = NewApiKey { key_hash, is_admin: true };
        match store.insert(new_key, now) {
            Ok(record) => {
                proof {
                    assert(store@[store@.len() - 1].is_admin);
                }
                Ok(())
            },
            Err(_) => Err(AuthError::Bootstrap),
        }
    }
}

/// Law: a freshly created key validates. If a record `rec` was created
/// for a hash not previously present — the store gained `rec` and the
/// cache was filled at `t_create` — then validating that hash at any
/// later (or earlier) time `t` succeeds and returns `rec`, with its
/// privilege flag intact.
pub proof fn lemma_create_then_validate(
    c: Map<Seq<char>, CacheEntryV>,
    s: Seq<ApiKeyV>,
    rec: ApiKeyV,
    t_create: int,
    t: int,
)
    requires
        !contains_hash(s, rec.key_hash),
    ensures
        validate_result(
            c.insert(rec.key_hash, CacheEntryV { api_key: rec, cached_at: t_create }),
            s.push(rec),
            rec.key_hash,
            t,
        ) == Ok::<ApiKeyV, AuthError>(rec),
{
    let h = rec.key_hash;
    let c1 = c.insert(h, CacheEntryV { api_key: rec, cached_at: t_create });
    let s1 = s.push(rec);
    if !fresh_at(t_create, t) {
        assert(s1[s.len() as int].key_hash == h);
        assert(contains_hash(s1, h));
        let j = idx_of_hash(s1, h);
        assert(0 <= j < s1.len() && s1[j].key_hash == h);
        if j < s.len() {
            assert(s[j].key_hash == h);
            assert(contains_hash(s, h));
        }
        assert(record_for_hash(s1, h) == rec);
    }
}

/// Law: a revoked key is rejected immediately. Once neither the cache nor
/// the store holds the hash — which revocation ensures — validation fails
/// with `InvalidKey` at every time, with no waiting for cache expiry.
pub proof fn lemma_revoked_key_rejected(
    c: Map<Seq<char>, CacheEntryV>,
    s: Seq<ApiKeyV>,
    h: Seq<char>,
    now: int,
)
    requires
        !c.contains_key(h),
        !contains_hash(s, h),
    ensures
        validate_result(c, s, h, now) == Err::<ApiKeyV, AuthError>(AuthError::InvalidKey),
{
}

/// Law: admin bootstrap is idempotent. After a successful bootstrap an
/// admin record exists, and any further bootstrap — whatever secret,
/// id or time it runs with — leaves the store exactly as it was and
/// succeeds.
pub proof fn lemma_bootstrap_idempotent(
    s: Seq<ApiKeyV>,
    h: Seq<char>,
    id: int,
    now: int,
    h2: Seq<char>,
    id2: int,
    now2: int,
)
    requires
        bootstrap_result(s, h) is Ok,
    ensures
        ({
            let s1 = bootstrap_after(s, h, id, now);
            &&& has_admin(s1)
            &&& bootstrap_after(s1, h2, id2, now2) == s1
            &&& bootstrap_result(s1, h2) == Ok::<(), AuthError>(())
        }),
{
    let s1 = bootstrap_after(s, h, id, now);
    if !has_admin(s) {
        assert(s1[s.len() as int].is_admin);
    }
}

/// Law: one resolved miss shields the store. Validating an uncached but
/// stored hash fills the cache; any further validation of the same hash
/// within the freshness window is a pure cache hit — it returns the same
/// record, leaves the cache unchanged, and (by the contract of
/// `validate_api_key`) performs no store lookup.
pub proof fn lemma_validate_fills_cache(
    c: Map<Seq<char>, CacheEntryV>,
    s: Seq<ApiKeyV>,
    h: Seq<char>,
    now: int,
    t: int,
)
    requires
        !c.contains_key(h),
        contains_hash(s, h),
        now <= t < now + FRESHNESS_WINDOW_SECS as int,
    ensures
        ({
            let c1 = validate_cache_after(c, s, h, now);
            &&& validate_result(c, s, h, now) == Ok::<ApiKeyV, AuthError>(record_for_hash(s, h))
            &&& validate_hits_cache(c1, h, t)
            &&& validate_result(c1, s, h, t) == validate_result(c, s, h, now)
            &&& validate_cache_after(c1, s, h, t) == c1
        }),
{
}

} // verus!
