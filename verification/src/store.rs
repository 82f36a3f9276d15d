//! The record store that owns the API-key records of record.
//!
//! The persistent engine behind the original service is an external
//! collaborator reached over a connection; here its observable contract —
//! an append-ordered collection of records, reachable by hash and by
//! numeric id, with unique hashes and store-assigned ids — is modelled
//! directly, so that every lifecycle decision made on top of it is
//! verified. The store also counts hash lookups, which makes the
//! cache-shielding behaviour of the validation path observable.

use crate::errors::AuthError;
use crate::models::{ApiKey, ApiKeyV, NewApiKey};
use crate::strutil::str_eq;
use vstd::pervasive::VecAdditionalExecFns;
use vstd::prelude::*;

verus! {

/// Some record in `s` carries this hash.
pub open spec fn contains_hash(s: Seq<ApiKeyV>, h: Seq<char>) -> bool {
    exists|i: int| 0 <= i < s.len() && (#[trigger] s[i]).key_hash == h
}

/// Some record in `s` has the admin flag set.
pub open spec fn has_admin(s: Seq<ApiKeyV>) -> bool {
    exists|i: int| 0 <= i < s.len() && (#[trigger] s[i]).is_admin
}

/// No two records in `s` share a hash.
pub open spec fn unique_hashes(s: Seq<ApiKeyV>) -> bool {
    forall|i: int, j: int|
        0 <= i < j < s.len() ==> (#[trigger] s[i]).key_hash != (#[trigger] s[j]).key_hash
}

/// No two records in `s` share an id.
pub open spec fn unique_ids(s: Seq<ApiKeyV>) -> bool {
    forall|i: int, j: int|
        0 <= i < j < s.len() ==> (#[trigger] s[i]).id != (#[trigger] s[j]).id
}

/// The position of the record carrying hash `h`.
pub open spec fn idx_of_hash(s: Seq<ApiKeyV>, h: Seq<char>) -> int {
    choose|i: int| 0 <= i < s.len() && (#[trigger] s[i]).key_hash == h
}

/// The record carrying hash `h`.
pub open spec fn record_for_hash(s: Seq<ApiKeyV>, h: Seq<char>) -> ApiKeyV {
    s[idx_of_hash(s, h)]
}

/// Under unique hashes, the record looked up for a hash is the record at
/// any position carrying that hash.
pub proof fn lemma_record_for_hash_unique(s: Seq<ApiKeyV>, i: int)
    requires
        unique_hashes(s),
        0 <= i < s.len(),
    ensures
        contains_hash(s, s[i].key_hash),
        idx_of_hash(s, s[i].key_hash) == i,
        record_for_hash(s, s[i].key_hash) == s[i],
{
    assert(contains_hash(s, s[i].key_hash));
    let j = idx_of_hash(s, s[i].key_hash);
    assert(0 <= j < s.len() && s[j].key_hash == s[i].key_hash);
    if j < i {
        assert(s[j].key_hash != s[i].key_hash);
    } else if i < j {
        assert(s[i].key_hash != s[j].key_hash);
    }
}

/// A saturated counter step: the lookup counter never wraps.
pub open spec fn counted(x: u64) -> u64 {
    if x == u64::MAX {
        x
    } else {
        (x + 1) as u64
    }
}

/// The record store. `records` is in insertion order; `next_id` is the id
/// the next inserted record receives; `lookups` counts `find_by_hash`
/// calls.
pub struct KeyStore {
    records: Vec<ApiKey>,
    next_id: i32,
    lookups: u64,
}

impl View for KeyStore {
    type V = Seq<ApiKeyV>;

    closed spec fn view(&self) -> Seq<ApiKeyV> {
        self.records@.map(|i: int, k: ApiKey| k@)
    }
}

impl KeyStore {
    /// The id the next inserted record will receive.
    pub closed spec fn next_id(&self) -> int {
        self.next_id as int
    }

    /// How many hash lookups have reached the store.
    pub closed spec fn lookups(&self) -> u64 {
        self.lookups
    }

    /// The store's internal invariant: unique hashes, unique ids, every id
    /// already assigned lies below `next_id`.
    pub closed spec fn wf(&self) -> bool {
        &&& unique_hashes(self@)
        &&& unique_ids(self@)
        &&& forall|i: int| 0 <= i < self@.len() ==> 1 <= (#[trigger] self@[i]).id < self.next_id
        &&& 1 <= self.next_id
    }

    /// An empty store; ids are assigned from 1 on.
    pub fn new() -> (r: Self)
        ensures
            r.wf(),
            r@ == Seq::<ApiKeyV>::empty(),
            r.next_id() == 1,
            r.lookups() == 0,
    {
        let r = KeyStore { records: Vec::new(), next_id: 1, lookups: 0 };
        proof {
            assert(r@ =~= Seq::<ApiKeyV>::empty());
        }
        r
    }

    /// Whether the store can still assign a fresh id; callers check this
    /// before inserting.
    pub fn can_assign_id(&self) -> (r: bool)
        ensures
            r == (self.next_id() < i32::MAX as int),
    {
        self.next_id < i32::MAX
    }

    /// The lookup counter, for observing whether a validation path reached
    /// the store.
    pub fn lookup_count(&self) -> (r: u64)
        ensures
            r == self.lookups(),
    {
        self.lookups
    }

    /// Look a record up by hash, counting the lookup. Returns the unique
    /// record carrying the hash, or `None` when no record does.
    pub fn find_by_hash(&mut self, key_hash: &str) -> (r: Option<ApiKey>)
        requires
            old(self).wf(),
        ensures
            final(self).wf(),
            final(self)@ == old(self)@,
            final(self).next_id() == old(self).next_id(),
            final(self).lookups() == counted(old(self).lookups()),
            match r {
                Some(k) => contains_hash(old(self)@, key_hash@) && k@ == record_for_hash(
                    old(self)@,
                    key_hash@,
                ),
                None => !contains_hash(old(self)@, key_hash@),
            },
    {
        if self.lookups < u64::MAX {
            self.lookups = self.lookups + 1;
        }
        let n = self.records.len();
        let mut i: usize = 0;
        while i < n
            invariant
                old(self).wf(),
                n == self.records@.len(),
                self.records@ == old(self).records@,
                self.next_id == old(self).next_id,
                self.lookups == counted(old(self).lookups()),
                i <= n,
                forall|j: int| 0 <= j < i ==> (#[trigger] self@[j]).key_hash != key_hash@,
            decreases n - i,
        {
            let rec = &self.records[i];
            assert(rec@ == self@[i as int]);
            if str_eq(rec.key_hash.as_str(), key_hash) {
                proof {
                    lemma_record_for_hash_unique(self@, i as int);
                }
                return Some(rec.clone());
            }
            i += 1;
        }
        None
    }

    /// Insert a record for a hash not yet present. The store assigns the
    /// id and the creation timestamp; the new record's privilege flag is
    /// taken from `new_key`. A hash collision leaves the store unchanged
    /// and reports a duplicate.
    pub fn insert(&mut self, new_key: NewApiKey, now: u64) -> (r: Result<ApiKey, AuthError>)
        requires
            old(self).wf(),
            old(self).next_id() < i32::MAX,
        ensures
            final(self).wf(),
            final(self).lookups() == old(self).lookups(),
            match r {
                Ok(k) => {
                    &&& !contains_hash(old(self)@, new_key.key_hash@)
                    &&& k@ == (ApiKeyV {
                        id: old(self).next_id(),
                        key_hash: new_key.key_hash@,
                        is_admin: new_key.is_admin,
                        created_at: now as int,
                        last_used_at: None,
                    })
                    &&& final(self)@ == old(self)@.push(k@)
                    &&& final(self).next_id() == old(self).next_id() + 1
                },
                Err(e) => {
                    &&& e == AuthError::DuplicateKey
                    &&& contains_hash(old(self)@, new_key.key_hash@)
                    &&& final(self)@ == old(self)@
                    &&& final(self).next_id() == old(self).next_id()
                },
            },
    {
        let n = self.records.len();
        let mut i: usize = 0;
        while i < n
            invariant
                old(self).wf(),
                n == self.records@.len(),
                self.records@ == old(self).records@,
                self.next_id == old(self).next_id,
                self.lookups == old(self).lookups,
                i <= n,
                forall|j: int| 0 <= j < i ==> (#[trigger] self@[j]).key_hash != new_key.key_hash@,
            decreases n - i,
        {
            let rec = &self.records[i];
            assert(rec@ == self@[i as int]);
            if str_eq(rec.key_hash.as_str(), new_key.key_hash.as_str()) {
                assert(contains_hash(self@, new_key.key_hash@));
                return Err(AuthError::DuplicateKey);
            }
            i += 1;
        }
        let record = ApiKey {
            id: self.next_id,
            key_hash: new_key.key_hash,
            is_admin: new_key.is_admin,
            created_at: now,
            last_used_at: None,
        };
        let result = record.clone();
        let ghost before = self@;
        self.records.push(record);
        self.next_id = self.next_id + 1;
        proof {
            assert(self@ =~= before.push(result@));
            assert forall|a: int, b: int| 0 <= a < b < self@.len() implies (
            #[trigger] self@[a]).key_hash != (#[trigger] self@[b]).key_hash by {
                if b == self@.len() - 1 {
                    assert(before[a].key_hash != result@.key_hash);
                } else {
                    assert(before[a].key_hash != before[b].key_hash);
                }
            }
            assert forall|a: int, b: int| 0 <= a < b < self@.len() implies (
            #[trigger] self@[a]).id != (#[trigger] self@[b]).id by {
                if b == self@.len() - 1 {
                    assert(before[a].id < old(self).next_id());
                } else {
                    assert(before[a].id != before[b].id);
                }
            }
        }
        Ok(result)
    }

    /// Delete the record carrying `key_hash`, if any, and report how many
    /// records were removed (zero or one).
    pub fn delete_by_hash(&mut self, key_hash: &str) -> (r: usize)
        requires
            old(self).wf(),
        ensures
            final(self).wf(),
            final(self).next_id() == old(self).next_id(),
            final(self).lookups() == old(self).lookups(),
            !contains_hash(final(self)@, key_hash@),
            if contains_hash(old(self)@, key_hash@) {
                r == 1 && final(self)@ == old(self)@.remove(idx_of_hash(old(self)@, key_hash@))
            } else {
                r == 0 && final(self)@ == old(self)@
            },
    {
        let n = self.records.len();
        let mut i: usize = 0;
        while i < n
            invariant
                old(self).wf(),
                n == self.records@.len(),
                self.records@ == old(self).records@,
                self.next_id == old(self).next_id,
                self.lookups == old(self).lookups,
                i <= n,
                forall|j: int| 0 <= j < i ==> (#[trigger] self@[j]).key_hash != key_hash@,
            decreases n - i,
        {
            assert(self.records@[i as int]@ == self@[i as int]);
            let hit = str_eq(self.records[i].key_hash.as_str(), key_hash);
            if hit {
                proof {
                    lemma_record_for_hash_unique(self@, i as int);
                }
                let ghost before = self@;
                self.records.remove(i);
                proof {
                    assert(self@ =~= before.remove(i as int));
                    assert forall|a: int| 0 <= a < self@.len() implies (
                    #[trigger] self@[a]).key_hash != key_hash@ by {
                        if a < i as int {
                            assert(self@[a] == before[a]);
                        } else {
                            assert(self@[a] == before[a + 1]);
                            assert(before[i as int].key_hash != before[a + 1].key_hash);
                        }
                    }
                    assert forall|a: int, b: int| 0 <= a < b < self@.len() implies (
                    #[trigger] self@[a]).key_hash != (#[trigger] self@[b]).key_hash by {
                        let a0 = if a < i as int { a } else { a + 1 };
                        let b0 = if b < i as int { b } else { b + 1 };
                        assert(before[a0].key_hash != before[b0].key_hash);
                    }
                    assert forall|a: int, b: int| 0 <= a < b < self@.len() implies (
                    #[trigger] self@[a]).id != (#[trigger] self@[b]).id by {
                        let a0 = if a < i as int { a } else { a + 1 };
                        let b0 = if b < i as int { b } else { b + 1 };
                        assert(before[a0].id != before[b0].id);
                    }
                    assert forall|a: int| 0 <= a < self@.len() implies 1 <= (
                    #[trigger] self@[a]).id < self.next_id by {
                        let a0 = if a < i as int { a } else { a + 1 };
                        assert(1 <= before[a0].id < self.next_id);
                    }
                }
                return 1;
            }
            i += 1;
        }
        assert(!contains_hash(self@, key_hash@));
        0
    }

    /// Stamp the record with id `id`, if any, as last used at `now`; all
    /// other records and the rest of the store are untouched.
    pub fn update_last_used(&mut self, id: i32, now: u64)
        requires
            old(self).wf(),
        ensures
            final(self).wf(),
            final(self).next_id() == old(self).next_id(),
            final(self).lookups() == old(self).lookups(),
            final(self)@.len() == old(self)@.len(),
            forall|j: int|
                0 <= j < old(self)@.len() && (#[trigger] old(self)@[j]).id != id
                    ==> final(self)@[j] == old(self)@[j],
            forall|j: int|
                0 <= j < old(self)@.len() && (#[trigger] old(self)@[j]).id == id
                    ==> final(self)@[j] == (ApiKeyV {
                    last_used_at: Some(now as int),
                    ..old(self)@[j]
                }),
    {
        let n = self.records.len();
        let mut i: usize = 0;
        while i < n
            invariant
                old(self).wf(),
                n == self.records@.len(),
                self.records@ == old(self).records@,
                self.next_id == old(self).next_id,
                self.lookups == old(self).lookups,
                i <= n,
                forall|j: int| 0 <= j < i ==> (#[trigger] self@[j]).id != id,
            decreases n - i,
        {
            assert(self.records@[i as int]@ == self@[i as int]);
            if self.records[i].id == id {
                let mut updated = self.records[i].clone();
                updated.last_used_at = Some(now);
                let ghost before = self@;
                self.records.set(i, updated);
                proof {
                    assert(updated@ == (ApiKeyV {
                        last_used_at: Some(now as int),
                        ..before[i as int]
                    }));
                    assert(self@ =~= before.update(i as int, updated@));
                    assert forall|a: int, b: int| 0 <= a < b < self@.len() implies (
                    #[trigger] self@[a]).key_hash != (#[trigger] self@[b]).key_hash by {
                        assert(self@[a].key_hash == before[a].key_hash);
                        assert(self@[b].key_hash == before[b].key_hash);
                        assert(before[a].key_hash != before[b].key_hash);
                    }
                    assert forall|a: int, b: int| 0 <= a < b < self@.len() implies (
                    #[trigger] self@[a]).id != (#[trigger] self@[b]).id by {
                        assert(self@[a].id == before[a].id);
                        assert(self@[b].id == before[b].id);
                        assert(before[a].id != before[b].id);
                    }
                    assert forall|a: int| 0 <= a < self@.len() implies 1 <= (
                    #[trigger] self@[a]).id < self.next_id by {
                        assert(self@[a].id == before[a].id);
                        assert(1 <= before[a].id < self.next_id);
                    }
                }
                return ;
            }
            i += 1;
        }
    }

    /// All records, in insertion order.
    pub fn list_all(&self) -> (r: Vec<ApiKey>)
        ensures
            r@.len() == self@.len(),
            forall|i: int| 0 <= i < r@.len() ==> (#[trigger] r@[i])@ == self@[i],
    {
        let n = self.records.len();
        let mut out: Vec<ApiKey> = Vec::new();
        let mut i: usize = 0;
        while i < n
            invariant
                n == self.records@.len(),
                i <= n,
                out@.len() == i,
                forall|j: int| 0 <= j < i ==> (#[trigger] out@[j])@ == self@[j],
            decreases n - i,
        {
            assert(self.records@[i as int]@ == self@[i as int]);
            out.push(self.records[i].clone());
            i += 1;
        }
        out
    }

    /// Whether any admin record exists.
    pub fn has_admin_record(&self) -> (r: bool)
        ensures
            r == has_admin(self@),
    {
        let n = self.records.len();
        let mut i: usize = 0;
        while i < n
            invariant
                n == self.records@.len(),
                i <= n,
                forall|j: int| 0 <= j < i ==> !(#[trigger] self@[j]).is_admin,
            decreases n - i,
        {
            assert(self.records@[i as int]@ == self@[i as int]);
            if self.records[i].is_admin {
                assert(self@[i as int].is_admin);
                return true;
            }
            i += 1;
        }
        false
    }
}

} // verus!
