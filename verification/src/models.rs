//! The persistent API-key record and its mathematical view.

use vstd::prelude::*;

verus! {

/// Mathematical view of an [`ApiKey`] record.
pub struct ApiKeyV {
    pub id: int,
    pub key_hash: Seq<char>,
    pub is_admin: bool,
    pub created_at: int,
    pub last_used_at: Option<int>,
}

/// A stored API-key record.
///
/// Only the hash of the presented secret is ever stored; the plaintext
/// secret never appears in a record. `id` is assigned by the store and is
/// the record's stable identity; `key_hash` is unique across live records.
/// Timestamps are seconds.
#[derive(Debug)]
pub struct ApiKey {
    pub id: i32,
    pub key_hash: String,
    pub is_admin: bool,
    pub created_at: u64,
    pub last_used_at: Option<u64>,
}

impl View for ApiKey {
    type V = ApiKeyV;

    open spec fn view(&self) -> ApiKeyV {
        ApiKeyV {
            id: self.id as int,
            key_hash: self.key_hash@,
            is_admin: self.is_admin,
            created_at: self.created_at as int,
            last_used_at: match self.last_used_at {
                Some(t) => Some(t as int),
                None => None,
            },
        }
    }
}

impl Clone for ApiKey {
    fn clone(&self) -> (res: Self)
        ensures
            res == *self,
    {
        ApiKey {
            id: self.id,
            key_hash: self.key_hash.clone(),
            is_admin: self.is_admin,
            created_at: self.created_at,
            last_used_at: self.last_used_at,
        }
    }
}

/// The fields a caller supplies when inserting a new record; the store
/// assigns `id` and `created_at` itself.
#[derive(Debug)]
pub struct NewApiKey {
    pub key_hash: String,
    pub is_admin: bool,
}

} // verus!
