//! The administrative surface: the decision core of each admin endpoint.
//!
//! The HTTP layer around these functions only decodes a request body into
//! the plain request types below, picks the authenticated identity with
//! the guards, and encodes the result; every decision is made here.

use crate::errors::AuthError;
use crate::guard::{AdminUser, User};
use crate::hashing::key_hash_of;
use crate::models::{ApiKey, ApiKeyV};
use crate::cache::{fresh_at, CacheEntryV};
use crate::service::AuthService;
use crate::store::{contains_hash, idx_of_hash, KeyStore};
use vstd::prelude::*;

verus! {

/// Body of a create-key request: the privilege flag for the new key,
/// defaulting to a non-admin key when absent.
pub struct CreateKeyRequest {
    pub is_admin: Option<bool>,
}

/// Body of a revoke-key request: the plaintext key to revoke.
pub struct RevokeKeyRequest {
    pub api_key: String,
}

/// Mathematical view of an [`ApiKeyResponse`].
pub struct ApiKeyResponseV {
    pub id: int,
    pub is_admin: bool,
    pub created_at: int,
    pub last_used_at: Option<int>,
}

/// What a record looks like when handed out: everything but the hash.
pub struct ApiKeyResponse {
    pub id: i32,
    pub is_admin: bool,
    pub created_at: u64,
    pub last_used_at: Option<u64>,
}

impl View for ApiKeyResponse {
    type V = ApiKeyResponseV;

    open spec fn view(&self) -> ApiKeyResponseV {
        ApiKeyResponseV {
            id: self.id as int,
            is_admin: self.is_admin,
            created_at: self.created_at as int,
            last_used_at: match self.last_used_at {
                Some(t) => Some(t as int),
                None => None,
            },
        }
    }
}

/// The response a record maps to: the hash is deliberately dropped.
pub open spec fn response_of(k: ApiKeyV) -> ApiKeyResponseV {
    ApiKeyResponseV {
        id: k.id,
        is_admin: k.is_admin,
        created_at: k.created_at,
        last_used_at: k.last_used_at,
    }
}

impl From<ApiKey> for ApiKeyResponse {
    fn from(api_key: ApiKey) -> (r: Self) {
        ApiKeyResponse {
            id: api_key.id,
            is_admin: api_key.is_admin,
            created_at: api_key.created_at,
            last_used_at: api_key.last_used_at,
        }
    }
}

impl vstd::std_specs::convert::FromSpecImpl<ApiKey> for ApiKeyResponse {
    open spec fn obeys_from_spec() -> bool {
        true
    }

    open spec fn from_spec(api_key: ApiKey) -> Self {
        ApiKeyResponse {
            id: api_key.id,
            is_admin: api_key.is_admin,
            created_at: api_key.created_at,
            last_used_at: api_key.last_used_at,
        }
    }
}

/// The privilege flag a create-key request asks for; absent fields
/// default to a non-admin key.
pub open spec fn requested_admin(request: Option<&CreateKeyRequest>) -> bool {
    match request {
        Some(r) => match r.is_admin {
            Some(b) => b,
            None => false,
        },
        None => false,
    }
}

/// Create a new key on behalf of an administrator: generate a fresh
/// plaintext token, store a record for its hash with the requested
/// privilege flag, and hand both back. The plaintext is returned exactly
/// once and only its hash is stored. Fails only when the generated
/// token's hash collides with an existing record.
pub fn create_api_key(
    _admin: &AdminUser,
    request: Option<&CreateKeyRequest>,
    service: &mut AuthService,
    store: &mut KeyStore,
    now: u64,
) -> (r: Result<(String, ApiKey), AuthError>)
    requires
        old(service).wf(),
        old(store).wf(),
        old(store).next_id() < i32::MAX,
    ensures
        final(service).wf(),
        final(store).wf(),
        final(store).lookups() == old(store).lookups(),
        match r {
            Ok((plain, rec)) => {
                &&& plain@.len() == 35
                &&& plain@.subrange(0, 3) == "ak_"@
                &&& rec@ == (ApiKeyV {
                    id: old(store).next_id(),
                    key_hash: key_hash_of(plain@),
                    is_admin: requested_admin(request),
                    created_at: now as int,
                    last_used_at: None,
                })
                &&& !contains_hash(old(store)@, key_hash_of(plain@))
                &&& final(store)@ == old(store)@.push(rec@)
                &&& final(service)@ == old(service)@.insert(
                    key_hash_of(plain@),
                    CacheEntryV { api_key: rec@, cached_at: now as int },
                )
            },
            Err(e) => {
                &&& e == AuthError::DuplicateKey
                &&& final(store)@ == old(store)@
                &&& final(service)@ == old(service)@
            },
        },
{
    let is_admin = match request {
        Some(req) => match req.is_admin {
            Some(b) => b,
            None => false,
        },
        None => false,
    };
    let new_key = AuthService::generate_api_key();
    match service.create_api_key(store, new_key.as_str(), is_admin, now) {
        Ok(api_key) => Ok((new_key, api_key)),
        Err(e) => Err(e),
    }
}

/// Revoke the key named by a revoke-key request; always succeeds, and the
/// revoked hash is gone from store and cache alike.
pub fn revoke_api_key(
    _admin: &AdminUser,
    request: &RevokeKeyRequest,
    service: &mut AuthService,
    store: &mut KeyStore,
) -> (r: Result<(), AuthError>)
    requires
        old(service).wf(),
        old(store).wf(),
    ensures
        final(service).wf(),
        final(store).wf(),
        r is Ok,
        !contains_hash(final(store)@, key_hash_of(request.api_key@)),
        !final(service)@.contains_key(key_hash_of(request.api_key@)),
        if contains_hash(old(store)@, key_hash_of(request.api_key@)) {
            final(store)@ == old(store)@.remove(
                idx_of_hash(old(store)@, key_hash_of(request.api_key@)),
            )
        } else {
            final(store)@ == old(store)@
        },
        final(service)@ == old(service)@.remove(key_hash_of(request.api_key@)),
{
    service.revoke_api_key(store, request.api_key.as_str())
}

/// List every stored key as a response record, in insertion order.
pub fn list_api_keys(_admin: &AdminUser, service: &AuthService, store: &KeyStore) -> (r:
    Result<Vec<ApiKeyResponse>, AuthError>)
    ensures
        match r {
            Ok(v) => v@.len() == store@.len() && forall|i: int|
                0 <= i < v@.len() ==> (#[trigger] v@[i])@ == response_of(store@[i]),
            Err(_) => false,
        },
{
    let keys = match service.list_api_keys(store) {
        Ok(keys) => keys,
        Err(e) => {
            return Err(e);
        },
    };
    let mut out: Vec<ApiKeyResponse> = Vec::new();
    let n = keys.len();
    let mut i: usize = 0;
    while i < n
        invariant
            n == keys@.len(),
            keys@.len() == store@.len(),
            forall|j: int| 0 <= j < n ==> (#[trigger] keys@[j])@ == store@[j],
            i <= n,
            out@.len() == i,
            forall|j: int| 0 <= j < i ==> (#[trigger] out@[j])@ == response_of(store@[j]),
        decreases n - i,
    {
        let rec = keys[i].clone();
        out.push(ApiKeyResponse::from(rec));
        i += 1;
    }
    Ok(out)
}

/// The authenticated caller's own record, as a response.
pub fn get_profile(user: &User) -> (r: ApiKeyResponse)
    ensures
        r@ == response_of(user.api_key@),
{
    ApiKeyResponse {
        id: user.id(),
        is_admin: user.is_admin(),
        created_at: user.created_at(),
        last_used_at: user.last_used_at(),
    }
}

/// Whether the authenticated caller is an administrator.
pub fn is_admin(user: &User) -> (r: bool)
    ensures
        r == user.api_key.is_admin,
{
    user.is_admin()
}

/// Administrative cache sweep: evict everything no longer fresh at `now`.
pub fn cleanup_cache(_admin: &AdminUser, service: &mut AuthService, now: u64)
    requires
        old(service).wf(),
    ensures
        final(service).wf(),
        forall|k: Seq<char>|
            #[trigger] final(service)@.contains_key(k) <==> (old(service)@.contains_key(k)
                && fresh_at(old(service)@[k].cached_at, now as int)),
        forall|k: Seq<char>|
            final(service)@.contains_key(k) ==> final(service)@[k] == old(service)@[k],
{
    service.cleanup_cache(now);
}

/// An HTTP method of the administrative surface.
#[derive(Clone, Copy, Debug, PartialEq, Eq, Structural)]
pub enum HttpMethod {
    Get,
    Post,
    Delete,
}

/// One route of the administrative surface: its method, its path, and
/// whether it is admin-gated.
pub struct RouteInfo {
    pub method: HttpMethod,
    pub path: &'static str,
    pub admin_only: bool,
}

/// The administrative route table: which endpoints exist, where they are
/// mounted, and which of them require the administrator privilege.
pub fn admin_routes() -> (r: Vec<RouteInfo>)
    ensures
        r@.len() == 6,
        r@[0].method == HttpMethod::Post && r@[0].path@ == "/create-key"@ && r@[0].admin_only,
        r@[1].method == HttpMethod::Delete && r@[1].path@ == "/revoke-key"@ && r@[1].admin_only,
        r@[2].method == HttpMethod::Get && r@[2].path@ == "/list-keys"@ && r@[2].admin_only,
        r@[3].method == HttpMethod::Get && r@[3].path@ == "/profile"@ && !r@[3].admin_only,
        r@[4].method == HttpMethod::Get && r@[4].path@ == "/is-admin"@ && !r@[4].admin_only,
        r@[5].method == HttpMethod::Post && r@[5].path@ == "/cleanup-cache"@
            && r@[5].admin_only,
{
    let mut routes: Vec<RouteInfo> = Vec::new();
    routes.push(RouteInfo { method: HttpMethod::Post, path: "/create-key", admin_only: true });
    routes.push(RouteInfo { method: HttpMethod::Delete, path: "/revoke-key", admin_only: true });
    routes.push(RouteInfo { method: HttpMethod::Get, path: "/list-keys", admin_only: true });
    routes.push(RouteInfo { method: HttpMethod::Get, path: "/profile", admin_only: false });
    routes.push(RouteInfo { method: HttpMethod::Get, path: "/is-admin", admin_only: false });
    routes.push(
        RouteInfo { method: HttpMethod::Post, path: "/cleanup-cache", admin_only: true },
    );
    routes
}

} // verus!
