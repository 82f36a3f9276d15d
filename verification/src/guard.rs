//! Request-time identity guards.
//!
//! A raw `Authorization` header is turned into an authenticated identity
//! or a typed rejection in two pure steps: extract the bearer token, then
//! validate it; admin-gated routes add a privilege check on top. The
//! whole decision sequence is captured by the `guard_result` spec
//! functions, so every rejection case — missing header, malformed header,
//! unknown token, valid but non-admin token — is pinned exactly.

use crate::cache::CacheEntryV;
use crate::errors::AuthError;
use crate::hashing::key_hash_of;
use crate::models::{ApiKey, ApiKeyV};
use crate::service::{
    validate_cache_after, validate_hits_cache, validate_result, AuthService,
};
use crate::store::{counted, KeyStore};
use vstd::prelude::*;

verus! {

/// The fixed scheme prefix a well-formed `Authorization` header carries.
pub open spec fn has_bearer_prefix(h: Seq<char>) -> bool {
    h.len() >= 7 && h.subrange(0, 7) == "Bearer "@
}

/// The token that follows the scheme prefix.
pub open spec fn bearer_token_of(h: Seq<char>) -> Seq<char> {
    h.subrange(7, h.len() as int)
}

/// The authenticated identity a request resolves to: one validated record.
#[derive(Debug)]
pub struct User {
    pub api_key: ApiKey,
}

impl User {
    /// The record's stable identity.
    pub fn id(&self) -> (r: i32)
        ensures
            r == self.api_key.id,
    {
        self.api_key.id
    }

    /// Whether the identity carries the administrator privilege.
    pub fn is_admin(&self) -> (r: bool)
        ensures
            r == self.api_key.is_admin,
    {
        self.api_key.is_admin
    }

    /// When the record was created (seconds).
    pub fn created_at(&self) -> (r: u64)
        ensures
            r == self.api_key.created_at,
    {
        self.api_key.created_at
    }

    /// When the key last validated a request, if ever (seconds).
    pub fn last_used_at(&self) -> (r: Option<u64>)
        ensures
            r == self.api_key.last_used_at,
    {
        self.api_key.last_used_at
    }

    /// The privilege check: succeeds exactly for administrators.
    pub fn require_admin(&self) -> (r: Result<(), AuthError>)
        ensures
            self.api_key.is_admin ==> r == Ok::<(), AuthError>(()),
            !self.api_key.is_admin ==> r == Err::<(), AuthError>(
                AuthError::InsufficientPermissions,
            ),
    {
        if self.is_admin() {
            Ok(())
        } else {
            Err(AuthError::InsufficientPermissions)
        }
    }

    /// The underlying record.
    pub fn as_api_key(&self) -> (r: &ApiKey)
        ensures
            r == &self.api_key,
    {
        &self.api_key
    }
}

/// An identity that carried the administrator privilege at the moment of
/// construction: `authorize` builds one only from an admin `User`.
#[derive(Debug)]
pub struct AdminUser(pub User);

impl AdminUser {
    /// What construction guarantees: the wrapped identity is an admin.
    pub open spec fn wf(&self) -> bool {
        self.0.api_key.is_admin
    }
}

/// Strip the `Bearer ` scheme prefix from an `Authorization` header,
/// rejecting a header without it as malformed.
pub fn extract_bearer_token(auth_header: &str) -> (r: Result<&str, AuthError>)
    ensures
        match r {
            Ok(t) => has_bearer_prefix(auth_header@) && t@ == bearer_token_of(auth_header@),
            Err(e) => e == AuthError::InvalidFormat && !has_bearer_prefix(auth_header@),
        },
{
    proof {
        reveal_strlit("Bearer ");
    }
    let prefix = "Bearer ";
    let header_len = auth_header.unicode_len();
    if header_len < 7 {
        return Err(AuthError::InvalidFormat);
    }
    let mut i: usize = 0;
    while i < 7
        invariant
            7 <= header_len == auth_header@.len(),
            i <= 7,
            prefix@ == "Bearer "@,
            prefix@.len() == 7,
            forall|j: int| 0 <= j < i ==> auth_header@[j] == prefix@[j],
        decreases 7 - i,
    {
        if auth_header.get_char(i) != prefix.get_char(i) {
            assert(!has_bearer_prefix(auth_header@)) by {
                assert(auth_header@.subrange(0, 7)[i as int] != "Bearer "@[i as int]);
            }
            return Err(AuthError::InvalidFormat);
        }
        i += 1;
    }
    assert(auth_header@.subrange(0, 7) =~= "Bearer "@);
    let token = auth_header.substring_char(7, header_len);
    Ok(token)
}

/// The privilege-escalation guard: wrap an authenticated identity as an
/// administrator, or reject it as forbidden.
pub fn authorize(user: User) -> (r: Result<AdminUser, AuthError>)
    ensures
        match r {
            Ok(a) => user.api_key.is_admin && a.0 == user,
            Err(e) => e == AuthError::InsufficientPermissions && !user.api_key.is_admin,
        },
{
    if user.is_admin() {
        Ok(AdminUser(user))
    } else {
        Err(AuthError::InsufficientPermissions)
    }
}

/// The view of an optional header.
pub open spec fn header_view(h: Option<&str>) -> Option<Seq<char>> {
    match h {
        Some(s) => Some(s@),
        None => None,
    }
}

/// The guard state machine's outcome: no header or a header without the
/// scheme prefix is rejected as unauthorized input; otherwise the bearer
/// token is validated against cache and store.
pub open spec fn guard_result(
    c: Map<Seq<char>, CacheEntryV>,
    s: Seq<ApiKeyV>,
    header: Option<Seq<char>>,
    now: int,
) -> Result<ApiKeyV, AuthError> {
    match header {
        None => Err(AuthError::MissingHeader),
        Some(h) => if !has_bearer_prefix(h) {
            Err(AuthError::InvalidFormat)
        } else {
            validate_result(c, s, key_hash_of(bearer_token_of(h)), now)
        },
    }
}

/// The cache content after the guard ran.
pub open spec fn guard_cache_after(
    c: Map<Seq<char>, CacheEntryV>,
    s: Seq<ApiKeyV>,
    header: Option<Seq<char>>,
    now: int,
) -> Map<Seq<char>, CacheEntryV> {
    match header {
        None => c,
        Some(h) => if !has_bearer_prefix(h) {
            c
        } else {
            validate_cache_after(c, s, key_hash_of(bearer_token_of(h)), now)
        },
    }
}

/// Whether the guard performs a store lookup: only a well-formed header
/// whose token is not served by the cache reaches the store.
pub open spec fn guard_consults_store(
    c: Map<Seq<char>, CacheEntryV>,
    header: Option<Seq<char>>,
    now: int,
) -> bool {
    match header {
        None => false,
        Some(h) => has_bearer_prefix(h) && !validate_hits_cache(
            c,
            key_hash_of(bearer_token_of(h)),
            now,
        ),
    }
}

/// The admin guard's outcome: the guard outcome, with authenticated
/// non-admins rejected as forbidden.
pub open spec fn admin_guard_result(
    c: Map<Seq<char>, CacheEntryV>,
    s: Seq<ApiKeyV>,
    header: Option<Seq<char>>,
    now: int,
) -> Result<ApiKeyV, AuthError> {
    match guard_result(c, s, header, now) {
        Ok(k) => if k.is_admin {
            Ok(k)
        } else {
            Err(AuthError::InsufficientPermissions)
        },
        Err(e) => Err(e),
    }
}

/// Resolve a raw `Authorization` header into an authenticated identity.
///
/// The asynchronous last-used stamp is deliberately not part of this
/// decision: on success the caller submits `update_last_used` with the
/// identity's id to a background worker, without awaiting it.
pub fn authenticate(
    service: &mut AuthService,
    store: &mut KeyStore,
    auth_header: Option<&str>,
    now: u64,
) -> (r: Result<User, AuthError>)
    requires
        old(service).wf(),
        old(store).wf(),
    ensures
        final(service).wf(),
        final(store).wf(),
        final(store)@ == old(store)@,
        final(store).next_id() == old(store).next_id(),
        final(store).lookups() == if guard_consults_store(
            old(service)@,
            header_view(auth_header),
            now as int,
        ) {
            counted(old(store).lookups())
        } else {
            old(store).lookups()
        },
        final(service)@ == guard_cache_after(
            old(service)@,
            old(store)@,
            header_view(auth_header),
            now as int,
        ),
        match r {
            Ok(u) => guard_result(old(service)@, old(store)@, header_view(auth_header), now as int)
                == Ok::<ApiKeyV, AuthError>(u.api_key@),
            Err(e) => guard_result(
                old(service)@,
                old(store)@,
                header_view(auth_header),
                now as int,
            ) == Err::<ApiKeyV, AuthError>(e),
        },
{
    let header = match auth_header {
        Some(h) => h,
        None => {
            return Err(AuthError::MissingHeader);
        },
    };
    let token = match extract_bearer_token(header) {
        Ok(t) => t,
        Err(e) => {
            return Err(e);
        },
    };
    match service.validate_api_key(store, token, now) {
        Ok(record) => Ok(User { api_key: record }),
        Err(e) => Err(e),
    }
}

/// Resolve a raw `Authorization` header for an admin-gated route: a valid
/// identity without the administrator privilege is rejected as forbidden.
pub fn authenticate_admin(
    service: &mut AuthService,
    store: &mut KeyStore,
    auth_header: Option<&str>,
    now: u64,
) -> (r: Result<AdminUser, AuthError>)
    requires
        old(service).wf(),
        old(store).wf(),
    ensures
        final(service).wf(),
        final(store).wf(),
        final(store)@ == old(store)@,
        final(store).next_id() == old(store).next_id(),
        final(store).lookups() == if guard_consults_store(
            old(service)@,
            header_view(auth_header),
            now as int,
        ) {
            counted(old(store).lookups())
        } else {
            old(store).lookups()
        },
        final(service)@ == guard_cache_after(
            old(service)@,
            old(store)@,
            header_view(auth_header),
            now as int,
        ),
        match r {
            Ok(a) => a.wf() && admin_guard_result(
                old(service)@,
                old(store)@,
                header_view(auth_header),
                now as int,
            ) == Ok::<ApiKeyV, AuthError>(a.0.api_key@),
            Err(e) => admin_guard_result(
                old(service)@,
                old(store)@,
                header_view(auth_header),
                now as int,
            ) == Err::<ApiKeyV, AuthError>(e),
        },
{
    match authenticate(service, store, auth_header, now) {
        Ok(user) => authorize(user),
        Err(e) => Err(e),
    }
}

/// Law: the admin guard grants only administrators — whatever the cache,
/// store, header and time, a granted outcome carries the admin flag.
pub proof fn lemma_admin_guard_sound(
    c: Map<Seq<char>, CacheEntryV>,
    s: Seq<ApiKeyV>,
    header: Option<Seq<char>>,
    now: int,
)
    ensures
        admin_guard_result(c, s, header, now) matches Ok(k) ==> k.is_admin,
{
}

} // verus!
