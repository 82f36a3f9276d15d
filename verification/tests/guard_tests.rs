//! The request guard state machine and the admin surface.

use apiodactyl::admin_api;
use apiodactyl::admin_api::{CreateKeyRequest, HttpMethod, RevokeKeyRequest};
use apiodactyl::errors::AuthError;
use apiodactyl::guard::{authenticate, authenticate_admin, authorize, extract_bearer_token, User};
use apiodactyl::models::ApiKey;
use apiodactyl::service::AuthService;
use apiodactyl::store::KeyStore;

fn record(id: i32, is_admin: bool) -> ApiKey {
    ApiKey {
        id,
        key_hash: format!("hash-{}", id),
        is_admin,
        created_at: 0,
        last_used_at: None,
    }
}

#[test]
fn bearer_token_extraction() {
    assert_eq!(extract_bearer_token("Bearer tok-123").unwrap(), "tok-123");
    assert_eq!(extract_bearer_token("Bearer ").unwrap(), "");
    assert_eq!(
        extract_bearer_token("Token tok-123").unwrap_err(),
        AuthError::InvalidFormat
    );
    assert_eq!(extract_bearer_token("Bearer").unwrap_err(), AuthError::InvalidFormat);
    assert_eq!(extract_bearer_token("").unwrap_err(), AuthError::InvalidFormat);
    assert_eq!(
        extract_bearer_token("bearer tok-123").unwrap_err(),
        AuthError::InvalidFormat
    );
}

/// No `Authorization` header is rejected as unauthorized input.
#[test]
fn guard_missing_header() {
    let mut svc = AuthService::new();
    let mut store = KeyStore::new();
    let err = authenticate(&mut svc, &mut store, None, 0).unwrap_err();
    assert_eq!(err, AuthError::MissingHeader);
}

/// A header without the scheme prefix is rejected as malformed.
#[test]
fn guard_malformed_header() {
    let mut svc = AuthService::new();
    let mut store = KeyStore::new();
    let err = authenticate(&mut svc, &mut store, Some("Basic abc"), 0).unwrap_err();
    assert_eq!(err, AuthError::InvalidFormat);
}

/// A well-formed header with an unknown token is rejected.
#[test]
fn guard_unknown_token() {
    let mut svc = AuthService::new();
    let mut store = KeyStore::new();
    let err = authenticate(&mut svc, &mut store, Some("Bearer nobody"), 0).unwrap_err();
    assert_eq!(err, AuthError::InvalidKey);
}

/// A valid token yields an identity with the record's fields.
#[test]
fn guard_valid_token() {
    let mut svc = AuthService::new();
    let mut store = KeyStore::new();
    let rec = svc.create_api_key(&mut store, "tok", false, 3).unwrap();
    let user = authenticate(&mut svc, &mut store, Some("Bearer tok"), 4).unwrap();
    assert_eq!(user.id(), rec.id);
    assert!(!user.is_admin());
    assert_eq!(user.created_at(), 3);
    assert_eq!(user.last_used_at(), None);
    assert_eq!(user.as_api_key().key_hash, rec.key_hash);
}

/// A valid non-admin token on an admin-gated route is forbidden.
#[test]
fn guard_non_admin_forbidden() {
    let mut svc = AuthService::new();
    let mut store = KeyStore::new();
    svc.create_api_key(&mut store, "plain", false, 0).unwrap();
    let err = authenticate_admin(&mut svc, &mut store, Some("Bearer plain"), 1).unwrap_err();
    assert_eq!(err, AuthError::InsufficientPermissions);
}

/// A valid admin token on an admin-gated route is granted.
#[test]
fn guard_admin_granted() {
    let mut svc = AuthService::new();
    let mut store = KeyStore::new();
    svc.create_api_key(&mut store, "root", true, 0).unwrap();
    let admin = authenticate_admin(&mut svc, &mut store, Some("Bearer root"), 1).unwrap();
    assert!(admin.0.is_admin());
}

/// The admin guard reports the earlier rejection unchanged.
#[test]
fn admin_guard_propagates_rejections() {
    let mut svc = AuthService::new();
    let mut store = KeyStore::new();
    assert_eq!(
        authenticate_admin(&mut svc, &mut store, None, 0).unwrap_err(),
        AuthError::MissingHeader
    );
    assert_eq!(
        authenticate_admin(&mut svc, &mut store, Some("nope"), 0).unwrap_err(),
        AuthError::InvalidFormat
    );
    assert_eq!(
        authenticate_admin(&mut svc, &mut store, Some("Bearer ghost"), 0).unwrap_err(),
        AuthError::InvalidKey
    );
}

#[test]
fn privilege_check_on_identity() {
    let admin_user = User { api_key: record(1, true) };
    assert!(admin_user.require_admin().is_ok());
    let plain_user = User { api_key: record(2, false) };
    assert_eq!(
        plain_user.require_admin().unwrap_err(),
        AuthError::InsufficientPermissions
    );
    assert!(authorize(User { api_key: record(3, true) }).is_ok());
    assert_eq!(
        authorize(User { api_key: record(4, false) }).unwrap_err(),
        AuthError::InsufficientPermissions
    );
}

/// The create-key endpoint: flag defaulting, one-time plaintext, stored
/// hash.
#[test]
fn admin_create_key_endpoint() {
    let mut svc = AuthService::new();
    let mut store = KeyStore::new();
    svc.create_api_key(&mut store, "root", true, 0).unwrap();
    let admin = authenticate_admin(&mut svc, &mut store, Some("Bearer root"), 1).unwrap();

    let (plain, rec) =
        admin_api::create_api_key(&admin, None, &mut svc, &mut store, 2).unwrap();
    assert!(plain.starts_with("ak_"));
    assert!(!rec.is_admin);
    assert_ne!(rec.key_hash, plain);

    let req = CreateKeyRequest { is_admin: Some(true) };
    let (_, rec2) =
        admin_api::create_api_key(&admin, Some(&req), &mut svc, &mut store, 3).unwrap();
    assert!(rec2.is_admin);

    let req_absent = CreateKeyRequest { is_admin: None };
    let (_, rec3) =
        admin_api::create_api_key(&admin, Some(&req_absent), &mut svc, &mut store, 4).unwrap();
    assert!(!rec3.is_admin);
}

/// The revoke and list endpoints, and the profile projections.
#[test]
fn admin_revoke_list_profile_endpoints() {
    let mut svc = AuthService::new();
    let mut store = KeyStore::new();
    svc.create_api_key(&mut store, "root", true, 0).unwrap();
    svc.create_api_key(&mut store, "victim", false, 1).unwrap();
    let admin = authenticate_admin(&mut svc, &mut store, Some("Bearer root"), 2).unwrap();

    let listed = admin_api::list_api_keys(&admin, &svc, &store).unwrap();
    assert_eq!(listed.len(), 2);
    assert_eq!(listed[1].id, 2);
    assert!(!listed[1].is_admin);
    assert_eq!(listed[1].created_at, 1);

    let req = RevokeKeyRequest { api_key: "victim".to_string() };
    admin_api::revoke_api_key(&admin, &req, &mut svc, &mut store).unwrap();
    assert_eq!(
        svc.validate_api_key(&mut store, "victim", 3).unwrap_err(),
        AuthError::InvalidKey
    );

    let user = authenticate(&mut svc, &mut store, Some("Bearer root"), 3).unwrap();
    let profile = admin_api::get_profile(&user);
    assert_eq!(profile.id, 1);
    assert!(profile.is_admin);
    assert_eq!(profile.created_at, 0);
    assert!(admin_api::is_admin(&user));
}

/// The route table of the administrative surface.
#[test]
fn admin_route_table() {
    let routes = admin_api::admin_routes();
    assert_eq!(routes.len(), 6);
    assert_eq!(routes[0].path, "/create-key");
    assert_eq!(routes[0].method, HttpMethod::Post);
    assert!(routes[0].admin_only);
    assert_eq!(routes[1].path, "/revoke-key");
    assert_eq!(routes[1].method, HttpMethod::Delete);
    assert_eq!(routes[2].path, "/list-keys");
    assert_eq!(routes[3].path, "/profile");
    assert!(!routes[3].admin_only);
    assert_eq!(routes[4].path, "/is-admin");
    assert!(!routes[4].admin_only);
    assert_eq!(routes[5].path, "/cleanup-cache");
    assert!(routes[5].admin_only);
}

/// Error descriptions are distinct and non-empty.
#[test]
fn error_messages() {
    let errors = [
        AuthError::MissingHeader,
        AuthError::InvalidFormat,
        AuthError::InvalidKey,
        AuthError::InsufficientPermissions,
        AuthError::DuplicateKey,
        AuthError::Bootstrap,
    ];
    for (i, a) in errors.iter().enumerate() {
        assert!(!a.message().is_empty());
        for b in errors.iter().skip(i + 1) {
            assert_ne!(a.message(), b.message());
        }
    }
}
