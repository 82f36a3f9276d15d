//! Lifecycle operations through the service: create, validate, revoke,
//! list, bootstrap, and the store-shielding behaviour of the cache.

use apiodactyl::errors::AuthError;
use apiodactyl::service::AuthService;
use apiodactyl::store::KeyStore;

/// A created key validates, with the privilege flag intact, and only the
/// hash of the secret is stored.
#[test]
fn created_key_validates() {
    let mut svc = AuthService::new();
    let mut store = KeyStore::new();
    let rec = svc
        .create_api_key(&mut store, "s3cret", true, 100)
        .expect("fresh secret");
    assert!(rec.is_admin);
    assert_eq!(rec.id, 1);
    assert_eq!(rec.created_at, 100);
    assert_eq!(rec.last_used_at, None);
    assert_ne!(rec.key_hash, "s3cret");
    assert_eq!(rec.key_hash.len(), 64);

    let validated = svc
        .validate_api_key(&mut store, "s3cret", 150)
        .expect("created key validates");
    assert_eq!(validated.id, rec.id);
    assert!(validated.is_admin);

    let mut svc2 = AuthService::new();
    let non_admin = svc2
        .create_api_key(&mut store, "other", false, 100)
        .expect("fresh secret");
    assert!(!non_admin.is_admin);
    let validated2 = svc2
        .validate_api_key(&mut store, "other", 500)
        .expect("created key validates past the cache window too");
    assert!(!validated2.is_admin);
}

/// Creating a second key for the same secret is rejected as a duplicate.
#[test]
fn duplicate_secret_rejected() {
    let mut svc = AuthService::new();
    let mut store = KeyStore::new();
    svc.create_api_key(&mut store, "dup", false, 0).unwrap();
    let err = svc.create_api_key(&mut store, "dup", true, 1).unwrap_err();
    assert_eq!(err, AuthError::DuplicateKey);
}

/// An unknown secret is rejected with `InvalidKey`.
#[test]
fn unknown_secret_rejected() {
    let mut svc = AuthService::new();
    let mut store = KeyStore::new();
    let err = svc.validate_api_key(&mut store, "ghost", 0).unwrap_err();
    assert_eq!(err, AuthError::InvalidKey);
}

/// A revoked key stops validating at once — not at cache expiry — even
/// when it was cached moments before.
#[test]
fn revoked_key_fails_immediately() {
    let mut svc = AuthService::new();
    let mut store = KeyStore::new();
    svc.create_api_key(&mut store, "gone", false, 100).unwrap();
    svc.validate_api_key(&mut store, "gone", 101).expect("cached");
    svc.revoke_api_key(&mut store, "gone").unwrap();
    let err = svc.validate_api_key(&mut store, "gone", 102).unwrap_err();
    assert_eq!(err, AuthError::InvalidKey);
}

/// Revoking an unknown secret still succeeds and changes nothing.
#[test]
fn revoke_unknown_secret_is_noop() {
    let mut svc = AuthService::new();
    let mut store = KeyStore::new();
    svc.create_api_key(&mut store, "keep", false, 0).unwrap();
    svc.revoke_api_key(&mut store, "ghost").unwrap();
    assert_eq!(store.list_all().len(), 1);
}

/// A fresh cache entry shields the store: within the window a repeated
/// validation does no store lookup, past the window it does one.
#[test]
fn cache_shields_store_within_window() {
    let mut svc = AuthService::new();
    let mut store = KeyStore::new();
    svc.create_api_key(&mut store, "hot", false, 0).unwrap();
    assert_eq!(store.lookup_count(), 0);
    svc.validate_api_key(&mut store, "hot", 100).unwrap();
    assert_eq!(store.lookup_count(), 0);
    svc.validate_api_key(&mut store, "hot", 299).unwrap();
    assert_eq!(store.lookup_count(), 0);
    svc.validate_api_key(&mut store, "hot", 300).unwrap();
    assert_eq!(store.lookup_count(), 1);
    svc.validate_api_key(&mut store, "hot", 301).unwrap();
    assert_eq!(store.lookup_count(), 1);
}

/// Many validations of the same previously-uncached key reach the store
/// exactly once and all observe the same record.
#[test]
fn repeated_validation_hits_store_once() {
    let mut svc = AuthService::new();
    let mut store = KeyStore::new();
    let created = svc.create_api_key(&mut store, "shared", true, 0).unwrap();
    // A separate service instance: its cache has never seen the key.
    let mut fresh_svc = AuthService::new();
    for i in 0..5u64 {
        let rec = fresh_svc
            .validate_api_key(&mut store, "shared", 10 + i)
            .expect("stored key validates");
        assert_eq!(rec.id, created.id);
        assert!(rec.is_admin);
    }
    assert_eq!(store.lookup_count(), 1);
}

/// Listing enumerates every record from the store, in insertion order.
#[test]
fn list_enumerates_store() {
    let mut svc = AuthService::new();
    let mut store = KeyStore::new();
    svc.create_api_key(&mut store, "a", false, 1).unwrap();
    svc.create_api_key(&mut store, "b", true, 2).unwrap();
    let listed = svc.list_api_keys(&store).unwrap();
    assert_eq!(listed.len(), 2);
    assert_eq!(listed[0].id, 1);
    assert!(!listed[0].is_admin);
    assert_eq!(listed[1].id, 2);
    assert!(listed[1].is_admin);
}

/// The last-used stamp lands on the right record and failures cannot
/// arise; other records keep their stamp.
#[test]
fn last_used_stamp_targets_one_record() {
    let mut svc = AuthService::new();
    let mut store = KeyStore::new();
    let first = svc.create_api_key(&mut store, "one", false, 0).unwrap();
    svc.create_api_key(&mut store, "two", false, 0).unwrap();
    svc.update_last_used(&mut store, first.id, 777);
    let listed = svc.list_api_keys(&store).unwrap();
    assert_eq!(listed[0].last_used_at, Some(777));
    assert_eq!(listed[1].last_used_at, None);
    // An id nothing carries is absorbed silently.
    svc.update_last_used(&mut store, 999, 888);
    let listed = svc.list_api_keys(&store).unwrap();
    assert_eq!(listed[0].last_used_at, Some(777));
    assert_eq!(listed[1].last_used_at, None);
}

/// Bootstrap creates exactly one admin record and a second run is a
/// no-op.
#[test]
fn bootstrap_runs_once() {
    let svc = AuthService::new();
    let mut store = KeyStore::new();
    svc.ensure_admin_exists(&mut store, "configured-admin-secret", 5)
        .expect("bootstrap on an empty store succeeds");
    let after_first = store.list_all();
    assert_eq!(after_first.len(), 1);
    assert!(after_first[0].is_admin);

    svc.ensure_admin_exists(&mut store, "configured-admin-secret", 6)
        .expect("second bootstrap is a no-op");
    let after_second = store.list_all();
    assert_eq!(after_second.len(), 1);
    assert_eq!(after_second[0].created_at, 5);
}

/// Bootstrap with an admin already present — however it was created —
/// changes nothing, even for a different configured secret.
#[test]
fn bootstrap_respects_existing_admin() {
    let mut svc = AuthService::new();
    let mut store = KeyStore::new();
    svc.create_api_key(&mut store, "hand-made-admin", true, 1).unwrap();
    svc.ensure_admin_exists(&mut store, "different-secret", 2).unwrap();
    assert_eq!(store.list_all().len(), 1);
}

/// Bootstrap fails only when no admin exists and the configured secret
/// already names a non-admin key.
#[test]
fn bootstrap_collision_fails() {
    let mut svc = AuthService::new();
    let mut store = KeyStore::new();
    svc.create_api_key(&mut store, "taken", false, 1).unwrap();
    let err = svc
        .ensure_admin_exists(&mut store, "taken", 2)
        .unwrap_err();
    assert_eq!(err, AuthError::Bootstrap);
    let records = store.list_all();
    assert_eq!(records.len(), 1);
    assert!(!records[0].is_admin);
}

/// The administrative cache sweep: after it, a stale entry is gone and
/// the store is consulted again.
#[test]
fn cleanup_cache_forces_store_lookup() {
    let mut svc = AuthService::new();
    let mut store = KeyStore::new();
    svc.create_api_key(&mut store, "swept", false, 0).unwrap();
    svc.cleanup_cache(400);
    svc.validate_api_key(&mut store, "swept", 50).unwrap();
    assert_eq!(store.lookup_count(), 1);
}
