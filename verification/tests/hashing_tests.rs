//! Hashing and token generation.

use apiodactyl::hashing::hash_api_key;
use apiodactyl::service::AuthService;

/// The hash transform is deterministic and stable across repeated calls.
#[test]
fn hash_is_deterministic() {
    let a = hash_api_key("some-secret");
    let b = hash_api_key("some-secret");
    assert_eq!(a, b);
    let c = hash_api_key("another-secret");
    assert_ne!(a, c);
}

/// The transform is SHA-256 followed by lowercase hex: check two known
/// digests, which also checks that the digest and encoding calls do real
/// work rather than handing their input back.
#[test]
fn hash_matches_known_digests() {
    assert_eq!(
        hash_api_key(""),
        "e3b0c44298fc1c149afbf4c8996fb92427ae41e4649b934ca495991b7852b855"
    );
    assert_eq!(
        hash_api_key("abc"),
        "ba7816bf8f01cfea414140de5dae2223b00361a396177a9cb410ff61f20015ad"
    );
}

/// The hash is a 64-character lowercase hex string and never contains the
/// plaintext secret.
#[test]
fn hash_is_hex_and_not_plaintext() {
    let secret = "my-plain-secret";
    let h = hash_api_key(secret);
    assert_eq!(h.len(), 64);
    assert!(h.chars().all(|c| c.is_ascii_hexdigit() && !c.is_ascii_uppercase()));
    assert!(!h.contains(secret));
}

/// Generated tokens carry the stable prefix, have the documented shape,
/// and two generations differ.
#[test]
fn generated_key_shape() {
    let k1 = AuthService::generate_api_key();
    let k2 = AuthService::generate_api_key();
    assert_eq!(k1.len(), 35);
    assert!(k1.starts_with("ak_"));
    assert!(k1[3..].chars().all(|c| c.is_ascii_digit() || ('a'..='f').contains(&c)));
    assert_eq!(k2.len(), 35);
    assert!(k2.starts_with("ak_"));
    assert_ne!(k1, k2);
}
