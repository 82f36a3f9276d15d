//! One-way key hashing and plaintext-token generation.
//!
//! A presented secret is mapped to its lookup identifier by SHA-256 followed
//! by lowercase hex encoding. The transform is deterministic and carries no
//! per-process salt, so the same secret maps to the same stored hash across
//! calls and across process restarts.

use sha2::Digest;
use vstd::prelude::*;

verus! {

/// The SHA-256 digest of the UTF-8 content of a string.
///
/// The digest is a pure function of the input alone; nothing further is
/// assumed of its value beyond its 32-byte length (stated at the call).
pub uninterp spec fn sha256_of(s: Seq<char>) -> Seq<u8>;

/// The sixteen lowercase hexadecimal digit characters, in value order.
pub open spec fn hex_digit(n: u8) -> char
    recommends
        n < 16,
{
    seq!['0', '1', '2', '3', '4', '5', '6', '7', '8', '9', 'a', 'b', 'c', 'd', 'e', 'f'][n as int]
}

/// Lowercase hex encoding: each byte becomes two digits, high nibble first.
pub open spec fn hex_of(bytes: Seq<u8>) -> Seq<char>
    decreases bytes.len(),
{
    if bytes.len() == 0 {
        Seq::<char>::empty()
    } else {
        seq![hex_digit(bytes.first() / 16), hex_digit(bytes.first() % 16)] + hex_of(
            bytes.drop_first(),
        )
    }
}

/// The hex encoding of a byte sequence is exactly twice as long.
pub proof fn lemma_hex_of_len(bytes: Seq<u8>)
    ensures
        hex_of(bytes).len() == 2 * bytes.len(),
    decreases bytes.len(),
{
    if bytes.len() > 0 {
        lemma_hex_of_len(bytes.drop_first());
    }
}

/// The lookup identifier stored for a secret: lowercase hex of its SHA-256
/// digest.
pub open spec fn key_hash_of(s: Seq<char>) -> Seq<char> {
    hex_of(sha256_of(s))
}

/// Relies on sha2's `Sha256`: the digest depends on the input bytes alone
/// and is 32 bytes long.
#[verifier::external_body]
fn sha256_digest(key: &str) -> (r: Vec<u8>)
    ensures
        r@ == sha256_of(key@),
        r@.len() == 32,
{
    let mut hasher = sha2::Sha256::new();
    hasher.update(key.as_bytes());
    hasher.finalize().to_vec()
}

/// Relies on hex's `encode`: lowercase hex, two digits per byte, high
/// nibble first.
#[verifier::external_body]
fn hex_encode(bytes: &[u8]) -> (r: String)
    ensures
        r@ == hex_of(bytes@),
{
    hex::encode(bytes)
}

/// Hash a presented secret into its stored lookup identifier.
pub fn hash_api_key(key: &str) -> (r: String)
    ensures
        r@ == key_hash_of(key@),
        r@.len() == 64,
{
    let digest = sha256_digest(key);
    let encoded = hex_encode(digest.as_slice());
    proof {
        lemma_hex_of_len(digest@);
    }
    encoded
}

/// The hash transform is deterministic: any two results of hashing the same
/// secret are equal, whether from repeated calls or from separate processes.
pub proof fn lemma_hash_deterministic(s: Seq<char>, r1: Seq<char>, r2: Seq<char>)
    requires
        r1 == key_hash_of(s),
        r2 == key_hash_of(s),
    ensures
        r1 == r2,
{
}

/// A generated plaintext token's character is a lowercase hex digit.
pub open spec fn is_lower_hex_digit(c: char) -> bool {
    ('0' <= c && c <= '9') || ('a' <= c && c <= 'f')
}

/// Relies on uuid's `Uuid::new_v4` and its `Simple` formatter: the random
/// part renders as exactly 32 lowercase hexadecimal digits. The value is
/// random, so nothing is assumed beyond the shape of every outcome.
#[verifier::external_body]
pub(crate) fn random_token() -> (r: String)
    ensures
        r@.len() == 35,
        r@.subrange(0, 3) == "ak_"@,
        forall|i: int| 3 <= i < 35 ==> is_lower_hex_digit(#[trigger] r@[i]),
{
    format!("ak_{}", uuid::Uuid::new_v4().simple())
}

} // verus!
