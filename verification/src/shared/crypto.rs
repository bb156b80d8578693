//! Cryptographic utilities, consumed as opaque capabilities.

use rand::RngCore;
use vstd::prelude::*;

verus! {

/// The SHA-256 digest of a byte sequence. The algorithm itself is outside
/// this library; only ring computes it.
pub uninterp spec fn sha256_of(data: Seq<u8>) -> Seq<u8>;

/// The ed25519 signing key type of ed25519-dalek, opaque to the verifier.
#[verifier::external_type_specification]
#[verifier::external_body]
pub struct ExSigningKey(ed25519_dalek::SigningKey);

/// Generate a new ed25519 signing key from the operating system's entropy.
///
/// Relies on rand's `OsRng` and ed25519-dalek's `SigningKey::from_bytes`:
/// the key is random, so nothing is promised of it.
#[verifier::external_body]
pub fn generate_keypair() -> ed25519_dalek::SigningKey {
    let mut secret = [0u8; 32];
    rand::rngs::OsRng.fill_bytes(&mut secret);
    ed25519_dalek::SigningKey::from_bytes(&secret)
}

/// Hash data using SHA-256.
///
/// Relies on ring's `digest` with the `SHA256` algorithm: the digest is a
/// function of the input bytes alone and is `SHA256_OUTPUT_LEN` (32) bytes
/// long.
#[verifier::external_body]
pub fn hash_data(data: &[u8]) -> (r: Vec<u8>)
    ensures
        r@ == sha256_of(data@),
        r@.len() == 32,
{
    ring::digest::digest(&ring::digest::SHA256, data).as_ref().to_vec()
}

} // verus!
