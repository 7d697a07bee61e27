//! Randomness: fresh bytes and ephemeral X25519 secrets.
use vstd::prelude::*;
use rand::Rng;
use x25519_dalek::{EphemeralSecret, PublicKey};

verus! {

/// An ephemeral X25519 secret, used once.
#[verifier::external_type_specification]
#[verifier::external_body]
pub struct ExEphemeralSecret(EphemeralSecret);

/// `n` bytes from the thread-local generator.
///
/// Calls `rand::Rng::fill` on `rand::thread_rng()`. Claimed: the result has `n` bytes;
/// nothing is claimed of their values.
#[verifier::external_body]
pub(crate) fn random_bytes(n: usize) -> (r: Vec<u8>)
    ensures
        r@.len() == n,
{
    let mut v = vec![0u8; n];
    rand::thread_rng().fill(&mut v[..]);
    v
}

/// A fresh X25519 secret drawn from the operating system's generator.
///
/// Calls `EphemeralSecret::random_from_rng` with `rand_core::OsRng`. Nothing is claimed
/// of the secret.
#[verifier::external_body]
pub(crate) fn x25519_random_secret() -> EphemeralSecret {
    EphemeralSecret::random_from_rng(rand_core::OsRng)
}

/// The X25519 public key of a secret, as its 32 bytes.
///
/// Calls `PublicKey::from(&EphemeralSecret)` and `PublicKey::as_bytes`. Claimed: the
/// result is 32 bytes long (`as_bytes` returns `&[u8; 32]`).
#[verifier::external_body]
pub(crate) fn x25519_public_key(secret: &EphemeralSecret) -> (r: Vec<u8>)
    ensures
        r@.len() == 32,
{
    PublicKey::from(secret).as_bytes().to_vec()
}

} // verus!
