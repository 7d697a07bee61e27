//! Calls into the cipher, MAC and hash crates, each with what it is trusted to do.
use vstd::prelude::*;
use aes::cipher::generic_array::GenericArray;
use aes::{Aes128, Aes256};
use chacha20poly1305::aead::{Aead, KeyInit};
use chacha20poly1305::ChaCha20Poly1305;
use ctr::cipher::{KeyIvInit, StreamCipher};
use hmac::{Hmac, Mac};
use sha1::Sha1;
use sha2::{Digest, Sha256};

verus! {

/// The ciphertext (tag appended) ChaCha20-Poly1305 makes of a plaintext, with no
/// associated data.
pub uninterp spec fn chacha20poly1305_seal(key: Seq<u8>, nonce: Seq<u8>, plaintext: Seq<u8>) -> Seq<
    u8,
>;

/// The plaintext ChaCha20-Poly1305 recovers from a ciphertext, with no associated
/// data, or `None` when the tag does not verify.
pub uninterp spec fn chacha20poly1305_open(key: Seq<u8>, nonce: Seq<u8>, ciphertext: Seq<u8>) -> Option<
    Seq<u8>,
>;

/// AES-256 in big-endian 128-bit counter mode, keystream applied from the start.
pub uninterp spec fn aes256_ctr(key: Seq<u8>, iv: Seq<u8>, data: Seq<u8>) -> Seq<u8>;

/// AES-128 in big-endian 128-bit counter mode, keystream applied from the start.
pub uninterp spec fn aes128_ctr(key: Seq<u8>, iv: Seq<u8>, data: Seq<u8>) -> Seq<u8>;

/// HMAC-SHA-256 of a message.
pub uninterp spec fn hmac_sha256(key: Seq<u8>, message: Seq<u8>) -> Seq<u8>;

/// HMAC-SHA-1 of a message.
pub uninterp spec fn hmac_sha1(key: Seq<u8>, message: Seq<u8>) -> Seq<u8>;

/// SHA-256 digest.
pub uninterp spec fn sha256(data: Seq<u8>) -> Seq<u8>;

/// SHA-1 digest.
pub uninterp spec fn sha1(data: Seq<u8>) -> Seq<u8>;

/// ChaCha20-Poly1305 encryption with a 32-byte key and 12-byte nonce.
///
/// Calls `ChaCha20Poly1305::new` and `Aead::encrypt`. Claimed: a result is the named
/// ciphertext, and decrypting it with the same key and nonce gives the plaintext back
/// (the AEAD's defining property). The crate refuses a buffer of `u32::MAX` or more
/// 64-byte blocks, so below that there is a result.
#[verifier::external_body]
pub(crate) fn chacha20poly1305_encrypt(key: &[u8], nonce: &[u8], plaintext: &[u8]) -> (r: Option<Vec<u8>>)
    requires
        key@.len() == 32,
        nonce@.len() == 12,
    ensures
        r matches Some(c) ==> c@ == chacha20poly1305_seal(key@, nonce@, plaintext@),
        r matches Some(c) ==> chacha20poly1305_open(key@, nonce@, c@) == Some(plaintext@),
        plaintext@.len() / 64 < u32::MAX ==> r is Some,
{
    let cipher = ChaCha20Poly1305::new(GenericArray::from_slice(key));
    cipher.encrypt(GenericArray::from_slice(nonce), plaintext).ok()
}

/// ChaCha20-Poly1305 decryption with a 32-byte key and 12-byte nonce.
///
/// Calls `ChaCha20Poly1305::new` and `Aead::decrypt`. Claimed: the result is the named
/// opening, `None` when the tag does not verify.
#[verifier::external_body]
pub(crate) fn chacha20poly1305_decrypt(key: &[u8], nonce: &[u8], ciphertext: &[u8]) -> (r: Option<Vec<u8>>)
    requires
        key@.len() == 32,
        nonce@.len() == 12,
    ensures
        match chacha20poly1305_open(key@, nonce@, ciphertext@) {
            Some(p) => r matches Some(v) && v@ == p,
            None => r is None,
        },
{
    let cipher = ChaCha20Poly1305::new(GenericArray::from_slice(key));
    cipher.decrypt(GenericArray::from_slice(nonce), ciphertext).ok()
}

/// AES-256-CTR over `data` with a 32-byte key and 16-byte IV.
///
/// Calls `Ctr128BE::<Aes256>::new` and `StreamCipher::apply_keystream`. Claimed: the
/// result is the named keystream application, as long as the input, and, the
/// keystream being XORed in, applying it again gives the input back.
#[verifier::external_body]
pub(crate) fn aes256_ctr_apply(key: &[u8], iv: &[u8], data: &[u8]) -> (r: Vec<u8>)
    requires
        key@.len() == 32,
        iv@.len() == 16,
    ensures
        r@ == aes256_ctr(key@, iv@, data@),
        r@.len() == data@.len(),
        aes256_ctr(key@, iv@, r@) == data@,
{
    let mut buf = data.to_vec();
    let mut c = ctr::Ctr128BE::<Aes256>::new(GenericArray::from_slice(key), GenericArray::from_slice(iv));
    c.apply_keystream(&mut buf);
    buf
}

/// AES-128-CTR over `data` with a 16-byte key and 16-byte IV.
///
/// Calls `Ctr128BE::<Aes128>::new` and `StreamCipher::apply_keystream`. Claimed as for
/// the AES-256 form: the named result, of the input's length, and its own inverse.
#[verifier::external_body]
pub(crate) fn aes128_ctr_apply(key: &[u8], iv: &[u8], data: &[u8]) -> (r: Vec<u8>)
    requires
        key@.len() == 16,
        iv@.len() == 16,
    ensures
        r@ == aes128_ctr(key@, iv@, data@),
        r@.len() == data@.len(),
        aes128_ctr(key@, iv@, r@) == data@,
{
    let mut buf = data.to_vec();
    let mut c = ctr::Ctr128BE::<Aes128>::new(GenericArray::from_slice(key), GenericArray::from_slice(iv));
    c.apply_keystream(&mut buf);
    buf
}

/// HMAC-SHA-256 tag of `message` under `key`.
///
/// Calls `Hmac::<Sha256>::new_from_slice` (which accepts any key length), `update` and
/// `finalize`. Claimed: the named tag, 32 bytes long.
#[verifier::external_body]
pub(crate) fn hmac_sha256_tag(key: &[u8], message: &[u8]) -> (r: Vec<u8>)
    ensures
        r@ == hmac_sha256(key@, message@),
        r@.len() == 32,
{
    let mut mac = <Hmac<Sha256> as Mac>::new_from_slice(key).unwrap();
    mac.update(message);
    mac.finalize().into_bytes().to_vec()
}

/// HMAC-SHA-1 tag of `message` under `key`.
///
/// Calls `Hmac::<Sha1>::new_from_slice` (which accepts any key length), `update` and
/// `finalize`. Claimed: the named tag, 20 bytes long.
#[verifier::external_body]
pub(crate) fn hmac_sha1_tag(key: &[u8], message: &[u8]) -> (r: Vec<u8>)
    ensures
        r@ == hmac_sha1(key@, message@),
        r@.len() == 20,
{
    let mut mac = <Hmac<Sha1> as Mac>::new_from_slice(key).unwrap();
    mac.update(message);
    mac.finalize().into_bytes().to_vec()
}

/// SHA-256 digest of `data`.
///
/// Calls `Sha256::digest`. Claimed: the named digest, 32 bytes long.
#[verifier::external_body]
pub(crate) fn sha256_digest(data: &[u8]) -> (r: Vec<u8>)
    ensures
        r@ == sha256(data@),
        r@.len() == 32,
{
    Sha256::digest(data).to_vec()
}

/// SHA-1 digest of `data`.
///
/// Calls `Sha1::digest`. Claimed: the named digest, 20 bytes long.
#[verifier::external_body]
pub(crate) fn sha1_digest(data: &[u8]) -> (r: Vec<u8>)
    ensures
        r@ == sha1(data@),
        r@.len() == 20,
{
    Sha1::digest(data).to_vec()
}

} // verus!
