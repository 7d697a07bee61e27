//! One direction of packet protection: the cipher, the MAC, the keys and the packet
//! sequence number.
use vstd::prelude::*;
use crate::cipher_type::{CipherType, cipher_for_name};
use crate::mac_type::{MacType, mac_for_name};
use crate::crypto::{
    chacha20poly1305_seal, chacha20poly1305_open, aes256_ctr, aes128_ctr, hmac_sha256, hmac_sha1,
    chacha20poly1305_encrypt, chacha20poly1305_decrypt, aes256_ctr_apply, aes128_ctr_apply,
    hmac_sha256_tag, hmac_sha1_tag,
};
use crate::error::SshError;
use crate::wire::{u32_be, put_u32, put_slice, to_vec};

verus! {

/// The ChaCha20-Poly1305 nonce for a sequence number: eight zero bytes, then the
/// number big-endian.
pub open spec fn chacha_nonce(seq: u32) -> Seq<u8> {
    seq![0u8, 0u8, 0u8, 0u8, 0u8, 0u8, 0u8, 0u8] + u32_be(seq)
}

/// The MAC of `data` at sequence number `seq`: the tag over the number (big-endian)
/// followed by the data; empty without a MAC.
pub open spec fn packet_mac(mac: MacType, key: Seq<u8>, seq: u32, data: Seq<u8>) -> Seq<u8> {
    match mac {
        MacType::HmacSha256 => hmac_sha256(key, u32_be(seq) + data),
        MacType::HmacSha1 => hmac_sha1(key, u32_be(seq) + data),
        MacType::NoMac => Seq::empty(),
    }
}

/// Whether an AES-CTR key and IV are long enough, and if not, why.
pub open spec fn aes_material_check(cipher: CipherType, key: Seq<u8>, iv: Seq<u8>) -> Result<
    (),
    SshError,
> {
    if key.len() < cipher.spec_key_size() {
        Err(SshError::InvalidKeySize)
    } else if iv.len() < 16 {
        Err(SshError::InvalidIvSize)
    } else {
        Ok(())
    }
}

/// The AES-CTR keystream applied with the first key-size bytes of the key and the
/// first 16 bytes of the IV.
pub open spec fn aes_apply(cipher: CipherType, key: Seq<u8>, iv: Seq<u8>, data: Seq<u8>) -> Seq<u8> {
    if cipher == CipherType::Aes256Ctr {
        aes256_ctr(key.subrange(0, 32), iv.subrange(0, 16), data)
    } else {
        aes128_ctr(key.subrange(0, 16), iv.subrange(0, 16), data)
    }
}

/// Why setting up a direction from these names and key would be refused, if it would.
pub open spec fn setup_error(cipher_name: Seq<char>, mac_name: Seq<char>, key: Seq<u8>) -> Option<
    SshError,
> {
    match cipher_for_name(cipher_name) {
        None => Some(SshError::UnsupportedCipher),
        Some(c) => if mac_for_name(mac_name) is None {
            Some(SshError::UnsupportedMac)
        } else if c == CipherType::ChaCha20Poly1305 && key.len() < 32 {
            Some(SshError::InvalidKeySize)
        } else {
            None
        },
    }
}

/// `st` is a fresh direction set up from these names and key material: the named cipher
/// and MAC, sequence number 0, the first 32 key bytes for ChaCha20-Poly1305, and for
/// AES-CTR the key and IV as given, with the MAC key when there is a MAC.
pub open spec fn set_up_from(
    st: CipherState,
    cipher_name: Seq<char>,
    mac_name: Seq<char>,
    key: Seq<u8>,
    iv: Seq<u8>,
    mac_key: Seq<u8>,
) -> bool {
    &&& Some(st.cipher()) == cipher_for_name(cipher_name)
    &&& Some(st.mac()) == mac_for_name(mac_name)
    &&& st.seq() == 0
    &&& st.cipher() == CipherType::ChaCha20Poly1305 ==> st.chacha_key() == key.subrange(0, 32)
    &&& st.cipher() != CipherType::ChaCha20Poly1305 ==> st.aes_key() == key && st.aes_iv() == iv && (
    st.mac() != MacType::NoMac ==> st.mac_key() == mac_key)
}

/// Packet protection for one direction.
pub struct CipherState {
    cipher_type: CipherType,
    mac_type: MacType,
    sequence: u32,
    chacha_key: Option<Vec<u8>>,
    aes_key: Option<Vec<u8>>,
    aes_iv: Option<Vec<u8>>,
    mac_key: Option<Vec<u8>>,
}

/// `post` is `pre` moved to the next packet: the sequence number one on (wrapping),
/// the cipher, the MAC and the keys as they were.
pub open spec fn next_state(pre: CipherState, post: CipherState) -> bool {
    &&& post.cipher() == pre.cipher()
    &&& post.mac() == pre.mac()
    &&& post.seq() == pre.seq().wrapping_add(1)
    &&& post.chacha_key() == pre.chacha_key()
    &&& post.aes_key() == pre.aes_key()
    &&& post.aes_iv() == pre.aes_iv()
    &&& post.mac_key() == pre.mac_key()
}

impl CipherState {
    #[verifier::type_invariant]
    spec fn keys_present(self) -> bool {
        &&& self.cipher_type == CipherType::ChaCha20Poly1305 ==> (self.chacha_key matches Some(k)
            && k@.len() == 32)
        &&& self.cipher_type != CipherType::ChaCha20Poly1305 ==> self.aes_key is Some
            && self.aes_iv is Some
        &&& self.cipher_type != CipherType::ChaCha20Poly1305 && self.mac_type != MacType::NoMac
            ==> self.mac_key is Some
    }

    /// The cipher.
    pub closed spec fn cipher(&self) -> CipherType {
        self.cipher_type
    }

    /// The MAC.
    pub closed spec fn mac(&self) -> MacType {
        self.mac_type
    }

    /// The sequence number of the next packet.
    pub closed spec fn seq(&self) -> u32 {
        self.sequence
    }

    /// The ChaCha20-Poly1305 key (the first 32 bytes of the key given).
    pub closed spec fn chacha_key(&self) -> Seq<u8> {
        self.chacha_key.unwrap()@
    }

    /// The AES key as given.
    pub closed spec fn aes_key(&self) -> Seq<u8> {
        self.aes_key.unwrap()@
    }

    /// The AES IV as given.
    pub closed spec fn aes_iv(&self) -> Seq<u8> {
        self.aes_iv.unwrap()@
    }

    /// The MAC key as given.
    pub closed spec fn mac_key(&self) -> Seq<u8> {
        self.mac_key.unwrap()@
    }

    /// What encrypting `plaintext` as the next packet gives: for ChaCha20-Poly1305 the
    /// sealed packet; for AES-CTR the ciphertext with the MAC of the plaintext appended.
    pub open spec fn spec_encrypt(&self, plaintext: Seq<u8>) -> Result<Seq<u8>, SshError> {
        if self.cipher() == CipherType::ChaCha20Poly1305 {
            Ok(chacha20poly1305_seal(self.chacha_key(), chacha_nonce(self.seq()), plaintext))
        } else {
            match aes_material_check(self.cipher(), self.aes_key(), self.aes_iv()) {
                Err(e) => Err(e),
                Ok(_) => Ok(
                    aes_apply(self.cipher(), self.aes_key(), self.aes_iv(), plaintext) + packet_mac(
                        self.mac(),
                        self.mac_key(),
                        self.seq(),
                        plaintext,
                    ),
                ),
            }
        }
    }

    /// What decrypting `ciphertext` as the next packet gives: for ChaCha20-Poly1305 the
    /// opened packet; for AES-CTR the encrypted part decrypted, once the appended MAC
    /// matches the MAC of the sequence number and the decrypted packet.
    pub open spec fn spec_decrypt(&self, ciphertext: Seq<u8>) -> Result<Seq<u8>, SshError> {
        if self.cipher() == CipherType::ChaCha20Poly1305 {
            match chacha20poly1305_open(self.chacha_key(), chacha_nonce(self.seq()), ciphertext) {
                Some(p) => Ok(p),
                None => Err(SshError::DecryptionFailed),
            }
        } else {
            let n = self.mac().spec_mac_size() as int;
            if self.mac() != MacType::NoMac && ciphertext.len() < n {
                Err(SshError::CiphertextTooShort)
            } else {
                let body = ciphertext.subrange(0, ciphertext.len() - n);
                let tag = ciphertext.subrange(ciphertext.len() - n, ciphertext.len() as int);
                match aes_material_check(self.cipher(), self.aes_key(), self.aes_iv()) {
                    Err(e) => Err(e),
                    Ok(_) => {
                        let plain = aes_apply(self.cipher(), self.aes_key(), self.aes_iv(), body);
                        if self.mac() != MacType::NoMac && tag != packet_mac(
                            self.mac(),
                            self.mac_key(),
                            self.seq(),
                            plain,
                        ) {
                            Err(SshError::MacMismatch)
                        } else {
                            Ok(plain)
                        }
                    },
                }
            }
        }
    }

    /// Sets up one direction from algorithm names and key material.
    pub fn new(cipher_name: &str, mac_name: &str, key: &[u8], iv: &[u8], mac_key: &[u8]) -> (r:
        Result<CipherState, SshError>)
        ensures
            match setup_error(cipher_name@, mac_name@, key@) {
                Some(e) => r == Err::<CipherState, SshError>(e),
                None => r matches Ok(st) && set_up_from(st, cipher_name@, mac_name@, key@, iv@, mac_key@),
            },
    {
        let cipher_type = match CipherType::from_name(cipher_name) {
            Some(c) => c,
            None => {
                return Err(SshError::UnsupportedCipher);
            },
        };
        let mac_type = match MacType::from_name(mac_name) {
            Some(m) => m,
            None => {
                return Err(SshError::UnsupportedMac);
            },
        };
        match cipher_type {
            CipherType::ChaCha20Poly1305 => {
                if key.len() < 32 {
                    return Err(SshError::InvalidKeySize);
                }
                let k = to_vec(&key[0..32]);
                Ok(
                    CipherState {
                        cipher_type,
                        mac_type,
                        sequence: 0,
                        chacha_key: Some(k),
                        aes_key: None,
                        aes_iv: None,
                        mac_key: None,
                    },
                )
            },
            _ => {
                let mk = if mac_type != MacType::NoMac {
                    Some(to_vec(mac_key))
                } else {
                    None
                };
                Ok(
                    CipherState {
                        cipher_type,
                        mac_type,
                        sequence: 0,
                        chacha_key: None,
                        aes_key: Some(to_vec(key)),
                        aes_iv: Some(to_vec(iv)),
                        mac_key: mk,
                    },
                )
            },
        }
    }

    /// Decryption depends only on the cipher, the MAC, the sequence number and the keys:
    /// two states that agree on these decrypt every packet alike. With the ensures of
    /// `encrypt_packet`, a receiving state set up with the sender's names and key material
    /// at the sender's sequence number recovers every packet the sender encrypts (for
    /// every cipher and MAC).
    pub proof fn lemma_decrypt_agrees(a: &CipherState, b: &CipherState, ciphertext: Seq<u8>)
        requires
            a.cipher() == b.cipher(),
            a.mac() == b.mac(),
            a.seq() == b.seq(),
            a.cipher() == CipherType::ChaCha20Poly1305 ==> a.chacha_key() == b.chacha_key(),
            a.cipher() != CipherType::ChaCha20Poly1305 ==> a.aes_key() == b.aes_key() && a.aes_iv()
                == b.aes_iv() && (a.mac() != MacType::NoMac ==> a.mac_key() == b.mac_key()),
        ensures
            a.spec_decrypt(ciphertext) == b.spec_decrypt(ciphertext),
    {
    }

    /// The sequence number of the next packet.
    pub fn sequence(&self) -> (n: u32)
        ensures
            n == self.seq(),
    {
        self.sequence
    }

    /// The MAC of `data` at sequence number `seq`.
    fn compute_mac(&self, seq: u32, data: &[u8]) -> (r: Vec<u8>)
        requires
            self.cipher() != CipherType::ChaCha20Poly1305,
            self.mac() != MacType::NoMac,
        ensures
            r@ == packet_mac(self.mac(), self.mac_key(), seq, data@),
            r@.len() == self.mac().spec_mac_size(),
    {
        proof {
            use_type_invariant(self);
        }
        let key = self.mac_key.as_ref().unwrap();
        let mut input: Vec<u8> = Vec::new();
        put_u32(&mut input, seq);
        put_slice(&mut input, data);
        match self.mac_type {
            MacType::HmacSha256 => hmac_sha256_tag(key.as_slice(), input.as_slice()),
            _ => hmac_sha1_tag(key.as_slice(), input.as_slice()),
        }
    }

    /// AES-CTR over `data` with this direction's key and IV, after checking their lengths.
    fn apply_aes(&self, data: &[u8]) -> (r: Result<Vec<u8>, SshError>)
        requires
            self.cipher() != CipherType::ChaCha20Poly1305,
        ensures
            match aes_material_check(self.cipher(), self.aes_key(), self.aes_iv()) {
                Err(e) => r == Err::<Vec<u8>, SshError>(e),
                Ok(_) => r matches Ok(v) && v@ == aes_apply(
                    self.cipher(),
                    self.aes_key(),
                    self.aes_iv(),
                    data@,
                ) && aes_apply(self.cipher(), self.aes_key(), self.aes_iv(), v@) == data@
                    && v@.len() == data@.len(),
            },
    {
        proof {
            use_type_invariant(self);
        }
        let key = self.aes_key.as_ref().unwrap();
        let iv = self.aes_iv.as_ref().unwrap();
        match self.cipher_type {
            CipherType::Aes256Ctr => {
                if key.len() < 32 {
                    return Err(SshError::InvalidKeySize);
                }
                if iv.len() < 16 {
                    return Err(SshError::InvalidIvSize);
                }
                Ok(aes256_ctr_apply(&key.as_slice()[0..32], &iv.as_slice()[0..16], data))
            },
            _ => {
                if key.len() < 16 {
                    return Err(SshError::InvalidKeySize);
                }
                if iv.len() < 16 {
                    return Err(SshError::InvalidIvSize);
                }
                Ok(aes128_ctr_apply(&key.as_slice()[0..16], &iv.as_slice()[0..16], data))
            },
        }
    }

    /// Encrypts the next packet and moves to the next sequence number (wrapping),
    /// whether or not encryption succeeds.
    pub fn encrypt_packet(&mut self, plaintext: &[u8]) -> (r: Result<Vec<u8>, SshError>)
        ensures
            final(self).seq() == old(self).seq().wrapping_add(1),
            final(self).cipher() == old(self).cipher(),
            final(self).mac() == old(self).mac(),
            next_state(*old(self), *final(self)),
            old(self).cipher() != CipherType::ChaCha20Poly1305 ==> match old(self).spec_encrypt(
                plaintext@,
            ) {
                Ok(c) => r matches Ok(v) && v@ == c,
                Err(e) => r == Err::<Vec<u8>, SshError>(e),
            },
            old(self).cipher() == CipherType::ChaCha20Poly1305 ==> {
                &&& r matches Ok(v) ==> old(self).spec_encrypt(plaintext@) == Ok::<
                    Seq<u8>,
                    SshError,
                >(v@)
                &&& r matches Err(e) ==> e == SshError::EncryptionFailed
                &&& plaintext@.len() / 64 < u32::MAX ==> r is Ok
            },
            r matches Ok(c) ==> (old(self).cipher() != CipherType::ChaCha20Poly1305 ==> c@.len()
                == plaintext@.len() + old(self).mac().spec_mac_size()),
            r matches Ok(c) ==> old(self).spec_decrypt(c@) == Ok::<Seq<u8>, SshError>(plaintext@),
    {
        proof {
            use_type_invariant(&*self);
        }
        let seq = self.sequence;
        self.sequence = self.sequence.wrapping_add(1);
        if self.cipher_type == CipherType::ChaCha20Poly1305 {
            let mut nonce: Vec<u8> = vec![0u8, 0u8, 0u8, 0u8, 0u8, 0u8, 0u8, 0u8];
            put_u32(&mut nonce, seq);
            let key = self.chacha_key.as_ref().unwrap();
            match chacha20poly1305_encrypt(key.as_slice(), nonce.as_slice(), plaintext) {
                Some(c) => Ok(c),
                None => Err(SshError::EncryptionFailed),
            }
        } else {
            let mut ciphertext = match self.apply_aes(plaintext) {
                Ok(c) => c,
                Err(e) => {
                    return Err(e);
                },
            };
            if self.mac_type != MacType::NoMac {
                let mac = self.compute_mac(seq, plaintext);
                let ghost body = ciphertext@;
                put_slice(&mut ciphertext, mac.as_slice());
                proof {
                    let n = self.mac_type.spec_mac_size() as int;
                    assert(ciphertext@.subrange(0, ciphertext@.len() - n) =~= body);
                    assert(ciphertext@.subrange(ciphertext@.len() - n, ciphertext@.len() as int) =~= mac@);
                }
            } else {
                proof {
                    assert(ciphertext@ + Seq::<u8>::empty() =~= ciphertext@);
                    assert(ciphertext@.subrange(0, ciphertext@.len() as int) =~= ciphertext@);
                }
            }
            Ok(ciphertext)
        }
    }

    /// Decrypts the next packet and moves to the next sequence number (wrapping),
    /// whether or not decryption succeeds.
    pub fn decrypt_packet(&mut self, ciphertext: &[u8]) -> (r: Result<Vec<u8>, SshError>)
        ensures
            final(self).seq() == old(self).seq().wrapping_add(1),
            final(self).cipher() == old(self).cipher(),
            final(self).mac() == old(self).mac(),
            next_state(*old(self), *final(self)),
            match old(self).spec_decrypt(ciphertext@) {
                Ok(p) => r matches Ok(v) && v@ == p,
                Err(e) => r == Err::<Vec<u8>, SshError>(e),
            },
    {
        proof {
            use_type_invariant(&*self);
        }
        let seq = self.sequence;
        self.sequence = self.sequence.wrapping_add(1);
        if self.cipher_type == CipherType::ChaCha20Poly1305 {
            let mut nonce: Vec<u8> = vec![0u8, 0u8, 0u8, 0u8, 0u8, 0u8, 0u8, 0u8];
            put_u32(&mut nonce, seq);
            let key = self.chacha_key.as_ref().unwrap();
            match chacha20poly1305_decrypt(key.as_slice(), nonce.as_slice(), ciphertext) {
                Some(p) => Ok(p),
                None => Err(SshError::DecryptionFailed),
            }
        } else {
            let (body, tag): (&[u8], Option<&[u8]>) = if self.mac_type != MacType::NoMac {
                let n = self.mac_type.mac_size();
                if ciphertext.len() < n {
                    return Err(SshError::CiphertextTooShort);
                }
                let split = ciphertext.len() - n;
                (&ciphertext[0..split], Some(&ciphertext[split..ciphertext.len()]))
            } else {
                proof {
                    assert(ciphertext@.subrange(0, ciphertext@.len() as int) =~= ciphertext@);
                }
                (ciphertext, None)
            };
            let plain = match self.apply_aes(body) {
                Ok(p) => p,
                Err(e) => {
                    return Err(e);
                },
            };
            match tag {
                Some(t) => {
                    let computed = self.compute_mac(seq, plain.as_slice());
                    if !crate::text::bytes_eq(t, computed.as_slice()) {
                        return Err(SshError::MacMismatch);
                    }
                },
                None => {},
            }
            Ok(plain)
        }
    }
}

} // verus!
