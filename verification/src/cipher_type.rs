//! The ciphers the packet layer can run, and their parameters.
use vstd::prelude::*;
use crate::text::str_eq;

verus! {

/// A packet cipher.
#[derive(Debug, Clone, Copy, PartialEq, Eq, Structural)]
pub enum CipherType {
    ChaCha20Poly1305,
    Aes256Ctr,
    Aes128Ctr,
}

/// The cipher an SSH algorithm name stands for, if it is one we run.
pub open spec fn cipher_for_name(name: Seq<char>) -> Option<CipherType> {
    if name == "chacha20-poly1305@openssh.com"@ {
        Some(CipherType::ChaCha20Poly1305)
    } else if name == "aes256-ctr"@ {
        Some(CipherType::Aes256Ctr)
    } else if name == "aes128-ctr"@ {
        Some(CipherType::Aes128Ctr)
    } else {
        None
    }
}

impl CipherType {
    /// The cipher for an SSH algorithm name, if it is one we run.
    pub fn from_name(name: &str) -> (r: Option<CipherType>)
        ensures
            r == cipher_for_name(name@),
    {
        if str_eq(name, "chacha20-poly1305@openssh.com") {
            Some(CipherType::ChaCha20Poly1305)
        } else if str_eq(name, "aes256-ctr") {
            Some(CipherType::Aes256Ctr)
        } else if str_eq(name, "aes128-ctr") {
            Some(CipherType::Aes128Ctr)
        } else {
            None
        }
    }

    /// Key length in bytes, as a spec value.
    pub open spec fn spec_key_size(self) -> usize {
        match self {
            CipherType::ChaCha20Poly1305 => 32,
            CipherType::Aes256Ctr => 32,
            CipherType::Aes128Ctr => 16,
        }
    }

    /// Key length in bytes.
    pub fn key_size(&self) -> (n: usize)
        ensures
            n == self.spec_key_size(),
    {
        match self {
            CipherType::ChaCha20Poly1305 => 32,
            CipherType::Aes256Ctr => 32,
            CipherType::Aes128Ctr => 16,
        }
    }

    /// IV (nonce) length in bytes.
    pub fn iv_size(&self) -> (n: usize)
        ensures
            n == (match self {
                CipherType::ChaCha20Poly1305 => 12usize,
                CipherType::Aes256Ctr => 16usize,
                CipherType::Aes128Ctr => 16usize,
            }),
    {
        match self {
            CipherType::ChaCha20Poly1305 => 12,
            CipherType::Aes256Ctr => 16,
            CipherType::Aes128Ctr => 16,
        }
    }

    /// Cipher block length in bytes.
    pub fn block_size(&self) -> (n: usize)
        ensures
            n == (match self {
                CipherType::ChaCha20Poly1305 => 8usize,
                CipherType::Aes256Ctr => 16usize,
                CipherType::Aes128Ctr => 16usize,
            }),
    {
        match self {
            CipherType::ChaCha20Poly1305 => 8,
            CipherType::Aes256Ctr => 16,
            CipherType::Aes128Ctr => 16,
        }
    }
}

} // verus!
