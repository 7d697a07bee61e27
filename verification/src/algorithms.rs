//! The algorithm names this server offers, in preference order, and the key
//! exchange methods they stand for.
use vstd::prelude::*;
use crate::text::str_eq;

verus! {

/// Key exchange algorithms, most preferred first.
pub const SUPPORTED_KEX: [&'static str; 5] = [
    "curve25519-sha256",
    "curve25519-sha256@libssh.org",
    "diffie-hellman-group14-sha256",
    "diffie-hellman-group14-sha1",
    "diffie-hellman-group1-sha1",
];

/// Encryption algorithms, most preferred first.
pub const SUPPORTED_ENCRYPTION: [&'static str; 3] = ["chacha20-poly1305@openssh.com", "aes256-ctr", "aes128-ctr"];

/// MAC algorithms, most preferred first.
pub const SUPPORTED_MAC: [&'static str; 2] = ["hmac-sha2-256", "hmac-sha1"];

/// Compression algorithms.
pub const SUPPORTED_COMPRESSION: [&'static str; 1] = ["none"];

/// The characters of each name in a list of names.
pub open spec fn str_views(names: Seq<&str>) -> Seq<Seq<char>> {
    names.map_values(|n: &str| n@)
}

/// A key exchange method.
#[derive(Debug, Clone, Copy, PartialEq, Eq, Structural)]
pub enum KexMethod {
    Curve25519,
    DiffieHellmanGroup14Sha256,
    DiffieHellmanGroup14Sha1,
    DiffieHellmanGroup1Sha1,
}

/// The key exchange method an algorithm name stands for.
pub open spec fn kex_for_name(name: Seq<char>) -> Option<KexMethod> {
    if name == "curve25519-sha256"@ || name == "curve25519-sha256@libssh.org"@ {
        Some(KexMethod::Curve25519)
    } else if name == "diffie-hellman-group14-sha256"@ {
        Some(KexMethod::DiffieHellmanGroup14Sha256)
    } else if name == "diffie-hellman-group14-sha1"@ {
        Some(KexMethod::DiffieHellmanGroup14Sha1)
    } else if name == "diffie-hellman-group1-sha1"@ {
        Some(KexMethod::DiffieHellmanGroup1Sha1)
    } else {
        None
    }
}

impl KexMethod {
    /// The method for an algorithm name, if it is one we run.
    pub fn from_name(name: &str) -> (r: Option<KexMethod>)
        ensures
            r == kex_for_name(name@),
    {
        if str_eq(name, "curve25519-sha256") || str_eq(name, "curve25519-sha256@libssh.org") {
            Some(KexMethod::Curve25519)
        } else if str_eq(name, "diffie-hellman-group14-sha256") {
            Some(KexMethod::DiffieHellmanGroup14Sha256)
        } else if str_eq(name, "diffie-hellman-group14-sha1") {
            Some(KexMethod::DiffieHellmanGroup14Sha1)
        } else if str_eq(name, "diffie-hellman-group1-sha1") {
            Some(KexMethod::DiffieHellmanGroup1Sha1)
        } else {
            None
        }
    }
}

/// The algorithms chosen for a session.
#[derive(Debug, Clone)]
pub struct NegotiatedAlgorithms {
    pub kex: String,
    pub encryption_c2s: String,
    pub encryption_s2c: String,
    pub mac_c2s: String,
    pub mac_s2c: String,
}

} // verus!
