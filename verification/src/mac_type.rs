//! The MACs the packet layer can run.
use vstd::prelude::*;
use crate::text::str_eq;

verus! {

/// A packet MAC; `NoMac` for the AEAD cipher, which authenticates by itself.
#[derive(Debug, Clone, Copy, PartialEq, Eq, Structural)]
pub enum MacType {
    /// No MAC.
    NoMac,
    HmacSha256,
    HmacSha1,
}

/// The MAC an SSH algorithm name stands for, if it is one we run.
pub open spec fn mac_for_name(name: Seq<char>) -> Option<MacType> {
    if name == "none"@ {
        Some(MacType::NoMac)
    } else if name == "hmac-sha2-256"@ {
        Some(MacType::HmacSha256)
    } else if name == "hmac-sha1"@ {
        Some(MacType::HmacSha1)
    } else {
        None
    }
}

impl MacType {
    /// The MAC for an SSH algorithm name, if it is one we run.
    pub fn from_name(name: &str) -> (r: Option<MacType>)
        ensures
            r == mac_for_name(name@),
    {
        if str_eq(name, "none") {
            Some(MacType::NoMac)
        } else if str_eq(name, "hmac-sha2-256") {
            Some(MacType::HmacSha256)
        } else if str_eq(name, "hmac-sha1") {
            Some(MacType::HmacSha1)
        } else {
            None
        }
    }

    /// Tag length in bytes, as a spec value.
    pub open spec fn spec_mac_size(self) -> usize {
        match self {
            MacType::NoMac => 0,
            MacType::HmacSha256 => 32,
            MacType::HmacSha1 => 20,
        }
    }

    /// Tag length in bytes.
    pub fn mac_size(&self) -> (n: usize)
        ensures
            n == self.spec_mac_size(),
    {
        match self {
            MacType::NoMac => 0,
            MacType::HmacSha256 => 32,
            MacType::HmacSha1 => 20,
        }
    }
}

} // verus!
