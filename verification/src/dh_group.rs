//! The fixed Diffie-Hellman groups (RFC 3526 group 14, RFC 2409 group 1) and
//! modular exponentiation on big-endian byte strings.
use vstd::prelude::*;
use vstd::arithmetic::power::pow;
use num_bigint::BigUint;
use crate::wire::to_vec;

verus! {

/// The unsigned integer a big-endian byte string stands for.
pub open spec fn be_value(s: Seq<u8>) -> nat
    decreases s.len(),
{
    if s.len() == 0 {
        0
    } else {
        be_value(s.drop_last()) * 256 + s.last() as nat
    }
}

/// A byte string with a non-zero byte stands for a non-zero integer.
pub proof fn lemma_be_value_positive(s: Seq<u8>, i: int)
    requires
        0 <= i < s.len(),
        s[i] != 0,
    ensures
        be_value(s) > 0,
    decreases s.len(),
{
    if i < s.len() - 1 {
        lemma_be_value_positive(s.drop_last(), i);
    }
}

/// `base ^ exponent mod modulus` on big-endian byte strings.
///
/// Calls `BigUint::modpow`, converting with `BigUint::from_bytes_be` and
/// `BigUint::to_bytes_be`. Claimed, as the crate documents: the result stands for
/// `(base ^ exponent) % modulus`, written without leading zero bytes (zero as one zero
/// byte). The crate panics on a zero modulus, which `requires` rules out.
#[verifier::external_body]
pub(crate) fn modpow_be(base: &[u8], exponent: &[u8], modulus: &[u8]) -> (r: Vec<u8>)
    requires
        be_value(modulus@) > 0,
    ensures
        be_value(r@) == pow(be_value(base@) as int, be_value(exponent@)) % (be_value(modulus@) as int),
        r@.len() >= 1,
        r@.len() > 1 ==> r@[0] != 0,
{
    let b = BigUint::from_bytes_be(base);
    let e = BigUint::from_bytes_be(exponent);
    let m = BigUint::from_bytes_be(modulus);
    b.modpow(&e, &m).to_bytes_be()
}

/// The 2048-bit MODP prime of RFC 3526 (group 14), big-endian.
pub const GROUP14_PRIME: [u8; 256] = [
    0xff, 0xff, 0xff, 0xff, 0xff, 0xff, 0xff, 0xff, 0xc9, 0x0f, 0xda, 0xa2, 0x21, 0x68, 0xc2, 0x34,
    0xc4, 0xc6, 0x62, 0x8b, 0x80, 0xdc, 0x1c, 0xd1, 0x29, 0x02, 0x4e, 0x08, 0x8a, 0x67, 0xcc, 0x74,
    0x02, 0x0b, 0xbe, 0xa6, 0x3b, 0x13, 0x9b, 0x22, 0x51, 0x4a, 0x08, 0x79, 0x8e, 0x34, 0x04, 0xdd,
    0xef, 0x95, 0x19, 0xb3, 0xcd, 0x3a, 0x43, 0x1b, 0x30, 0x2b, 0x0a, 0x6d, 0xf2, 0x5f, 0x14, 0x37,
    0x4f, 0xe1, 0x35, 0x6d, 0x6d, 0x51, 0xc2, 0x45, 0xe4, 0x85, 0xb5, 0x76, 0x62, 0x5e, 0x7e, 0xc6,
    0xf4, 0x4c, 0x42, 0xe9, 0xa6, 0x37, 0xed, 0x6b, 0x0b, 0xff, 0x5c, 0xb6, 0xf4, 0x06, 0xb7, 0xed,
    0xee, 0x38, 0x6b, 0xfb, 0x5a, 0x89, 0x9f, 0xa5, 0xae, 0x9f, 0x24, 0x11, 0x7c, 0x4b, 0x1f, 0xe6,
    0x49, 0x28, 0x66, 0x51, 0xec, 0xe4, 0x5b, 0x3d, 0xc2, 0x00, 0x7c, 0xb8, 0xa1, 0x63, 0xbf, 0x05,
    0x98, 0xda, 0x48, 0x36, 0x1c, 0x55, 0xd3, 0x9a, 0x69, 0x16, 0x3f, 0xa8, 0xfd, 0x24, 0xcf, 0x5f,
    0x83, 0x65, 0x5d, 0x23, 0xdc, 0xa3, 0xad, 0x96, 0x1c, 0x62, 0xf3, 0x56, 0x20, 0x85, 0x52, 0xbb,
    0x9e, 0xd5, 0x29, 0x07, 0x70, 0x96, 0x96, 0x6d, 0x67, 0x0c, 0x35, 0x4e, 0x4a, 0xbc, 0x98, 0x04,
    0xf1, 0x74, 0x6c, 0x08, 0xca, 0x18, 0x21, 0x7c, 0x32, 0x90, 0x5e, 0x46, 0x2e, 0x36, 0xce, 0x3b,
    0xe3, 0x9e, 0x77, 0x2c, 0x18, 0x0e, 0x86, 0x03, 0x9b, 0x27, 0x83, 0xa2, 0xec, 0x07, 0xa2, 0x8f,
    0xb5, 0xc5, 0x5d, 0xf0, 0x6f, 0x4c, 0x52, 0xc9, 0xde, 0x2b, 0xcb, 0xf6, 0x95, 0x58, 0x17, 0x18,
    0x39, 0x95, 0x49, 0x7c, 0xea, 0x95, 0x6a, 0xe5, 0x15, 0xd2, 0x26, 0x18, 0x98, 0xfa, 0x05, 0x10,
    0x15, 0x72, 0x8e, 0x5a, 0x8a, 0xac, 0xaa, 0x68, 0xff, 0xff, 0xff, 0xff, 0xff, 0xff, 0xff, 0xff,
];

/// The 1024-bit MODP prime of RFC 2409 (group 1), big-endian.
pub const GROUP1_PRIME: [u8; 128] = [
    0xff, 0xff, 0xff, 0xff, 0xff, 0xff, 0xff, 0xff, 0xc9, 0x0f, 0xda, 0xa2, 0x21, 0x68, 0xc2, 0x34,
    0xc4, 0xc6, 0x62, 0x8b, 0x80, 0xdc, 0x1c, 0xd1, 0x29, 0x02, 0x4e, 0x08, 0x8a, 0x67, 0xcc, 0x74,
    0x02, 0x0b, 0xbe, 0xa6, 0x3b, 0x13, 0x9b, 0x22, 0x51, 0x4a, 0x08, 0x79, 0x8e, 0x34, 0x04, 0xdd,
    0xef, 0x95, 0x19, 0xb3, 0xcd, 0x3a, 0x43, 0x1b, 0x30, 0x2b, 0x0a, 0x6d, 0xf2, 0x5f, 0x14, 0x37,
    0x4f, 0xe1, 0x35, 0x6d, 0x6d, 0x51, 0xc2, 0x45, 0xe4, 0x85, 0xb5, 0x76, 0x62, 0x5e, 0x7e, 0xc6,
    0xf4, 0x4c, 0x42, 0xe9, 0xa6, 0x37, 0xed, 0x6b, 0x0b, 0xff, 0x5c, 0xb6, 0xf4, 0x06, 0xb7, 0xed,
    0xee, 0x38, 0x6b, 0xfb, 0x5a, 0x89, 0x9f, 0xa5, 0xae, 0x9f, 0x24, 0x11, 0x7c, 0x4b, 0x1f, 0xe6,
    0x49, 0x28, 0x66, 0x51, 0xec, 0xe6, 0x53, 0x81, 0xff, 0xff, 0xff, 0xff, 0xff, 0xff, 0xff, 0xff,
];

/// A Diffie-Hellman group: prime modulus and generator, big-endian.
pub struct DHGroup {
    pub p: Vec<u8>,
    pub g: Vec<u8>,
}

impl DHGroup {
    /// Group 14: the 2048-bit prime, generator 2.
    pub fn group14() -> (grp: DHGroup)
        ensures
            grp.p@ == GROUP14_PRIME@,
            grp.g@ == seq![2u8],
            be_value(grp.p@) > 0,
    {
        let p = to_vec(GROUP14_PRIME.as_slice());
        proof {
            lemma_be_value_positive(p@, 0);
        }
        DHGroup { p, g: vec![2u8] }
    }

    /// Group 1: the 1024-bit prime, generator 2.
    pub fn group1() -> (grp: DHGroup)
        ensures
            grp.p@ == GROUP1_PRIME@,
            grp.g@ == seq![2u8],
            be_value(grp.p@) > 0,
    {
        let p = to_vec(GROUP1_PRIME.as_slice());
        proof {
            lemma_be_value_positive(p@, 0);
        }
        DHGroup { p, g: vec![2u8] }
    }
}

} // verus!
