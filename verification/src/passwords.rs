//! Generated passwords for the test account.
use vstd::prelude::*;
use vstd::utf8::encode_utf8;
use rand::Rng;
use crate::text::{string_from_utf8, lemma_ascii_valid};

verus! {

/// The characters generated passwords draw from.
pub const PASSWORD_CHARSET: [u8; 70] = [
    65, 66, 67, 68, 69, 70, 71, 72, 73, 74, 75, 76, 77, 78, 79, 80, 81, 82, 83, 84, 85, 86, 87,
    88, 89, 90, 97, 98, 99, 100, 101, 102, 103, 104, 105, 106, 107, 108, 109, 110, 111, 112, 113,
    114, 115, 116, 117, 118, 119, 120, 121, 122, 48, 49, 50, 51, 52, 53, 54, 55, 56, 57, 33, 64,
    35, 36, 37, 94, 38, 42,
];

/// A number in `0..n` from the thread-local generator.
///
/// Calls `Rng::gen_range(0..n)` on `rand::thread_rng()`. Claimed: the result is below
/// `n`; the crate panics on an empty range, which `requires` rules out.
#[verifier::external_body]
fn random_below(n: usize) -> (r: usize)
    requires
        n > 0,
    ensures
        r < n,
{
    rand::thread_rng().gen_range(0..n)
}

/// A random password of `length` characters, each from the charset.
pub fn generate_secure_password(length: usize) -> (p: String)
    ensures
        encode_utf8(p@).len() == length,
        forall|i: int| 0 <= i < encode_utf8(p@).len() ==> PASSWORD_CHARSET@.contains(#[trigger] encode_utf8(p@)[i]),
{
    let mut bytes: Vec<u8> = Vec::new();
    let mut i: usize = 0;
    while i < length
        invariant
            i <= length,
            bytes@.len() == i,
            forall|j: int| 0 <= j < i ==> PASSWORD_CHARSET@.contains(#[trigger] bytes@[j]),
        decreases length - i,
    {
        let idx = random_below(70);
        let c = PASSWORD_CHARSET[idx];
        proof {
            assert(PASSWORD_CHARSET@[idx as int] == c);
        }
        bytes.push(c);
        i = i + 1;
    }
    proof {
        assert forall|j: int| 0 <= j < bytes@.len() implies #[trigger] bytes@[j] < 128 by {
            let k = choose|k: int| 0 <= k < PASSWORD_CHARSET@.len() && PASSWORD_CHARSET@[k] == bytes@[j];
            assert(PASSWORD_CHARSET@[k] < 128);
        }
        lemma_ascii_valid(bytes@);
    }
    let ghost b = bytes@;
    let s = string_from_utf8(bytes).unwrap();
    proof {
        vstd::utf8::decode_utf8_encode_utf8(b);
    }
    s
}

} // verus!
