//! Byte-level helpers for names and strings: equality, ordering, UTF-8 conversion.
use vstd::prelude::*;
use vstd::utf8::*;
use vstd::string::*;

verus! {

/// What `String::from_utf8_lossy` makes of a byte sequence.
pub uninterp spec fn utf8_lossy(bytes: Seq<u8>) -> Seq<char>;

/// Decodes `bytes` as UTF-8, replacing each invalid sequence by U+FFFD.
///
/// Calls `String::from_utf8_lossy`. Claimed: the result is `utf8_lossy(bytes)`, and,
/// as std documents, a valid UTF-8 input is decoded unchanged.
#[verifier::external_body]
pub(crate) fn string_from_utf8_lossy(bytes: &[u8]) -> (s: String)
    ensures
        s@ == utf8_lossy(bytes@),
        valid_utf8(bytes@) ==> s@ == decode_utf8(bytes@),
{
    String::from_utf8_lossy(bytes).into_owned()
}

/// Decodes `bytes` as UTF-8, or `None` when they are not valid UTF-8.
///
/// Calls `String::from_utf8`. Claimed, as std documents: the call succeeds exactly on
/// valid UTF-8, and then the string holds the decoded characters.
#[verifier::external_body]
pub(crate) fn string_from_utf8(bytes: Vec<u8>) -> (s: Option<String>)
    ensures
        s is Some <==> valid_utf8(bytes@),
        s matches Some(t) ==> t@ == decode_utf8(bytes@),
{
    String::from_utf8(bytes).ok()
}

/// Two byte slices hold the same bytes.
pub fn bytes_eq(a: &[u8], b: &[u8]) -> (r: bool)
    ensures
        r == (a@ == b@),
{
    if a.len() != b.len() {
        return false;
    }
    let mut i: usize = 0;
    while i < a.len()
        invariant
            a@.len() == b@.len(),
            i <= a@.len(),
            forall|j: int| 0 <= j < i ==> a@[j] == b@[j],
        decreases a@.len() - i,
    {
        if a[i] != b[i] {
            return false;
        }
        i = i + 1;
    }
    assert(a@ =~= b@);
    true
}

/// The UTF-8 bytes of a character sequence determine it.
pub proof fn lemma_utf8_injective(x: Seq<char>, y: Seq<char>)
    requires
        encode_utf8(x) == encode_utf8(y),
    ensures
        x == y,
{
    encode_utf8_decode_utf8(x);
    encode_utf8_decode_utf8(y);
}

/// Two strings hold the same characters.
pub fn str_eq(a: &str, b: &str) -> (r: bool)
    ensures
        r == (a@ == b@),
{
    let r = bytes_eq(a.as_bytes(), b.as_bytes());
    proof {
        if r {
            lemma_utf8_injective(a@, b@);
        }
    }
    r
}

/// Lexicographic order on byte sequences (a prefix comes first), the order of `str`.
pub open spec fn bytes_le(a: Seq<u8>, b: Seq<u8>) -> bool
    decreases a.len(),
{
    if a.len() == 0 {
        true
    } else if b.len() == 0 {
        false
    } else if a[0] != b[0] {
        a[0] < b[0]
    } else {
        bytes_le(a.drop_first(), b.drop_first())
    }
}

/// `a <= b` in the byte-wise lexicographic order of strings.
pub fn str_le(a: &str, b: &str) -> (r: bool)
    ensures
        r == bytes_le(a.spec_bytes(), b.spec_bytes()),
{
    let x = a.as_bytes();
    let y = b.as_bytes();
    let mut i: usize = 0;
    assert(x@.subrange(0, x@.len() as int) =~= x@);
    assert(y@.subrange(0, y@.len() as int) =~= y@);
    while i < x.len() && i < y.len()
        invariant
            x@ == a.spec_bytes(),
            y@ == b.spec_bytes(),
            i <= x@.len(),
            i <= y@.len(),
            x@.subrange(0, i as int) == y@.subrange(0, i as int),
            bytes_le(x@, y@) == bytes_le(x@.subrange(i as int, x@.len() as int), y@.subrange(i as int, y@.len() as int)),
        decreases x@.len() - i,
    {
        let ghost xs = x@.subrange(i as int, x@.len() as int);
        let ghost ys = y@.subrange(i as int, y@.len() as int);
        assert(xs[0] == x@[i as int] && ys[0] == y@[i as int]);
        if x[i] != y[i] {
            assert(xs.len() > 0 && ys.len() > 0);
            assert(bytes_le(xs, ys) == (xs[0] < ys[0]));
            return x[i] < y[i];
        }
        assert(xs.drop_first() =~= x@.subrange(i + 1, x@.len() as int));
        assert(ys.drop_first() =~= y@.subrange(i + 1, y@.len() as int));
        assert(x@.subrange(0, i + 1) =~= x@.subrange(0, i as int).push(x@[i as int]));
        assert(y@.subrange(0, i + 1) =~= y@.subrange(0, i as int).push(y@[i as int]));
        i = i + 1;
    }
    i == x.len()
}

/// The UTF-8 bytes of two character sequences one after the other are the bytes of
/// the first, then those of the second.
pub proof fn lemma_encode_utf8_concat(a: Seq<char>, b: Seq<char>)
    ensures
        encode_utf8(a + b) == encode_utf8(a) + encode_utf8(b),
    decreases a.len(),
{
    if a.len() > 0 {
        lemma_encode_utf8_concat(a.drop_first(), b);
        assert((a + b).drop_first() =~= a.drop_first() + b);
        assert(encode_utf8(a + b) =~= encode_utf8(a) + encode_utf8(b));
    } else {
        assert(a + b =~= b);
        assert(encode_utf8(a) + encode_utf8(b) =~= encode_utf8(b));
    }
}

/// Two strings one after the other.
pub fn concat(a: &str, b: &str) -> (r: String)
    ensures
        r@ == a@ + b@,
        encode_utf8(r@) == encode_utf8(a@) + encode_utf8(b@),
{
    let mut bytes: Vec<u8> = Vec::new();
    crate::wire::put_slice(&mut bytes, a.as_bytes());
    crate::wire::put_slice(&mut bytes, b.as_bytes());
    proof {
        encode_utf8_valid_utf8(a@);
        encode_utf8_valid_utf8(b@);
        assert(bytes@ =~= encode_utf8(a@) + encode_utf8(b@));
        valid_utf8_concat(encode_utf8(a@), encode_utf8(b@));
    }
    let r = string_from_utf8(bytes).unwrap();
    proof {
        decode_utf8_encode_utf8(encode_utf8(a@) + encode_utf8(b@));
        lemma_encode_utf8_concat(a@, b@);
        lemma_utf8_injective(r@, a@ + b@);
    }
    r
}

/// The ASCII decimal digits of `n`, most significant first, no leading zeros.
pub open spec fn decimal_digits(n: u64) -> Seq<u8>
    decreases n,
{
    if n < 10 {
        seq![(48 + n) as u8]
    } else {
        decimal_digits(n / 10) + seq![(48 + n % 10) as u8]
    }
}

/// Decimal digits are ASCII, so valid UTF-8.
pub proof fn lemma_decimal_ascii(n: u64)
    ensures
        forall|i: int| 0 <= i < decimal_digits(n).len() ==> 48 <= #[trigger] decimal_digits(n)[i] <= 57,
        decimal_digits(n).len() >= 1,
    decreases n,
{
    if n >= 10 {
        lemma_decimal_ascii(n / 10);
    }
}

/// Appends the decimal digits of `n`.
fn put_decimal(buf: &mut Vec<u8>, n: u64)
    ensures
        final(buf)@ == old(buf)@ + decimal_digits(n),
    decreases n,
{
    if n >= 10 {
        put_decimal(buf, n / 10);
    }
    buf.push((48 + n % 10) as u8);
    proof {
        if n < 10 {
            assert(n % 10 == n);
        }
    }
}

/// The decimal representation of `n`.
pub fn decimal(n: u64) -> (r: String)
    ensures
        encode_utf8(r@) == decimal_digits(n),
{
    let mut bytes: Vec<u8> = Vec::new();
    put_decimal(&mut bytes, n);
    proof {
        lemma_decimal_ascii(n);
        assert(bytes@ =~= decimal_digits(n));
        lemma_ascii_valid(bytes@);
    }
    let r = string_from_utf8(bytes).unwrap();
    proof {
        decode_utf8_encode_utf8(decimal_digits(n));
    }
    r
}

/// A sequence of ASCII bytes is valid UTF-8.
pub proof fn lemma_ascii_valid(b: Seq<u8>)
    requires
        forall|i: int| 0 <= i < b.len() ==> #[trigger] b[i] < 128,
    ensures
        valid_utf8(b),
    decreases b.len(),
{
    if b.len() > 0 {
        let last = b.drop_last();
        lemma_ascii_valid(last);
        let c = seq![b.last()];
        assert(valid_utf8(c)) by {
            let x = c[0];
            assert(is_leading_byte_width_1(x));
            assert((x & 0x7Fu8) == x) by (bit_vector)
                requires
                    x < 128u8,
            ;
            assert(decode_first_codepoint(c) < 128);
            assert(pop_first_scalar(c) =~= Seq::<u8>::empty());
            assert(valid_utf8(Seq::<u8>::empty()));
        }
        valid_utf8_concat(last, c);
        assert(last + c =~= b);
    }
}

} // verus!
