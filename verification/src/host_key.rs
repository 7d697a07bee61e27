//! The server's RSA host key: its SSH public key blob, exchange-hash signatures and
//! fingerprint. The key is held as its PKCS#8 DER encoding.
use vstd::prelude::*;
use rsa::RsaPrivateKey;
use rsa::pkcs1v15::SigningKey;
use rsa::pkcs8::{DecodePrivateKey, EncodePrivateKey, LineEnding};
use rsa::signature::{SignatureEncoding, Signer};
use rsa::traits::PublicKeyParts;
use base64::Engine;
use sha2::Sha256;
use crate::error::SshError;
use crate::wire::{ssh_string, write_ssh_string, put_slice};
use crate::crypto::{sha256, sha256_digest};
use crate::text::concat;

verus! {

/// The public exponent and modulus (big-endian, no leading zeros) of the RSA private
/// key that PKCS#8 DER bytes hold, if they hold one.
pub uninterp spec fn pkcs8_rsa_parts(der: Seq<u8>) -> Option<(Seq<u8>, Seq<u8>)>;

/// The PKCS#8 DER encoding of the RSA private key that a PKCS#8 PEM text holds, if
/// it holds one.
pub uninterp spec fn pkcs8_pem_key_der(pem: Seq<char>) -> Option<Seq<u8>>;

/// The PEM text (label `PRIVATE KEY`, LF line endings) of PKCS#8 DER bytes.
pub uninterp spec fn pkcs8_pem_text(der: Seq<u8>) -> Option<Seq<char>>;

/// The RSASSA-PKCS1-v1_5 signature, with SHA-256 and no digest prefix, of `message`
/// by the RSA key that PKCS#8 DER bytes hold; none where there is no such key or it
/// is too short for the padded digest.
pub uninterp spec fn pkcs1v15_sha256_signature(der: Seq<u8>, message: Seq<u8>) -> Option<Seq<u8>>;

/// The public exponent and modulus of the RSA key in PKCS#8 DER bytes.
///
/// Calls `DecodePrivateKey::from_pkcs8_der`, then `PublicKeyParts::e` / `n` and
/// `BigUint::to_bytes_be`. Claimed: the result is the named parts.
#[verifier::external_body]
fn rsa_pkcs8_parts(der: &[u8]) -> (r: Option<(Vec<u8>, Vec<u8>)>)
    ensures
        match pkcs8_rsa_parts(der@) {
            Some((e, n)) => r matches Some((e2, n2)) && e2@ == e && n2@ == n,
            None => r is None,
        },
{
    match RsaPrivateKey::from_pkcs8_der(der) {
        Ok(key) => Some((key.e().to_bytes_be(), key.n().to_bytes_be())),
        Err(_) => None,
    }
}

/// The PKCS#8 DER of the RSA key in a PEM text.
///
/// Calls `DecodePrivateKey::from_pkcs8_pem`, then `EncodePrivateKey::to_pkcs8_der`.
/// Claimed: the result is the named DER, `None` where either call refuses.
#[verifier::external_body]
fn rsa_pem_to_pkcs8_der(pem: &str) -> (r: Option<Vec<u8>>)
    ensures
        match pkcs8_pem_key_der(pem@) {
            Some(d) => r matches Some(v) && v@ == d,
            None => r is None,
        },
{
    match RsaPrivateKey::from_pkcs8_pem(pem) {
        Ok(key) => match key.to_pkcs8_der() {
            Ok(doc) => Some(doc.as_bytes().to_vec()),
            Err(_) => None,
        },
        Err(_) => None,
    }
}

/// PKCS#8 DER bytes as PEM text.
///
/// Calls `pem_rfc7468::encode_string` (as `rsa::pkcs8::der::pem`) with the
/// `PRIVATE KEY` label and LF line endings, as `EncodePrivateKey::to_pkcs8_pem` does.
/// Claimed: the result is the named text. The call fails only when a length
/// computation overflows, which cannot happen below 2^28 input bytes.
#[verifier::external_body]
fn pkcs8_der_to_pem(der: &[u8]) -> (r: Option<String>)
    ensures
        match pkcs8_pem_text(der@) {
            Some(t) => r matches Some(s) && s@ == t,
            None => r is None,
        },
        der@.len() < 0x1000_0000 ==> r is Some,
{
    rsa::pkcs8::der::pem::encode_string("PRIVATE KEY", LineEnding::LF, der).ok()
}

/// The RSASSA-PKCS1-v1_5 SHA-256 signature of `message` by the key in PKCS#8 DER bytes.
///
/// Calls `DecodePrivateKey::from_pkcs8_der`, then `Signer::try_sign` on
/// `SigningKey::<Sha256>::new_unprefixed` (which signs without randomness) and
/// `SignatureEncoding::to_bytes`. Claimed: the result is the named signature.
#[verifier::external_body]
fn rsa_sign_pkcs8(der: &[u8], message: &[u8]) -> (r: Option<Vec<u8>>)
    ensures
        match pkcs1v15_sha256_signature(der@, message@) {
            Some(sig) => r matches Some(v) && v@ == sig,
            None => r is None,
        },
{
    match RsaPrivateKey::from_pkcs8_der(der) {
        Ok(key) => {
            let signing_key: SigningKey<Sha256> = SigningKey::new_unprefixed(key);
            match signing_key.try_sign(message) {
                Ok(sig) => Some(sig.to_bytes().to_vec()),
                Err(_) => None,
            }
        },
        Err(_) => None,
    }
}

/// The PKCS#8 DER of a fresh RSA key of `bits` bits from the thread-local generator.
///
/// Calls `RsaPrivateKey::new` with `rand::thread_rng()`, then
/// `EncodePrivateKey::to_pkcs8_der`; `None` where either refuses. Nothing is claimed
/// of the key.
#[verifier::external_body]
fn rsa_generate_pkcs8(bits: usize) -> Option<Vec<u8>> {
    match RsaPrivateKey::new(&mut rand::thread_rng(), bits) {
        Ok(key) => match key.to_pkcs8_der() {
            Ok(doc) => Some(doc.as_bytes().to_vec()),
            Err(_) => None,
        },
        Err(_) => None,
    }
}

/// The base64 alphabet: `A`-`Z`, `a`-`z`, `0`-`9`, `+`, `/`.
pub open spec fn base64_digit(v: int) -> char {
    if v < 26 {
        (65 + v) as char
    } else if v < 52 {
        (97 + v - 26) as char
    } else if v < 62 {
        (48 + v - 52) as char
    } else if v == 62 {
        '+'
    } else {
        '/'
    }
}

/// Standard base64 (RFC 4648, with `=` padding): each group of three bytes becomes
/// four digits of six bits each; a last group of one or two bytes is padded.
pub open spec fn base64_standard(data: Seq<u8>) -> Seq<char>
    decreases data.len(),
{
    if data.len() == 0 {
        seq![]
    } else if data.len() == 1 {
        let a = data[0] as int;
        seq![base64_digit(a / 4), base64_digit((a % 4) * 16), '=', '=']
    } else if data.len() == 2 {
        let a = data[0] as int;
        let b = data[1] as int;
        seq![base64_digit(a / 4), base64_digit((a % 4) * 16 + b / 16), base64_digit((b % 16) * 4), '=']
    } else {
        let a = data[0] as int;
        let b = data[1] as int;
        let c = data[2] as int;
        seq![
            base64_digit(a / 4),
            base64_digit((a % 4) * 16 + b / 16),
            base64_digit((b % 16) * 4 + c / 64),
            base64_digit(c % 64),
        ] + base64_standard(data.subrange(3, data.len() as int))
    }
}

/// Base64 text is four characters for every started group of three bytes.
pub proof fn lemma_base64_len(data: Seq<u8>)
    ensures
        base64_standard(data).len() == 4 * ((data.len() + 2) / 3),
    decreases data.len(),
{
    if data.len() >= 3 {
        lemma_base64_len(data.subrange(3, data.len() as int));
    }
}

/// The key type name, `ssh-rsa`, as bytes.
pub const SSH_RSA: [u8; 7] = [115, 115, 104, 45, 114, 115, 97];

/// Standard base64 of `data`.
///
/// Calls `Engine::encode` on `base64::engine::general_purpose::STANDARD`, which
/// writes the padded RFC 4648 alphabet. Claimed: the result is `base64_standard(data)`.
#[verifier::external_body]
fn base64_encode(data: &[u8]) -> (r: String)
    ensures
        r@ == base64_standard(data@),
{
    base64::engine::general_purpose::STANDARD.encode(data)
}

/// An SSH `mpint` body for a non-negative big-endian magnitude without leading
/// zeros: a zero byte goes in front where the top bit is set, so that the value
/// does not read as negative.
pub open spec fn spec_mpint(x: Seq<u8>) -> Seq<u8> {
    if x.len() > 0 && x[0] >= 128 {
        seq![0u8] + x
    } else {
        x
    }
}

/// An SSH `ssh-rsa` public key blob: the type name as a string, then the exponent
/// and the modulus as `mpint`s.
pub open spec fn spec_public_key_blob(e: Seq<u8>, n: Seq<u8>) -> Seq<u8> {
    ssh_string(SSH_RSA@) + ssh_string(spec_mpint(e)) + ssh_string(spec_mpint(n))
}

/// An SSH `ssh-rsa` signature blob: the type name and the signature, as SSH strings.
pub open spec fn spec_signature_blob(sig: Seq<u8>) -> Seq<u8> {
    ssh_string(SSH_RSA@) + ssh_string(sig)
}

/// The `mpint` body of a big-endian magnitude.
pub fn mpint_bytes(x: &[u8]) -> (r: Vec<u8>)
    ensures
        r@ == spec_mpint(x@),
{
    let mut r: Vec<u8> = Vec::new();
    if x.len() > 0 && x[0] >= 128 {
        r.push(0u8);
    }
    put_slice(&mut r, x);
    assert(r@ =~= spec_mpint(x@));
    r
}

/// The public key blob for an exponent and a modulus.
pub fn public_key_blob_from_parts(e: &[u8], n: &[u8]) -> (blob: Vec<u8>)
    ensures
        blob@ == spec_public_key_blob(e@, n@),
{
    let me = mpint_bytes(e);
    let mn = mpint_bytes(n);
    let mut blob: Vec<u8> = Vec::new();
    write_ssh_string(&mut blob, SSH_RSA.as_slice());
    write_ssh_string(&mut blob, me.as_slice());
    write_ssh_string(&mut blob, mn.as_slice());
    assert(blob@ =~= spec_public_key_blob(e@, n@));
    blob
}

/// The signature blob for a raw signature.
pub fn signature_blob(sig: &[u8]) -> (blob: Vec<u8>)
    ensures
        blob@ == spec_signature_blob(sig@),
{
    let mut blob: Vec<u8> = Vec::new();
    write_ssh_string(&mut blob, SSH_RSA.as_slice());
    write_ssh_string(&mut blob, sig);
    assert(blob@ =~= spec_signature_blob(sig@));
    blob
}

/// SSH host key for server authentication: the RSA private key as PKCS#8 DER, and
/// the public key blob built from its exponent and modulus.
pub struct HostKey {
    der: Vec<u8>,
    public_key_blob: Vec<u8>,
}

impl HostKey {
    /// The public key blob sent in the key exchange reply.
    pub closed spec fn blob(&self) -> Seq<u8> {
        self.public_key_blob@
    }

    /// The PKCS#8 DER encoding of the private key.
    pub closed spec fn der(&self) -> Seq<u8> {
        self.der@
    }

    /// The key's blob is that of the exponent and modulus its DER holds.
    pub open spec fn well_formed(&self) -> bool {
        match pkcs8_rsa_parts(self.der()) {
            Some((e, n)) => self.blob() == spec_public_key_blob(e, n),
            None => false,
        }
    }

    /// A host key from the PKCS#8 DER of an RSA private key; refused where the bytes
    /// hold no RSA key.
    pub fn from_pkcs8_der(der: Vec<u8>) -> (r: Result<HostKey, SshError>)
        ensures
            r is Ok <==> pkcs8_rsa_parts(der@) is Some,
            r matches Ok(k) ==> k.der() == der@ && k.well_formed(),
            r matches Err(e) ==> e == SshError::InvalidHostKey,
    {
        match rsa_pkcs8_parts(der.as_slice()) {
            Some((e, n)) => {
                let public_key_blob = public_key_blob_from_parts(e.as_slice(), n.as_slice());
                Ok(HostKey { der, public_key_blob })
            },
            None => Err(SshError::InvalidHostKey),
        }
    }

    /// Loads a host key from the text of a PKCS#8 PEM file.
    pub fn load_from_pem(pem: &str) -> (r: Result<HostKey, SshError>)
        ensures
            r is Ok <==> (match pkcs8_pem_key_der(pem@) {
                Some(d) => pkcs8_rsa_parts(d) is Some,
                None => false,
            }),
            r matches Ok(k) ==> pkcs8_pem_key_der(pem@) == Some(k.der()) && k.well_formed(),
            r matches Err(e) ==> e == SshError::InvalidHostKey,
    {
        match rsa_pem_to_pkcs8_der(pem) {
            Some(der) => Self::from_pkcs8_der(der),
            None => Err(SshError::InvalidHostKey),
        }
    }

    /// Generates a new 2048-bit RSA host key.
    pub fn generate() -> (r: Result<HostKey, SshError>)
        ensures
            r matches Ok(k) ==> k.well_formed(),
            r matches Err(e) ==> e == SshError::HostKeyGenerationFailed,
    {
        match rsa_generate_pkcs8(2048) {
            Some(der) => match Self::from_pkcs8_der(der) {
                Ok(k) => Ok(k),
                Err(_) => Err(SshError::HostKeyGenerationFailed),
            },
            None => Err(SshError::HostKeyGenerationFailed),
        }
    }

    /// The key as PKCS#8 PEM text (LF line endings), to be saved.
    pub fn to_pkcs8_pem(&self) -> (r: Result<String, SshError>)
        ensures
            match pkcs8_pem_text(self.der()) {
                Some(t) => r matches Ok(s) && s@ == t,
                None => r == Err::<String, SshError>(SshError::InvalidHostKey),
            },
            self.der().len() < 0x1000_0000 ==> r is Ok,
    {
        match pkcs8_der_to_pem(self.der.as_slice()) {
            Some(s) => Ok(s),
            None => Err(SshError::InvalidHostKey),
        }
    }

    /// Signs the exchange hash: an `ssh-rsa` signature blob around the
    /// RSASSA-PKCS1-v1_5 SHA-256 signature of `hash`.
    pub fn sign_exchange_hash(&self, hash: &[u8]) -> (r: Result<Vec<u8>, SshError>)
        ensures
            match pkcs1v15_sha256_signature(self.der(), hash@) {
                Some(sig) => r matches Ok(v) && v@ == spec_signature_blob(sig),
                None => r == Err::<Vec<u8>, SshError>(SshError::SigningFailed),
            },
    {
        match rsa_sign_pkcs8(self.der.as_slice(), hash) {
            Some(sig) => Ok(signature_blob(sig.as_slice())),
            None => Err(SshError::SigningFailed),
        }
    }

    /// The public key blob for the key exchange reply.
    pub fn public_key_blob(&self) -> (r: &[u8])
        ensures
            r@ == self.blob(),
    {
        self.public_key_blob.as_slice()
    }

    /// The fingerprint `SHA256:` followed by the base64 of the blob's SHA-256
    /// digest: 51 characters.
    pub fn fingerprint(&self) -> (r: String)
        ensures
            r@ == "SHA256:"@ + base64_standard(sha256(self.blob())),
            r@.len() == 51,
    {
        let hash = sha256_digest(self.public_key_blob.as_slice());
        let b64 = base64_encode(hash.as_slice());
        let r = concat("SHA256:", b64.as_str());
        proof {
            reveal_strlit("SHA256:");
            lemma_base64_len(hash@);
        }
        r
    }
}

} // verus!
