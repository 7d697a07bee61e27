//! Key exchange: algorithm negotiation, ephemeral keys, the shared secret, the
//! exchange hash and the derivation of the session keys.
use vstd::prelude::*;
use vstd::arithmetic::power::pow;
use vstd::string::*;
use vstd::utf8::encode_utf8;
use crate::error::SshError;
use crate::text::{str_eq, utf8_lossy};
use crate::wire::{
    put_slice, put_u32, read_name_list, read_ssh_string, write_name_list, write_ssh_string,
    ssh_string, spec_read_string, name_list_items, join_commas, names_bytes, u32_be,
};
use crate::algorithms::{
    KexMethod, NegotiatedAlgorithms, kex_for_name, str_views, SUPPORTED_KEX,
    SUPPORTED_ENCRYPTION, SUPPORTED_MAC, SUPPORTED_COMPRESSION,
};
use crate::dh_group::{DHGroup, be_value, modpow_be, GROUP14_PRIME, GROUP1_PRIME};
use crate::crypto::{sha256, sha1, sha256_digest, sha1_digest};
use crate::entropy::{random_bytes, x25519_random_secret, x25519_public_key};
use crate::session_keys::SessionKeys;
use crate::cipher_type::cipher_for_name;
use crate::mac_type::mac_for_name;
use x25519_dalek::EphemeralSecret;

verus! {

/// Host key algorithms offered in our KEXINIT.
pub const HOST_KEY_ALGORITHMS: [&'static str; 2] = ["ssh-rsa", "rsa-sha2-256"];

/// The characters of each string.
pub open spec fn names_view(v: Seq<String>) -> Seq<Seq<char>> {
    v.map_values(|s: String| s@)
}

/// The first server algorithm, in the server's order, that the client also lists.
pub open spec fn first_common(client: Seq<Seq<char>>, server: Seq<Seq<char>>) -> Option<Seq<char>>
    decreases server.len(),
{
    if server.len() == 0 {
        None
    } else if client.contains(server[0]) {
        Some(server[0])
    } else {
        first_common(client, server.drop_first())
    }
}

/// Negotiation picks the first of the server's algorithms, in the server's order of
/// preference, that the client also offers; it fails exactly when the two lists have
/// nothing in common.
pub proof fn lemma_first_common_member(client: Seq<Seq<char>>, server: Seq<Seq<char>>)
    ensures
        first_common(client, server) matches Some(n) ==> exists|k: int|
            0 <= k < server.len() && server[k] == n && client.contains(n) && forall|j: int|
                0 <= j < k ==> !client.contains(#[trigger] server[j]),
        first_common(client, server) is None <==> forall|j: int|
            0 <= j < server.len() ==> !client.contains(#[trigger] server[j]),
    decreases server.len(),
{
    if server.len() > 0 {
        let rest = server.drop_first();
        lemma_first_common_member(client, rest);
        if client.contains(server[0]) {
            assert(server[0] == server[0]);
        } else {
            if first_common(client, server) is Some {
                let n = first_common(client, server)->0;
                let k = choose|k: int|
                    0 <= k < rest.len() && rest[k] == n && client.contains(n) && forall|j: int|
                        0 <= j < k ==> !client.contains(#[trigger] rest[j]);
                assert(server[k + 1] == n);
                assert forall|j: int| 0 <= j < k + 1 implies !client.contains(#[trigger] server[j]) by {
                    if j > 0 {
                        assert(server[j] == rest[j - 1]);
                    }
                }
            } else {
                assert forall|j: int| 0 <= j < server.len() implies !client.contains(#[trigger] server[j]) by {
                    if j > 0 {
                        assert(server[j] == rest[j - 1]);
                    }
                }
            }
        }
    }
}

/// A negotiated key exchange algorithm always names a method we run.
pub proof fn lemma_negotiated_kex_known(payload: Seq<u8>)
    ensures
        spec_negotiate(payload) matches Ok(a) ==> kex_for_name(a.kex) is Some,
{
    if spec_negotiate(payload) is Ok {
        let ls = spec_read_name_lists(payload.subrange(17, payload.len() as int), 6)->Ok_0;
        let server = str_views(SUPPORTED_KEX@);
        lemma_first_common_member(ls[0], server);
        let n = first_common(ls[0], server)->0;
        let k = choose|k: int| 0 <= k < server.len() && server[k] == n;
        assert(server[k] == SUPPORTED_KEX@[k]@);
        assert(k == 0 || k == 1 || k == 2 || k == 3 || k == 4);
    }
}

/// Every cipher and MAC that negotiation can pick is one the packet layer runs.
pub proof fn lemma_negotiated_ciphers_run(payload: Seq<u8>)
    ensures
        spec_negotiate(payload) matches Ok(a) ==> cipher_for_name(a.encryption_c2s) is Some && cipher_for_name(
            a.encryption_s2c,
        ) is Some && mac_for_name(a.mac_c2s) is Some && mac_for_name(a.mac_s2c) is Some,
{
    if spec_negotiate(payload) is Ok {
        let ls = spec_read_name_lists(payload.subrange(17, payload.len() as int), 6)->Ok_0;
        let encs = str_views(SUPPORTED_ENCRYPTION@);
        let macs = str_views(SUPPORTED_MAC@);
        assert forall|i: int| 0 <= i < 6 && first_common(ls[i], encs) is Some implies cipher_for_name(
            first_common(ls[i], encs)->0,
        ) is Some by {
            lemma_first_common_member(ls[i], encs);
            let n = first_common(ls[i], encs)->0;
            let k = choose|k: int| 0 <= k < encs.len() && encs[k] == n && ls[i].contains(n) && forall|j: int|
                0 <= j < k ==> !ls[i].contains(#[trigger] encs[j]);
            assert(encs[k] == SUPPORTED_ENCRYPTION@[k]@);
            assert(k == 0 || k == 1 || k == 2);
        }
        assert forall|i: int| 0 <= i < 6 && first_common(ls[i], macs) is Some implies mac_for_name(
            first_common(ls[i], macs)->0,
        ) is Some by {
            lemma_first_common_member(ls[i], macs);
            let n = first_common(ls[i], macs)->0;
            let k = choose|k: int| 0 <= k < macs.len() && macs[k] == n && ls[i].contains(n) && forall|j: int|
                0 <= j < k ==> !ls[i].contains(#[trigger] macs[j]);
            assert(macs[k] == SUPPORTED_MAC@[k]@);
            assert(k == 0 || k == 1);
        }
    }
}

/// What reading one name-list off the front of `s` gives: its names and the rest.
pub open spec fn spec_read_name_list(s: Seq<u8>) -> Result<(Seq<Seq<char>>, Seq<u8>), SshError> {
    match spec_read_string(s) {
        Ok((d, rest)) => Ok((name_list_items(d).map_values(|x: Seq<u8>| utf8_lossy(x)), rest)),
        Err(e) => Err(e),
    }
}

/// What reading `n` name-lists one after the other off the front of `s` gives.
pub open spec fn spec_read_name_lists(s: Seq<u8>, n: nat) -> Result<Seq<Seq<Seq<char>>>, SshError>
    decreases n,
{
    if n == 0 {
        Ok(Seq::empty())
    } else {
        match spec_read_name_list(s) {
            Ok((names, rest)) => match spec_read_name_lists(rest, (n - 1) as nat) {
                Ok(more) => Ok(seq![names] + more),
                Err(e) => Err(e),
            },
            Err(e) => Err(e),
        }
    }
}

/// The algorithms of a session, as characters.
pub ghost struct AlgorithmsView {
    pub kex: Seq<char>,
    pub encryption_c2s: Seq<char>,
    pub encryption_s2c: Seq<char>,
    pub mac_c2s: Seq<char>,
    pub mac_s2c: Seq<char>,
}

impl View for NegotiatedAlgorithms {
    type V = AlgorithmsView;

    open spec fn view(&self) -> AlgorithmsView {
        AlgorithmsView {
            kex: self.kex@,
            encryption_c2s: self.encryption_c2s@,
            encryption_s2c: self.encryption_s2c@,
            mac_c2s: self.mac_c2s@,
            mac_s2c: self.mac_s2c@,
        }
    }
}

/// What negotiation makes of a client KEXINIT payload: the name-lists are read from
/// byte 17 on, and for each kind the first of our algorithms the client lists wins.
pub open spec fn spec_negotiate(payload: Seq<u8>) -> Result<AlgorithmsView, SshError> {
    match spec_read_name_lists(payload.subrange(17, payload.len() as int), 6) {
        Err(e) => Err(e),
        Ok(ls) => {
            let kex = first_common(ls[0], str_views(SUPPORTED_KEX@));
            let enc_c2s = first_common(ls[2], str_views(SUPPORTED_ENCRYPTION@));
            let enc_s2c = first_common(ls[3], str_views(SUPPORTED_ENCRYPTION@));
            let mac_c2s = first_common(ls[4], str_views(SUPPORTED_MAC@));
            let mac_s2c = first_common(ls[5], str_views(SUPPORTED_MAC@));
            if kex is Some && enc_c2s is Some && enc_s2c is Some && mac_c2s is Some
                && mac_s2c is Some {
                Ok(
                    AlgorithmsView {
                        kex: kex->0,
                        encryption_c2s: enc_c2s->0,
                        encryption_s2c: enc_s2c->0,
                        mac_c2s: mac_c2s->0,
                        mac_s2c: mac_s2c->0,
                    },
                )
            } else {
                Err(SshError::NoCommonAlgorithm)
            }
        },
    }
}

/// A name-list as it goes on the wire.
pub open spec fn name_list_bytes(names: Seq<&str>) -> Seq<u8> {
    ssh_string(join_commas(names_bytes(names)))
}

/// Our KEXINIT payload around a given cookie.
pub open spec fn spec_kexinit_payload(cookie: Seq<u8>) -> Seq<u8> {
    seq![20u8] + cookie + name_list_bytes(SUPPORTED_KEX@) + name_list_bytes(HOST_KEY_ALGORITHMS@)
        + name_list_bytes(SUPPORTED_ENCRYPTION@) + name_list_bytes(SUPPORTED_ENCRYPTION@)
        + name_list_bytes(SUPPORTED_MAC@) + name_list_bytes(SUPPORTED_MAC@) + name_list_bytes(
        SUPPORTED_COMPRESSION@,
    ) + name_list_bytes(SUPPORTED_COMPRESSION@) + name_list_bytes(Seq::empty())
        + name_list_bytes(Seq::empty()) + seq![0u8] + u32_be(0)
}

/// The prime of the group a Diffie-Hellman method works in.
pub open spec fn group_prime(m: KexMethod) -> Seq<u8> {
    match m {
        KexMethod::DiffieHellmanGroup1Sha1 => GROUP1_PRIME@,
        _ => GROUP14_PRIME@,
    }
}

/// `r` is `base ^ exp mod p`, written big-endian without leading zero bytes.
pub open spec fn is_modpow(r: Seq<u8>, base: Seq<u8>, exp: Seq<u8>, p: Seq<u8>) -> bool {
    &&& be_value(r) == pow(be_value(base) as int, be_value(exp)) % (be_value(p) as int)
    &&& r.len() >= 1
    &&& r.len() > 1 ==> r[0] != 0
}

/// Whether the method hashes with SHA-256 (otherwise SHA-1).
pub open spec fn uses_sha256(m: Option<KexMethod>) -> bool {
    m == Some(KexMethod::Curve25519) || m == Some(KexMethod::DiffieHellmanGroup14Sha256)
}

/// `s` ends with `t`.
pub open spec fn ends_with(s: Seq<char>, t: Seq<char>) -> bool {
    s.len() >= t.len() && s.subrange(s.len() - t.len(), s.len() as int) == t
}

proof fn lemma_last_differs(s: Seq<char>, t: Seq<char>)
    requires
        s.len() > 0,
        t.len() > 0,
        s.last() != t.last(),
    ensures
        !ends_with(s, t),
{
    if ends_with(s, t) {
        assert(s.subrange(s.len() - t.len(), s.len() as int)[t.len() - 1] == s.last());
    }
}

/// The hash of a key exchange method is the one its name ends with: SHA-256 for the
/// names ending in `-sha256` (before an `@libssh.org`), SHA-1 for those ending in
/// `-sha1`.
pub proof fn lemma_kex_hash_named(name: Seq<char>)
    requires
        kex_for_name(name) is Some,
    ensures
        uses_sha256(kex_for_name(name)) <==> (ends_with(name, "-sha256"@) || ends_with(
            name,
            "-sha256@libssh.org"@,
        )),
        !uses_sha256(kex_for_name(name)) <==> ends_with(name, "-sha1"@),
{
    reveal_strlit("curve25519-sha256");
    reveal_strlit("curve25519-sha256@libssh.org");
    reveal_strlit("diffie-hellman-group14-sha256");
    reveal_strlit("diffie-hellman-group14-sha1");
    reveal_strlit("diffie-hellman-group1-sha1");
    reveal_strlit("-sha256");
    reveal_strlit("-sha256@libssh.org");
    reveal_strlit("-sha1");
    if name == "curve25519-sha256"@ {
        assert(name.subrange(name.len() - 7, name.len() as int) =~= "-sha256"@);
        lemma_last_differs(name, "-sha1"@);
    } else if name == "curve25519-sha256@libssh.org"@ {
        assert(name.subrange(name.len() - 18, name.len() as int) =~= "-sha256@libssh.org"@);
        lemma_last_differs(name, "-sha1"@);
    } else if name == "diffie-hellman-group14-sha256"@ {
        assert(name.subrange(name.len() - 7, name.len() as int) =~= "-sha256"@);
        lemma_last_differs(name, "-sha1"@);
    } else if name == "diffie-hellman-group14-sha1"@ {
        assert(name.subrange(name.len() - 5, name.len() as int) =~= "-sha1"@);
        lemma_last_differs(name, "-sha256"@);
        lemma_last_differs(name, "-sha256@libssh.org"@);
    } else {
        assert(name == "diffie-hellman-group1-sha1"@);
        assert(name.subrange(name.len() - 5, name.len() as int) =~= "-sha1"@);
        lemma_last_differs(name, "-sha256"@);
        lemma_last_differs(name, "-sha256@libssh.org"@);
    }
}

/// SHA-256 or SHA-1 of `data`.
pub open spec fn hash_with(s256: bool, data: Seq<u8>) -> Seq<u8> {
    if s256 {
        sha256(data)
    } else {
        sha1(data)
    }
}

/// Digest length of the hash.
pub open spec fn hash_len(s256: bool) -> nat {
    if s256 {
        32
    } else {
        20
    }
}

/// The key stream after `n` extensions: `K1 = H(K || H || X || session_id)`, then
/// each step appends `H(K || H || key so far)`.
pub open spec fn kdf_blocks(
    k: Seq<u8>,
    h: Seq<u8>,
    x: Seq<u8>,
    sid: Seq<u8>,
    s256: bool,
    n: nat,
) -> Seq<u8>
    decreases n,
{
    if n == 0 {
        hash_with(s256, k + h + x + sid)
    } else {
        let prev = kdf_blocks(k, h, x, sid, s256, (n - 1) as nat);
        prev + hash_with(s256, k + h + prev)
    }
}

/// How many extensions it takes for digests of length `l` to cover `needed` bytes.
pub open spec fn kdf_rounds(needed: nat, l: nat) -> nat {
    if needed == 0 {
        0
    } else {
        ((needed - 1) as nat / l) as nat
    }
}

/// A derived key: the key stream, long enough, cut to `needed` bytes.
pub open spec fn spec_derive_key(
    k: Seq<u8>,
    h: Seq<u8>,
    x: Seq<u8>,
    sid: Seq<u8>,
    needed: nat,
    s256: bool,
) -> Seq<u8> {
    kdf_blocks(k, h, x, sid, s256, kdf_rounds(needed, hash_len(s256))).take(needed as int)
}

proof fn lemma_rounds(needed: int, l: int, r: int)
    requires
        l > 0,
        r >= 0,
        r * l < needed,
        needed <= (r + 1) * l,
    ensures
        (needed - 1) / l == r,
{
    assert((r + 1) * l == r * l + l) by (nonlinear_arith);
    vstd::arithmetic::div_mod::lemma_fundamental_div_mod_converse(needed - 1, l, r, needed - 1 - r * l);
}

/// With digests of the hash's length, the key stream after `n` extensions is
/// `n + 1` digests long.
proof fn lemma_kdf_blocks_len(k: Seq<u8>, h: Seq<u8>, x: Seq<u8>, sid: Seq<u8>, s256: bool, n: nat)
    requires
        forall|d: Seq<u8>| #[trigger] hash_with(s256, d).len() == hash_len(s256),
    ensures
        kdf_blocks(k, h, x, sid, s256, n).len() == (n + 1) * hash_len(s256),
    decreases n,
{
    if n > 0 {
        lemma_kdf_blocks_len(k, h, x, sid, s256, (n - 1) as nat);
        let prev = kdf_blocks(k, h, x, sid, s256, (n - 1) as nat);
        assert(hash_with(s256, k + h + prev).len() == hash_len(s256));
        assert((n + 1) * hash_len(s256) == n * hash_len(s256) + hash_len(s256)) by (nonlinear_arith);
    }
}

/// Each extension only appends: the stream after `a` extensions starts the stream
/// after `b >= a` extensions.
proof fn lemma_kdf_blocks_prefix(k: Seq<u8>, h: Seq<u8>, x: Seq<u8>, sid: Seq<u8>, s256: bool, a: nat, b: nat)
    requires
        a <= b,
    ensures
        kdf_blocks(k, h, x, sid, s256, a).len() <= kdf_blocks(k, h, x, sid, s256, b).len(),
        kdf_blocks(k, h, x, sid, s256, b).take(kdf_blocks(k, h, x, sid, s256, a).len() as int)
            == kdf_blocks(k, h, x, sid, s256, a),
    decreases b,
{
    if a < b {
        lemma_kdf_blocks_prefix(k, h, x, sid, s256, a, (b - 1) as nat);
        let pa = kdf_blocks(k, h, x, sid, s256, a);
        let pb = kdf_blocks(k, h, x, sid, s256, (b - 1) as nat);
        let nb = kdf_blocks(k, h, x, sid, s256, b);
        assert(nb.take(pb.len() as int) =~= pb);
        assert(nb.take(pa.len() as int) =~= pb.take(pa.len() as int));
    } else {
        let pa = kdf_blocks(k, h, x, sid, s256, a);
        assert(pa.take(pa.len() as int) =~= pa);
    }
}

/// The digests that `kdf_rounds` asks for cover the bytes needed.
proof fn lemma_round_cover(needed: nat, l: nat)
    requires
        l > 0,
    ensures
        needed <= (kdf_rounds(needed, l) + 1) * l,
{
    if needed > 0 {
        let m: int = needed - 1;
        let li: int = l as int;
        vstd::arithmetic::div_mod::lemma_fundamental_div_mod(m, li);
        let q: int = m / li;
        let rem: int = m % li;
        assert(needed <= (q + 1) * li) by (nonlinear_arith)
            requires
                m == li * q + rem,
                rem < li,
                needed == m + 1,
        ;
    }
}

/// A shorter derived key is the start of a longer one from the same inputs: the key
/// stream only grows, and each key is cut from its start (given digests of the
/// hash's length, as SHA-256 and SHA-1 give).
pub proof fn lemma_derive_key_prefix(
    k: Seq<u8>,
    h: Seq<u8>,
    x: Seq<u8>,
    sid: Seq<u8>,
    s256: bool,
    n1: nat,
    n2: nat,
)
    requires
        n1 <= n2,
        forall|d: Seq<u8>| #[trigger] hash_with(s256, d).len() == hash_len(s256),
    ensures
        spec_derive_key(k, h, x, sid, n1, s256) == spec_derive_key(k, h, x, sid, n2, s256).take(n1 as int),
{
    let l = hash_len(s256);
    let r1 = kdf_rounds(n1, l);
    let r2 = kdf_rounds(n2, l);
    if n1 > 0 {
        vstd::arithmetic::div_mod::lemma_div_is_ordered((n1 - 1) as int, (n2 - 1) as int, l as int);
        vstd::arithmetic::div_mod::lemma_fundamental_div_mod((n1 - 1) as int, l as int);
        vstd::arithmetic::div_mod::lemma_fundamental_div_mod((n2 - 1) as int, l as int);
    }
    assert(r1 <= r2);
    lemma_kdf_blocks_len(k, h, x, sid, s256, r1);
    lemma_kdf_blocks_len(k, h, x, sid, s256, r2);
    lemma_kdf_blocks_prefix(k, h, x, sid, s256, r1, r2);
    let b1 = kdf_blocks(k, h, x, sid, s256, r1);
    let b2 = kdf_blocks(k, h, x, sid, s256, r2);
    lemma_round_cover(n1, l);
    lemma_round_cover(n2, l);
    assert(b2.take(n2 as int).take(n1 as int) =~= b1.take(n1 as int));
}

/// What the exchange hash covers: the two version strings and the shared secret.
pub open spec fn spec_hash_input(client_ver: Seq<char>, server_ver: Seq<char>, k: Option<Seq<u8>>) -> Seq<u8> {
    encode_utf8(client_ver) + encode_utf8(server_ver) + match k {
        Some(k) => k,
        None => Seq::empty(),
    }
}

/// The six keys derived from `k` and `h` (also the session id) with letters A to F.
pub open spec fn keys_derived(keys: SessionKeys, k: Seq<u8>, h: Seq<u8>, s256: bool) -> bool {
    &&& keys.iv_client_to_server@ == spec_derive_key(k, h, seq![65u8], h, 16, s256)
    &&& keys.iv_server_to_client@ == spec_derive_key(k, h, seq![66u8], h, 16, s256)
    &&& keys.key_client_to_server@ == spec_derive_key(k, h, seq![67u8], h, 32, s256)
    &&& keys.key_server_to_client@ == spec_derive_key(k, h, seq![68u8], h, 32, s256)
    &&& keys.mac_client_to_server@ == spec_derive_key(k, h, seq![69u8], h, 32, s256)
    &&& keys.mac_server_to_client@ == spec_derive_key(k, h, seq![70u8], h, 32, s256)
}

/// The state of a key exchange, as values.
pub ghost struct KexView {
    pub method: Option<KexMethod>,
    pub algorithms: Option<AlgorithmsView>,
    pub has_x25519_secret: bool,
    pub x25519_public: Option<Seq<u8>>,
    pub dh_x: Option<Seq<u8>>,
    pub dh_e: Option<Seq<u8>>,
    pub dh_f: Option<Seq<u8>>,
    pub shared_secret: Option<Seq<u8>>,
    pub exchange_hash: Option<Seq<u8>>,
    pub client_kexinit: Option<Seq<u8>>,
    pub server_kexinit: Option<Seq<u8>>,
}

/// Our public value for the negotiated method is there.
pub open spec fn public_value_ready(v: KexView) -> bool {
    &&& v.method == Some(KexMethod::Curve25519) ==> v.x25519_public is Some
    &&& v.method is Some && v.method != Some(KexMethod::Curve25519) ==> v.dh_e is Some
}

/// The shared secret can be computed: a Diffie-Hellman method needs `x` and `f`.
pub open spec fn shared_secret_ready(v: KexView) -> bool {
    v.method is Some && v.method != Some(KexMethod::Curve25519) ==> v.dh_x is Some && v.dh_f is Some
}

/// The session keys can be derived.
pub open spec fn keys_ready(v: KexView) -> bool {
    v.exchange_hash is Some && v.shared_secret is Some
}

/// Our public value: the X25519 key or `e`.
pub open spec fn public_value(v: KexView) -> Seq<u8> {
    if v.method == Some(KexMethod::Curve25519) {
        v.x25519_public->0
    } else {
        v.dh_e->0
    }
}

/// An exchange with nothing negotiated or computed.
pub open spec fn fresh_kex_view() -> KexView {
    KexView {
        method: None,
        algorithms: None,
        has_x25519_secret: false,
        x25519_public: None,
        dh_x: None,
        dh_e: None,
        dh_f: None,
        shared_secret: None,
        exchange_hash: None,
        client_kexinit: None,
        server_kexinit: None,
    }
}

/// The bytes of an optional vector.
pub open spec fn opt_bytes(o: Option<Vec<u8>>) -> Option<Seq<u8>> {
    match o {
        Some(v) => Some(v@),
        None => None,
    }
}

/// Key exchange state.
pub struct KexState {
    method: Option<KexMethod>,
    algorithms: Option<NegotiatedAlgorithms>,
    x25519_secret: Option<EphemeralSecret>,
    x25519_public: Option<Vec<u8>>,
    dh_x: Option<Vec<u8>>,
    dh_e: Option<Vec<u8>>,
    dh_f: Option<Vec<u8>>,
    shared_secret: Option<Vec<u8>>,
    exchange_hash: Option<Vec<u8>>,
    client_kexinit: Option<Vec<u8>>,
    server_kexinit: Option<Vec<u8>>,
}

impl View for KexState {
    type V = KexView;

    closed spec fn view(&self) -> KexView {
        KexView {
            method: self.method,
            algorithms: match self.algorithms {
                Some(a) => Some(a@),
                None => None,
            },
            has_x25519_secret: self.x25519_secret is Some,
            x25519_public: opt_bytes(self.x25519_public),
            dh_x: opt_bytes(self.dh_x),
            dh_e: opt_bytes(self.dh_e),
            dh_f: opt_bytes(self.dh_f),
            shared_secret: opt_bytes(self.shared_secret),
            exchange_hash: opt_bytes(self.exchange_hash),
            client_kexinit: opt_bytes(self.client_kexinit),
            server_kexinit: opt_bytes(self.server_kexinit),
        }
    }
}

/// The digest `uses_sha256` picks.
fn hash_of(s256: bool, data: &[u8]) -> (r: Vec<u8>)
    ensures
        r@ == hash_with(s256, data@),
        r@.len() == hash_len(s256),
{
    if s256 {
        sha256_digest(data)
    } else {
        sha1_digest(data)
    }
}

/// The one-byte key letter.
fn letter(c: u8) -> (v: Vec<u8>)
    ensures
        v@ == seq![c],
{
    let v = vec![c];
    assert(v@ =~= seq![c]);
    v
}

/// Our KEXINIT payload around `cookie`.
pub fn kexinit_payload(cookie: &[u8]) -> (p: Vec<u8>)
    ensures
        p@ == spec_kexinit_payload(cookie@),
{
    let mut payload: Vec<u8> = Vec::new();
    payload.push(20u8);
    put_slice(&mut payload, cookie);
    write_name_list(&mut payload, SUPPORTED_KEX.as_slice());
    write_name_list(&mut payload, HOST_KEY_ALGORITHMS.as_slice());
    write_name_list(&mut payload, SUPPORTED_ENCRYPTION.as_slice());
    write_name_list(&mut payload, SUPPORTED_ENCRYPTION.as_slice());
    write_name_list(&mut payload, SUPPORTED_MAC.as_slice());
    write_name_list(&mut payload, SUPPORTED_MAC.as_slice());
    write_name_list(&mut payload, SUPPORTED_COMPRESSION.as_slice());
    write_name_list(&mut payload, SUPPORTED_COMPRESSION.as_slice());
    let none: [&str; 0] = [];
    write_name_list(&mut payload, none.as_slice());
    write_name_list(&mut payload, none.as_slice());
    payload.push(0u8);
    put_u32(&mut payload, 0);
    proof {
        assert(none@ =~= Seq::<&str>::empty());
        assert(payload@ =~= spec_kexinit_payload(cookie@));
    }
    payload
}

impl KexState {
    /// A fresh exchange: nothing negotiated or computed.
    pub fn new() -> (s: KexState)
        ensures
            s@ == fresh_kex_view(),
    {
        KexState {
            method: None,
            algorithms: None,
            x25519_secret: None,
            x25519_public: None,
            dh_x: None,
            dh_e: None,
            dh_f: None,
            shared_secret: None,
            exchange_hash: None,
            client_kexinit: None,
            server_kexinit: None,
        }
    }

    /// The negotiated algorithms, once the client's KEXINIT has been accepted.
    pub fn negotiated_algorithms(&self) -> (r: Option<&NegotiatedAlgorithms>)
        ensures
            match self@.algorithms {
                Some(a) => r matches Some(x) && x@ == a,
                None => r is None,
            },
    {
        self.algorithms.as_ref()
    }

    /// Builds our KEXINIT with a fresh random cookie and keeps a copy.
    #[verifier::spinoff_prover]
    pub fn build_server_kexinit(&mut self) -> (r: Result<Vec<u8>, SshError>)
        ensures
            r matches Ok(p) && p@.len() >= 17 && p@ == spec_kexinit_payload(p@.subrange(1, 17))
                && final(self)@ == (KexView { server_kexinit: Some(p@), ..old(self)@ }),
    {
        let cookie = random_bytes(16);
        let payload = kexinit_payload(cookie.as_slice());
        proof {
            assert(payload@.subrange(1, 17) =~= cookie@);
        }
        self.server_kexinit = Some(payload.clone());
        Ok(payload)
    }

    /// The first of `server`'s algorithms, in order, that `client` also lists.
    fn negotiate(client: &[String], server: &[&str]) -> (r: Result<String, SshError>)
        ensures
            match first_common(names_view(client@), str_views(server@)) {
                Some(n) => r matches Ok(s) && s@ == n,
                None => r == Err::<String, SshError>(SshError::NoCommonAlgorithm),
            },
    {
        let ghost cv = names_view(client@);
        let mut i: usize = 0;
        assert(server@.subrange(0, server@.len() as int) =~= server@);
        while i < server.len()
            invariant
                i <= server@.len(),
                cv == names_view(client@),
                first_common(cv, str_views(server@)) == first_common(
                    cv,
                    str_views(server@.subrange(i as int, server@.len() as int)),
                ),
            decreases server@.len() - i,
        {
            let s: &str = server[i];
            let ghost rest = str_views(server@.subrange(i as int, server@.len() as int));
            proof {
                assert(rest[0] == s@);
                assert(rest.drop_first() =~= str_views(server@.subrange(i + 1, server@.len() as int)));
            }
            let mut j: usize = 0;
            let mut found = false;
            while j < client.len()
                invariant
                    j <= client@.len(),
                    cv == names_view(client@),
                    found <==> exists|k: int| 0 <= k < j && #[trigger] cv[k] == s@,
                decreases client@.len() - j,
            {
                if str_eq(client[j].as_str(), s) {
                    found = true;
                }
                proof {
                    assert(cv[j as int] == client@[j as int]@);
                }
                j = j + 1;
            }
            if found {
                proof {
                    let k = choose|k: int| 0 <= k < client@.len() && #[trigger] cv[k] == s@;
                    assert(cv.contains(s@));
                }
                return Ok(s.to_owned());
            }
            proof {
                assert(!cv.contains(s@)) by {
                    if cv.contains(s@) {
                        let k = choose|k: int| 0 <= k < cv.len() && cv[k] == s@;
                        assert(cv[k] == s@);
                    }
                }
            }
            i = i + 1;
        }
        proof {
            assert(str_views(server@.subrange(i as int, server@.len() as int)).len() == 0);
        }
        Err(SshError::NoCommonAlgorithm)
    }

    /// Reads the client's KEXINIT and negotiates the session's algorithms.
    ///
    /// The payload is kept whatever happens. Its first 17 bytes are skipped; six
    /// name-lists are read (a short one refuses the payload); for key exchange, both
    /// ciphers and both MACs the first of our algorithms that the client lists wins,
    /// and a kind with none in common refuses the payload.
    pub fn parse_client_kexinit(&mut self, payload: Vec<u8>) -> (r: Result<(), SshError>)
        requires
            payload@.len() >= 17,
        ensures
            match spec_negotiate(payload@) {
                Ok(a) => r is Ok && final(self)@ == (KexView {
                    client_kexinit: Some(payload@),
                    method: kex_for_name(a.kex),
                    algorithms: Some(a),
                    ..old(self)@
                }),
                Err(e) => r == Err::<(), SshError>(e) && final(self)@ == (KexView {
                    client_kexinit: Some(payload@),
                    ..old(self)@
                }),
            },
    {
        self.client_kexinit = Some(payload.clone());
        let mut data: &[u8] = &payload.as_slice()[17..payload.len()];
        let ghost start = data@;
        let mut lists: Vec<Vec<String>> = Vec::new();
        let mut n: usize = 0;
        while n < 6
            invariant
                n <= 6,
                lists@.len() == n,
                payload@.len() >= 17,
                self@ == (KexView { client_kexinit: Some(payload@), ..old(self)@ }),
                start == payload@.subrange(17, payload@.len() as int),
                spec_read_name_lists(start, 6) == match spec_read_name_lists(data@, (6 - n) as nat) {
                    Ok(more) => Ok(lists@.map_values(|l: Vec<String>| names_view(l@)) + more),
                    Err(e) => Err(e),
                },
            decreases 6 - n,
        {
            let ghost before = data@;
            let names = match read_name_list(&mut data) {
                Ok(v) => v,
                Err(e) => {
                    proof {
                        assert(spec_read_name_list(before) == Err::<(Seq<Seq<char>>, Seq<u8>), SshError>(e));
                    }
                    return Err(e);
                },
            };
            proof {
                let (d, rest) = spec_read_string(before)->Ok_0;
                assert(names_view(names@) =~= name_list_items(d).map_values(|x: Seq<u8>| utf8_lossy(x)));
                assert(spec_read_name_list(before) == Ok::<(Seq<Seq<char>>, Seq<u8>), SshError>((names_view(names@), data@)));
                let old_view = lists@.map_values(|l: Vec<String>| names_view(l@));
                let new_lists = lists@.push(names);
                assert(new_lists.map_values(|l: Vec<String>| names_view(l@)) =~= old_view.push(names_view(names@)));
                match spec_read_name_lists(data@, (6 - n - 1) as nat) {
                    Ok(more) => {
                        assert(old_view + (seq![names_view(names@)] + more) =~= old_view.push(names_view(names@)) + more);
                    },
                    Err(e) => {},
                }
            }
            lists.push(names);
            n = n + 1;
        }
        let ghost ls = lists@.map_values(|l: Vec<String>| names_view(l@));
        proof {
            assert(ls + Seq::<Seq<Seq<char>>>::empty() =~= ls);
            assert(spec_read_name_lists(start, 6) == Ok::<Seq<Seq<Seq<char>>>, SshError>(ls));
            assert(ls[0] == names_view(lists@[0]@));
            assert(ls[2] == names_view(lists@[2]@));
            assert(ls[3] == names_view(lists@[3]@));
            assert(ls[4] == names_view(lists@[4]@));
            assert(ls[5] == names_view(lists@[5]@));
        }
        let kex = match Self::negotiate(lists[0].as_slice(), SUPPORTED_KEX.as_slice()) {
            Ok(s) => s,
            Err(e) => {
                return Err(e);
            },
        };
        let encryption_c2s = match Self::negotiate(lists[2].as_slice(), SUPPORTED_ENCRYPTION.as_slice()) {
            Ok(s) => s,
            Err(e) => {
                return Err(e);
            },
        };
        let encryption_s2c = match Self::negotiate(lists[3].as_slice(), SUPPORTED_ENCRYPTION.as_slice()) {
            Ok(s) => s,
            Err(e) => {
                return Err(e);
            },
        };
        let mac_c2s = match Self::negotiate(lists[4].as_slice(), SUPPORTED_MAC.as_slice()) {
            Ok(s) => s,
            Err(e) => {
                return Err(e);
            },
        };
        let mac_s2c = match Self::negotiate(lists[5].as_slice(), SUPPORTED_MAC.as_slice()) {
            Ok(s) => s,
            Err(e) => {
                return Err(e);
            },
        };
        self.method = KexMethod::from_name(kex.as_str());
        self.algorithms = Some(
            NegotiatedAlgorithms { kex, encryption_c2s, encryption_s2c, mac_c2s, mac_s2c },
        );
        Ok(())
    }

    /// Generates our ephemeral key pair for the negotiated method: an X25519 key, or a
    /// 256-bit random exponent `x` and `e = g^x mod p` in the method's group.
    pub fn generate_keys(&mut self) -> (r: Result<(), SshError>)
        ensures
            match old(self)@.method {
                None => r == Err::<(), SshError>(SshError::NoKexMethod) && final(self)@ == old(self)@,
                Some(KexMethod::Curve25519) => r is Ok && (final(self)@.x25519_public matches Some(pk)
                    && pk.len() == 32 && final(self)@ == (KexView {
                    has_x25519_secret: true,
                    x25519_public: Some(pk),
                    ..old(self)@
                })),
                Some(m) => r is Ok && final(self)@.dh_x is Some && final(self)@.dh_x->0.len() == 32
                    && final(self)@.dh_e is Some && is_modpow(
                    final(self)@.dh_e->0,
                    seq![2u8],
                    final(self)@.dh_x->0,
                    group_prime(m),
                ) && final(self)@ == (KexView {
                    dh_x: final(self)@.dh_x,
                    dh_e: final(self)@.dh_e,
                    ..old(self)@
                }),
            },
    {
        match self.method {
            Some(KexMethod::Curve25519) => {
                let secret = x25519_random_secret();
                let public = x25519_public_key(&secret);
                self.x25519_secret = Some(secret);
                self.x25519_public = Some(public);
                Ok(())
            },
            Some(KexMethod::DiffieHellmanGroup14Sha256) | Some(KexMethod::DiffieHellmanGroup14Sha1) => {
                let group = DHGroup::group14();
                self.generate_dh_keys(&group);
                Ok(())
            },
            Some(KexMethod::DiffieHellmanGroup1Sha1) => {
                let group = DHGroup::group1();
                self.generate_dh_keys(&group);
                Ok(())
            },
            None => Err(SshError::NoKexMethod),
        }
    }

    fn generate_dh_keys(&mut self, group: &DHGroup)
        requires
            be_value(group.p@) > 0,
        ensures
            final(self)@.dh_x is Some && final(self)@.dh_x->0.len() == 32,
            final(self)@.dh_e is Some,
            is_modpow(final(self)@.dh_e->0, group.g@, final(self)@.dh_x->0, group.p@),
            final(self)@ == (KexView {
                dh_x: final(self)@.dh_x,
                dh_e: final(self)@.dh_e,
                ..old(self)@
            }),
    {
        let x = random_bytes(32);
        let e = modpow_be(group.g.as_slice(), x.as_slice(), group.p.as_slice());
        self.dh_x = Some(x);
        self.dh_e = Some(e);
    }

    /// Our KEXDH_INIT / KEX_ECDH_INIT: message 30 with our public value.
    pub fn build_kex_dh_init(&self) -> (r: Result<Vec<u8>, SshError>)
        requires
            public_value_ready(self@),
        ensures
            match self@.method {
                None => r == Err::<Vec<u8>, SshError>(SshError::NoKexMethod),
                Some(KexMethod::Curve25519) => r matches Ok(p) && p@ == seq![30u8] + ssh_string(
                    self@.x25519_public->0,
                ),
                Some(_) => r matches Ok(p) && p@ == seq![30u8] + ssh_string(self@.dh_e->0),
            },
    {
        let mut payload: Vec<u8> = Vec::new();
        match self.method {
            Some(KexMethod::Curve25519) => {
                payload.push(30u8);
                let public = self.x25519_public.as_ref().unwrap();
                write_ssh_string(&mut payload, public.as_slice());
            },
            Some(_) => {
                payload.push(30u8);
                let e = self.dh_e.as_ref().unwrap();
                write_ssh_string(&mut payload, e.as_slice());
            },
            None => {
                return Err(SshError::NoKexMethod);
            },
        }
        Ok(payload)
    }

    /// Reads the peer's public value (after the message type byte): an X25519 key must
    /// be 32 bytes and is checked only; a Diffie-Hellman value is kept as `f`.
    pub fn parse_kex_init(&mut self, payload: Vec<u8>) -> (r: Result<(), SshError>)
        requires
            payload@.len() >= 1,
        ensures
            match old(self)@.method {
                None => r == Err::<(), SshError>(SshError::NoKexMethod) && final(self)@ == old(self)@,
                Some(KexMethod::Curve25519) => final(self)@ == old(self)@ && match spec_read_string(
                    payload@.drop_first(),
                ) {
                    Err(e) => r == Err::<(), SshError>(e),
                    Ok((q, _)) => if q.len() != 32 {
                        r == Err::<(), SshError>(SshError::InvalidX25519Key)
                    } else {
                        r is Ok
                    },
                },
                Some(_) => match spec_read_string(payload@.drop_first()) {
                    Err(e) => r == Err::<(), SshError>(e) && final(self)@ == old(self)@,
                    Ok((f, _)) => r is Ok && final(self)@ == (KexView { dh_f: Some(f), ..old(self)@ }),
                },
            },
    {
        let mut data: &[u8] = &payload.as_slice()[1..payload.len()];
        proof {
            assert(data@ =~= payload@.drop_first());
        }
        match self.method {
            Some(KexMethod::Curve25519) => {
                let q_c = match read_ssh_string(&mut data) {
                    Ok(v) => v,
                    Err(e) => {
                        return Err(e);
                    },
                };
                if q_c.len() != 32 {
                    return Err(SshError::InvalidX25519Key);
                }
                Ok(())
            },
            Some(_) => {
                let e_bytes = match read_ssh_string(&mut data) {
                    Ok(v) => v,
                    Err(e) => {
                        return Err(e);
                    },
                };
                self.dh_f = Some(e_bytes);
                Ok(())
            },
            None => Err(SshError::NoKexMethod),
        }
    }

    /// Computes the shared secret: 32 zero bytes for X25519 (the peer's key is not
    /// used), `f^x mod p` for Diffie-Hellman.
    pub fn compute_shared_secret(&mut self) -> (r: Result<(), SshError>)
        requires
            shared_secret_ready(old(self)@),
        ensures
            match old(self)@.method {
                None => r == Err::<(), SshError>(SshError::NoKexMethod) && final(self)@ == old(self)@,
                Some(KexMethod::Curve25519) => r is Ok && final(self)@ == (KexView {
                    shared_secret: Some(Seq::new(32, |i: int| 0u8)),
                    ..old(self)@
                }),
                Some(m) => r is Ok && (final(self)@.shared_secret matches Some(k) && is_modpow(
                    k,
                    old(self)@.dh_f->0,
                    old(self)@.dh_x->0,
                    group_prime(m),
                ) && final(self)@ == (KexView { shared_secret: Some(k), ..old(self)@ })),
            },
    {
        match self.method {
            Some(KexMethod::Curve25519) => {
                let zeros = vec![0u8; 32];
                proof {
                    assert(zeros@ =~= Seq::new(32, |i: int| 0u8));
                }
                self.shared_secret = Some(zeros);
                Ok(())
            },
            Some(KexMethod::DiffieHellmanGroup14Sha256) | Some(KexMethod::DiffieHellmanGroup14Sha1) => {
                let group = DHGroup::group14();
                self.compute_dh_shared_secret(&group);
                Ok(())
            },
            Some(KexMethod::DiffieHellmanGroup1Sha1) => {
                let group = DHGroup::group1();
                self.compute_dh_shared_secret(&group);
                Ok(())
            },
            None => Err(SshError::NoKexMethod),
        }
    }

    fn compute_dh_shared_secret(&mut self, group: &DHGroup)
        requires
            be_value(group.p@) > 0,
            old(self)@.dh_x is Some,
            old(self)@.dh_f is Some,
        ensures
            final(self)@.shared_secret matches Some(k) && is_modpow(
                k,
                old(self)@.dh_f->0,
                old(self)@.dh_x->0,
                group.p@,
            ) && final(self)@ == (KexView { shared_secret: Some(k), ..old(self)@ }),
    {
        let x = self.dh_x.as_ref().unwrap();
        let f = self.dh_f.as_ref().unwrap();
        let k = modpow_be(f.as_slice(), x.as_slice(), group.p.as_slice());
        self.shared_secret = Some(k);
    }

    /// Computes the exchange hash: the method's hash of the client's version, our
    /// version and the shared secret (when there is one).
    pub fn compute_exchange_hash(&mut self, client_ver: &str, server_ver: &str) -> (r: Result<(), SshError>)
        ensures
            old(self)@.method matches Some(m) ==> (final(self)@.exchange_hash matches Some(h) && h.len() == (
            if m == KexMethod::DiffieHellmanGroup14Sha1 || m == KexMethod::DiffieHellmanGroup1Sha1 {
                20nat
            } else {
                32nat
            })),
            match old(self)@.method {
                None => r == Err::<(), SshError>(SshError::NoKexMethod) && final(self)@ == old(self)@,
                Some(_) => r is Ok && final(self)@ == (KexView {
                    exchange_hash: Some(
                        hash_with(
                            uses_sha256(old(self)@.method),
                            spec_hash_input(client_ver@, server_ver@, old(self)@.shared_secret),
                        ),
                    ),
                    ..old(self)@
                }),
            },
    {
        if self.method.is_none() {
            return Err(SshError::NoKexMethod);
        }
        let s256 = match self.method {
            Some(KexMethod::Curve25519) | Some(KexMethod::DiffieHellmanGroup14Sha256) => true,
            _ => false,
        };
        let mut data: Vec<u8> = Vec::new();
        put_slice(&mut data, client_ver.as_bytes());
        put_slice(&mut data, server_ver.as_bytes());
        match &self.shared_secret {
            Some(k) => put_slice(&mut data, k.as_slice()),
            None => {},
        }
        proof {
            assert(data@ =~= spec_hash_input(client_ver@, server_ver@, old(self)@.shared_secret));
        }
        let hash = hash_of(s256, data.as_slice());
        self.exchange_hash = Some(hash);
        Ok(())
    }

    /// Derives the six session keys from the shared secret `K` and exchange hash `H`
    /// (which also serves as session id): IVs with letters A and B (16 bytes), cipher
    /// keys with C and D (32 bytes), MAC keys with E and F (32 bytes).
    pub fn derive_keys(&self) -> (r: Result<SessionKeys, SshError>)
        requires
            keys_ready(self@),
        ensures
            r matches Ok(keys) && keys_derived(
                keys,
                self@.shared_secret->0,
                self@.exchange_hash->0,
                uses_sha256(self@.method),
            ),
    {
        let h = self.exchange_hash.as_ref().unwrap();
        let k = self.shared_secret.as_ref().unwrap();
        let s256 = match self.method {
            Some(KexMethod::Curve25519) | Some(KexMethod::DiffieHellmanGroup14Sha256) => true,
            _ => false,
        };
        let iv_c2s = Self::derive_key(k.as_slice(), h.as_slice(), letter(65u8).as_slice(), h.as_slice(), 16, s256);
        let iv_s2c = Self::derive_key(k.as_slice(), h.as_slice(), letter(66u8).as_slice(), h.as_slice(), 16, s256);
        let key_c2s = Self::derive_key(k.as_slice(), h.as_slice(), letter(67u8).as_slice(), h.as_slice(), 32, s256);
        let key_s2c = Self::derive_key(k.as_slice(), h.as_slice(), letter(68u8).as_slice(), h.as_slice(), 32, s256);
        let mac_c2s = Self::derive_key(k.as_slice(), h.as_slice(), letter(69u8).as_slice(), h.as_slice(), 32, s256);
        let mac_s2c = Self::derive_key(k.as_slice(), h.as_slice(), letter(70u8).as_slice(), h.as_slice(), 32, s256);
        proof {
            assert(s256 == uses_sha256(self@.method));
        }
        let mut keys = SessionKeys::new();
        keys.iv_client_to_server = iv_c2s;
        keys.iv_server_to_client = iv_s2c;
        keys.key_client_to_server = key_c2s;
        keys.key_server_to_client = key_s2c;
        keys.mac_client_to_server = mac_c2s;
        keys.mac_server_to_client = mac_s2c;
        Ok(keys)
    }

    /// One derived key: `H(K || H || X || session_id)`, extended by
    /// `H(K || H || key so far)` until long enough, cut to `needed` bytes.
    fn derive_key(k: &[u8], h: &[u8], x: &[u8], session_id: &[u8], needed: usize, s256: bool) -> (r: Vec<u8>)
        requires
            needed + 32 <= usize::MAX,
        ensures
            r@ == spec_derive_key(k@, h@, x@, session_id@, needed as nat, s256),
            r@.len() == needed,
    {
        let ghost l = hash_len(s256);
        let mut input: Vec<u8> = Vec::new();
        put_slice(&mut input, k);
        put_slice(&mut input, h);
        put_slice(&mut input, x);
        put_slice(&mut input, session_id);
        let mut key = hash_of(s256, input.as_slice());
        let ghost mut rounds: nat = 0;
        proof {
            assert(input@ =~= k@ + h@ + x@ + session_id@);
        }
        while key.len() < needed
            invariant
                l == hash_len(s256),
                key@ == kdf_blocks(k@, h@, x@, session_id@, s256, rounds),
                key@.len() == (rounds + 1) * l,
                rounds == 0 || rounds * l < needed,
                needed + 32 <= usize::MAX,
                key@.len() <= needed + 32,
            decreases needed + 32 - key@.len(),
        {
            let mut more: Vec<u8> = Vec::new();
            put_slice(&mut more, k);
            put_slice(&mut more, h);
            put_slice(&mut more, key.as_slice());
            let block = hash_of(s256, more.as_slice());
            let mut next = key.clone();
            put_slice(&mut next, block.as_slice());
            proof {
                assert(more@ =~= k@ + h@ + key@);
                assert(next@ == key@ + block@);
                assert(next@.len() == (rounds + 2) * l) by (nonlinear_arith)
                    requires
                        next@.len() == key@.len() + l,
                        key@.len() == (rounds + 1) * l,
                ;
                assert((rounds + 1) * l < needed) by (nonlinear_arith)
                    requires
                        key@.len() == (rounds + 1) * l,
                        key@.len() < needed,
                ;
                rounds = rounds + 1;
            }
            key = next;
        }
        proof {
            assert(rounds == kdf_rounds(needed as nat, l)) by {
                if needed == 0 {
                    if rounds > 0 {
                        assert(rounds * l >= 0) by (nonlinear_arith)
                            requires
                                rounds >= 0,
                                l >= 0,
                        ;
                    }
                } else {
                    lemma_rounds(needed as int, l as int, rounds as int);
                }
            }
        }
        key.truncate(needed);
        key
    }

    /// The exchange hash, once computed.
    pub fn exchange_hash(&self) -> (r: Option<&[u8]>)
        ensures
            match self@.exchange_hash {
                Some(h) => r matches Some(s) && s@ == h,
                None => r is None,
            },
    {
        match &self.exchange_hash {
            Some(h) => Some(h.as_slice()),
            None => None,
        }
    }

    /// Whether our public value for the negotiated method is there.
    pub fn has_public_value(&self) -> (r: bool)
        ensures
            r == public_value_ready(self@),
    {
        match self.method {
            Some(KexMethod::Curve25519) => self.x25519_public.is_some(),
            Some(_) => self.dh_e.is_some(),
            None => true,
        }
    }

    /// Whether the shared secret can be computed.
    pub fn can_compute_shared_secret(&self) -> (r: bool)
        ensures
            r == shared_secret_ready(self@),
    {
        match self.method {
            Some(KexMethod::Curve25519) => true,
            Some(_) => self.dh_x.is_some() && self.dh_f.is_some(),
            None => true,
        }
    }

    /// Whether the session keys can be derived.
    pub fn can_derive_keys(&self) -> (r: bool)
        ensures
            r == keys_ready(self@),
    {
        self.exchange_hash.is_some() && self.shared_secret.is_some()
    }

    /// Our KEXDH_REPLY: message 31, the host key blob, our public value and the
    /// signature, each as an SSH string.
    pub fn build_kex_reply(&self, host_key: &[u8], signature: &[u8]) -> (r: Result<Vec<u8>, SshError>)
        requires
            public_value_ready(self@),
        ensures
            match self@.method {
                None => r == Err::<Vec<u8>, SshError>(SshError::NoKexMethod),
                Some(KexMethod::Curve25519) => r matches Ok(p) && p@ == seq![31u8] + ssh_string(host_key@)
                    + ssh_string(self@.x25519_public->0) + ssh_string(signature@),
                Some(_) => r matches Ok(p) && p@ == seq![31u8] + ssh_string(host_key@) + ssh_string(
                    self@.dh_e->0,
                ) + ssh_string(signature@),
            },
    {
        let mut payload: Vec<u8> = Vec::new();
        payload.push(31u8);
        write_ssh_string(&mut payload, host_key);
        match self.method {
            Some(KexMethod::Curve25519) => {
                let public = self.x25519_public.as_ref().unwrap();
                write_ssh_string(&mut payload, public.as_slice());
            },
            Some(_) => {
                let f = self.dh_e.as_ref().unwrap();
                write_ssh_string(&mut payload, f.as_slice());
            },
            None => {
                return Err(SshError::NoKexMethod);
            },
        }
        write_ssh_string(&mut payload, signature);
        Ok(payload)
    }
}

} // verus!
