//! Drives the key exchange message by message and signs with the host key.
use vstd::prelude::*;
use std::sync::Arc;
use crate::error::SshError;
use crate::wire::{ssh_string, spec_read_string, to_vec};
use crate::algorithms::{KexMethod, NegotiatedAlgorithms, kex_for_name};
use crate::kex::{
    KexState, KexView, AlgorithmsView, spec_negotiate, spec_kexinit_payload, public_value,
    hash_with, uses_sha256, spec_hash_input, keys_derived, fresh_kex_view, is_modpow, group_prime,
    shared_secret_ready, public_value_ready,
};
use crate::host_key::{HostKey, spec_signature_blob, pkcs1v15_sha256_signature};
use crate::session_keys::SessionKeys;

verus! {

/// Manages a key exchange, signing the exchange hash with the host key.
pub struct KexHandler {
    kex: KexState,
    kex_complete: bool,
    client_version: String,
    server_version: String,
    host_key: Arc<HostKey>,
}

impl KexHandler {
    /// The state of the exchange.
    pub closed spec fn kex_view(&self) -> KexView {
        self.kex@
    }

    /// Whether NEWKEYS has been received.
    pub closed spec fn complete(&self) -> bool {
        self.kex_complete
    }

    /// The client's version line.
    pub closed spec fn client_version_view(&self) -> Seq<char> {
        self.client_version@
    }

    /// Our version line.
    pub closed spec fn server_version_view(&self) -> Seq<char> {
        self.server_version@
    }

    /// The host key's public blob.
    pub closed spec fn host_blob(&self) -> Seq<u8> {
        self.host_key.blob()
    }

    /// The host key's private key, as PKCS#8 DER.
    pub closed spec fn host_der(&self) -> Seq<u8> {
        self.host_key.der()
    }

    /// A handler for a fresh exchange between the two version lines.
    pub fn new(client_version: String, server_version: String, host_key: Arc<HostKey>) -> (h: KexHandler)
        ensures
            h.kex_view() == fresh_kex_view(),
            !h.complete(),
            h.client_version_view() == client_version@,
            h.server_version_view() == server_version@,
            h.host_blob() == host_key.blob(),
            h.host_der() == host_key.der(),
    {
        KexHandler {
            kex: KexState::new(),
            kex_complete: false,
            client_version,
            server_version,
            host_key,
        }
    }

    /// Handles one key exchange message (its type, then the rest of it).
    ///
    /// KEXINIT (20) negotiates, generates our ephemeral keys and answers with our
    /// KEXINIT; KEXDH_INIT (30) takes the peer's value, computes the shared secret and
    /// exchange hash, and answers with the signed reply; NEWKEYS (21) completes the
    /// exchange and is answered in kind. Any other type is refused.
    pub fn process_kex_message(&mut self, msg_type: u8, payload: &[u8]) -> (r: Result<Option<Vec<u8>>, SshError>)
        ensures
            kex_message_outcome(*old(self), *final(self), msg_type, payload@, r),
    {
        if msg_type == 20 {
            self.handle_kexinit(payload)
        } else if msg_type == 30 {
            self.handle_kex_init(payload)
        } else if msg_type == 21 {
            self.kex_complete = true;
            let mut newkeys: Vec<u8> = Vec::new();
            newkeys.push(21u8);
            assert(newkeys@ =~= seq![21u8]);
            Ok(Some(newkeys))
        } else {
            Err(SshError::UnexpectedKexMessage)
        }
    }

    fn handle_kexinit(&mut self, payload: &[u8]) -> (r: Result<Option<Vec<u8>>, SshError>)
        ensures
            final(self).client_version_view() == old(self).client_version_view(),
            final(self).server_version_view() == old(self).server_version_view(),
            final(self).host_blob() == old(self).host_blob(),
            final(self).host_der() == old(self).host_der(),
            final(self).complete() == old(self).complete(),
            kexinit_outcome(old(self).kex_view(), payload@, final(self).kex_view(), r),
    {
        if payload.len() < 17 {
            return Err(SshError::MalformedPacket);
        }
        proof {
            crate::kex::lemma_negotiated_kex_known(payload@);
        }
        match self.kex.parse_client_kexinit(to_vec(payload)) {
            Ok(()) => {},
            Err(e) => {
                return Err(e);
            },
        }
        match self.kex.generate_keys() {
            Ok(()) => {},
            Err(e) => {
                return Err(e);
            },
        }
        match self.kex.build_server_kexinit() {
            Ok(p) => Ok(Some(p)),
            Err(e) => Err(e),
        }
    }

    fn handle_kex_init(&mut self, payload: &[u8]) -> (r: Result<Option<Vec<u8>>, SshError>)
        ensures
            final(self).client_version_view() == old(self).client_version_view(),
            final(self).server_version_view() == old(self).server_version_view(),
            final(self).host_blob() == old(self).host_blob(),
            final(self).host_der() == old(self).host_der(),
            final(self).complete() == old(self).complete(),
            kexdh_outcome(
                old(self).kex_view(),
                payload@,
                final(self).kex_view(),
                r,
                old(self).host_blob(),
                old(self).host_der(),
                old(self).client_version_view(),
                old(self).server_version_view(),
            ),
    {
        if payload.len() < 1 {
            return Err(SshError::MalformedPacket);
        }
        match self.kex.parse_kex_init(to_vec(payload)) {
            Ok(()) => {},
            Err(e) => {
                return Err(e);
            },
        }
        if !self.kex.can_compute_shared_secret() {
            return Err(SshError::KeysNotReady);
        }
        match self.kex.compute_shared_secret() {
            Ok(()) => {},
            Err(e) => {
                return Err(e);
            },
        }
        match self.kex.compute_exchange_hash(self.client_version.as_str(), self.server_version.as_str()) {
            Ok(()) => {},
            Err(e) => {
                return Err(e);
            },
        }
        let host_key_blob = self.host_key.public_key_blob();
        let exchange_hash = match self.kex.exchange_hash() {
            Some(h) => h,
            None => {
                return Err(SshError::KeysNotReady);
            },
        };
        let signature = match self.host_key.sign_exchange_hash(exchange_hash) {
            Ok(s) => s,
            Err(e) => {
                return Err(e);
            },
        };
        if !self.kex.has_public_value() {
            return Err(SshError::KeysNotReady);
        }
        match self.kex.build_kex_reply(host_key_blob, signature.as_slice()) {
            Ok(p) => Ok(Some(p)),
            Err(e) => Err(e),
        }
    }

    /// Whether NEWKEYS has been received.
    pub fn is_complete(&self) -> (r: bool)
        ensures
            r == self.complete(),
    {
        self.kex_complete
    }

    /// The negotiated algorithms, if any.
    pub fn algorithms(&self) -> (r: Option<&NegotiatedAlgorithms>)
        ensures
            match self.kex_view().algorithms {
                Some(a) => r matches Some(x) && x@ == a,
                None => r is None,
            },
    {
        self.kex.negotiated_algorithms()
    }

    /// The session keys, once a shared secret and exchange hash exist.
    pub fn derive_keys(&self) -> (r: Result<SessionKeys, SshError>)
        ensures
            match (self.kex_view().shared_secret, self.kex_view().exchange_hash) {
                (Some(k), Some(h)) => r matches Ok(keys) && keys_derived(
                    keys,
                    k,
                    h,
                    uses_sha256(self.kex_view().method),
                ),
                _ => r == Err::<SessionKeys, SshError>(SshError::KeysNotReady),
            },
    {
        if !self.kex.can_derive_keys() {
            return Err(SshError::KeysNotReady);
        }
        self.kex.derive_keys()
    }
}

/// What one key exchange message does to the handler, and its answer.
pub open spec fn kex_message_outcome(
    pre: KexHandler,
    post: KexHandler,
    msg_type: u8,
    payload: Seq<u8>,
    r: Result<Option<Vec<u8>>, SshError>,
) -> bool {
    &&& post.client_version_view() == pre.client_version_view()
    &&& post.server_version_view() == pre.server_version_view()
    &&& post.host_blob() == pre.host_blob()
    &&& post.host_der() == pre.host_der()
    &&& msg_type != 20 && msg_type != 30 && msg_type != 21 ==> r == Err::<Option<Vec<u8>>, SshError>(
        SshError::UnexpectedKexMessage,
    ) && post.kex_view() == pre.kex_view() && post.complete() == pre.complete()
    &&& msg_type == 21 ==> (r matches Ok(Some(p)) && p@ == seq![21u8]) && post.complete()
        && post.kex_view() == pre.kex_view()
    &&& msg_type == 20 ==> post.complete() == pre.complete() && kexinit_outcome(
        pre.kex_view(),
        payload,
        post.kex_view(),
        r,
    )
    &&& msg_type == 30 ==> post.complete() == pre.complete() && kexdh_outcome(
        pre.kex_view(),
        payload,
        post.kex_view(),
        r,
        pre.host_blob(),
        pre.host_der(),
        pre.client_version_view(),
        pre.server_version_view(),
    )
}

/// What a KEXINIT (20) message does: a payload shorter than 17 bytes is refused;
/// otherwise negotiation refuses it or the method's keys are generated and our
/// KEXINIT is the answer.
pub open spec fn kexinit_outcome(
    pre: KexView,
    payload: Seq<u8>,
    post: KexView,
    r: Result<Option<Vec<u8>>, SshError>,
) -> bool {
    if payload.len() < 17 {
        r == Err::<Option<Vec<u8>>, SshError>(SshError::MalformedPacket) && post == pre
    } else {
        match spec_negotiate(payload) {
            Err(e) => r == Err::<Option<Vec<u8>>, SshError>(e) && post == (KexView {
                client_kexinit: Some(payload),
                ..pre
            }),
            Ok(a) => r matches Ok(Some(p)) && p@.len() >= 17 && p@ == spec_kexinit_payload(
                p@.subrange(1, 17),
            ) && post.server_kexinit == Some(p@) && post.client_kexinit == Some(payload)
                && post.algorithms == Some(a) && post.method == kex_for_name(a.kex)
                && crate::kex::public_value_ready(post) && post.shared_secret == pre.shared_secret
                && post.exchange_hash == pre.exchange_hash,
        }
    }
}

/// The shared secret `k` computed for the exchange `v`: 32 zero bytes for X25519,
/// `f ^ x mod p` in the method's group for Diffie-Hellman.
pub open spec fn secret_of(v: KexView, k: Seq<u8>) -> bool {
    if v.method == Some(KexMethod::Curve25519) {
        k == Seq::new(32, |i: int| 0u8)
    } else {
        is_modpow(k, v.dh_f->0, v.dh_x->0, group_prime(v.method->0))
    }
}

/// What a KEXDH_INIT (30) message does: an empty payload or a missing method is
/// refused, and so is an unreadable peer value or an X25519 key that is not 32
/// bytes. Otherwise the peer value is kept (Diffie-Hellman), the shared secret and
/// the exchange hash of the two version lines and the secret are computed, and the
/// answer is our reply carrying the host key's PKCS#1 v1.5 SHA-256 signature of that
/// hash; it fails only where the secret's inputs are missing, signing fails, or our
/// public value is missing.
pub open spec fn kexdh_outcome(
    pre: KexView,
    payload: Seq<u8>,
    post: KexView,
    r: Result<Option<Vec<u8>>, SshError>,
    blob: Seq<u8>,
    der: Seq<u8>,
    cv: Seq<char>,
    sv: Seq<char>,
) -> bool {
    if payload.len() == 0 {
        r == Err::<Option<Vec<u8>>, SshError>(SshError::MalformedPacket) && post == pre
    } else if pre.method is None {
        r == Err::<Option<Vec<u8>>, SshError>(SshError::NoKexMethod) && post == pre
    } else {
        match spec_read_string(payload.drop_first()) {
            Err(e) => r == Err::<Option<Vec<u8>>, SshError>(e) && post == pre,
            Ok((q, _)) => if pre.method == Some(KexMethod::Curve25519) && q.len() != 32 {
                r == Err::<Option<Vec<u8>>, SshError>(SshError::InvalidX25519Key) && post == pre
            } else {
                let mid = if pre.method == Some(KexMethod::Curve25519) {
                    pre
                } else {
                    KexView { dh_f: Some(q), ..pre }
                };
                if !shared_secret_ready(mid) {
                    r == Err::<Option<Vec<u8>>, SshError>(SshError::KeysNotReady) && post == mid
                } else {
                    &&& post.shared_secret matches Some(k) && secret_of(mid, k)
                    &&& post == (KexView {
                        shared_secret: post.shared_secret,
                        exchange_hash: Some(
                            hash_with(uses_sha256(pre.method), spec_hash_input(cv, sv, post.shared_secret)),
                        ),
                        ..mid
                    })
                    &&& match pkcs1v15_sha256_signature(der, post.exchange_hash->0) {
                        None => r == Err::<Option<Vec<u8>>, SshError>(SshError::SigningFailed),
                        Some(sig) => if !public_value_ready(post) {
                            r == Err::<Option<Vec<u8>>, SshError>(SshError::KeysNotReady)
                        } else {
                            r matches Ok(Some(p)) && p@ == seq![31u8] + ssh_string(blob) + ssh_string(
                                public_value(post),
                            ) + ssh_string(spec_signature_blob(sig))
                        },
                    }
                }
            },
        }
    }
}

} // verus!
