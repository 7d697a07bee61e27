//! The transport layer of one connection: version exchange (tolerating HTTP
//! probes), key exchange, then authentication over the packet codec.
use vstd::prelude::*;
use vstd::utf8::encode_utf8;
use std::sync::Arc;
use crate::error::SshError;
use crate::wire::{put_slice, to_vec};
use crate::text::{utf8_lossy, string_from_utf8_lossy};
use crate::kex::{fresh_kex_view, KexView, uses_sha256, spec_derive_key};
use crate::kex_handler::{KexHandler, kex_message_outcome};
use crate::auth_handler::{TransportAuthHandler, AuthState, MAX_AUTH_ATTEMPTS, auth_message_outcome};
use crate::auth_cache::AuthCache;
use crate::host_key::HostKey;
use crate::packet_codec::{SshPacketCodec, spec_decode, frame, dec_after, seal_refusal};
use crate::cipher_state::{CipherState, next_state, set_up_from};

verus! {

/// Our version line.
pub const SSH_VERSION: &'static str = "SSH-2.0-SSH_Forwarder_0.1";

/// How many bytes of non-SSH input the handshake tolerates.
pub const MAX_HANDSHAKE_GARBAGE: usize = 8192;

/// Markers of an HTTP request sent to the SSH port.
pub const HTTP_PATTERNS: [&'static str; 10] = [
    "GET ",
    "POST ",
    "PUT ",
    "DELETE ",
    "HEAD ",
    "OPTIONS ",
    "HTTP/",
    "Host:",
    "User-Agent:",
    "Accept:",
];

/// Phases of the transport.
#[derive(Debug, Clone, Copy, PartialEq, Eq, Structural)]
pub enum TransportState {
    WaitingIdent,
    KeyExchange,
    Authentication,
    Ready,
}

/// `SSH-` starts at `i`.
pub open spec fn ssh_marker_at(b: Seq<u8>, i: int) -> bool {
    0 <= i && i + 4 <= b.len() && b[i] == 83 && b[i + 1] == 83 && b[i + 2] == 72 && b[i + 3] == 45
}

/// The first line end (CR or LF) at or after `i`.
pub open spec fn first_eol_from(b: Seq<u8>, i: int) -> Option<int>
    decreases b.len() - i,
{
    if i < 0 || i >= b.len() {
        None
    } else if b[i] == 10 || b[i] == 13 {
        Some(i)
    } else {
        first_eol_from(b, i + 1)
    }
}

/// A line end found from `i` lies at or after `i`, inside the input, and is the first.
pub proof fn lemma_first_eol_bounds(b: Seq<u8>, i: int)
    ensures
        first_eol_from(b, i) matches Some(e) ==> i <= e < b.len() && (b[e] == 10 || b[e] == 13),
    decreases b.len() - i,
{
    if i >= 0 && i < b.len() && !(b[i] == 10 || b[i] == 13) {
        lemma_first_eol_bounds(b, i + 1);
    }
}

/// `p` is a prefix of `s`.
pub open spec fn has_prefix(s: Seq<u8>, p: Seq<u8>) -> bool {
    p.len() <= s.len() && s.subrange(0, p.len() as int) == p
}

/// `SSH-2.0-` and `SSH-1.99-`, the versions we speak with.
pub open spec fn version_ok(line: Seq<u8>) -> bool {
    has_prefix(line, seq![83u8, 83, 72, 45, 50, 46, 48, 45]) || has_prefix(
        line,
        seq![83u8, 83, 72, 45, 49, 46, 57, 57, 45],
    )
}

/// What the version search finds in the buffered input.
pub ghost enum IdentScan {
    /// A version line: its text and how many bytes it used up, line end included.
    Ident { version: Seq<char>, consumed: nat },
    /// A complete line starting with `SSH-` that is no version we speak.
    Invalid,
    /// No complete line starting with `SSH-` yet.
    NoIdent,
}

/// The version search from position `i`: each `SSH-` in turn, the first with a
/// complete line deciding.
pub open spec fn scan_ident(b: Seq<u8>, i: int) -> IdentScan
    decreases b.len() - i,
{
    if i < 0 || i + 4 > b.len() {
        IdentScan::NoIdent
    } else if ssh_marker_at(b, i) {
        match first_eol_from(b, i) {
            Some(e) => if version_ok(b.subrange(i, e)) {
                IdentScan::Ident { version: utf8_lossy(b.subrange(i, e)), consumed: (e + 1) as nat }
            } else {
                IdentScan::Invalid
            },
            None => scan_ident(b, i + 1),
        }
    } else {
        scan_ident(b, i + 1)
    }
}

/// `p` occurs in `b`.
pub open spec fn occurs_in(p: Seq<u8>, b: Seq<u8>) -> bool {
    exists|i: int| 0 <= i && i + p.len() <= b.len() && #[trigger] b.subrange(i, i + p.len()) == p
}

/// The input looks like an HTTP request.
pub open spec fn is_http(b: Seq<u8>) -> bool {
    exists|k: int| 0 <= k < 10 && occurs_in(encode_utf8(#[trigger] HTTP_PATTERNS@[k]@), b)
}

/// Our identification: the version line and CR LF.
pub open spec fn server_ident() -> Seq<u8> {
    encode_utf8(SSH_VERSION@) + seq![13u8, 10u8]
}

/// The transport of one connection.
pub struct SshTransport {
    state: TransportState,
    client_version: Option<String>,
    garbage_bytes: usize,
    read_buffer: Vec<u8>,
    kex_handler: Option<KexHandler>,
    auth_handler: Option<TransportAuthHandler>,
    host_key: Arc<HostKey>,
    codec: SshPacketCodec,
    encryption_enabled: bool,
}

impl SshTransport {
    /// The phase.
    pub closed spec fn state_view(&self) -> TransportState {
        self.state
    }

    /// Bytes buffered while waiting for the client's version line.
    pub closed spec fn buffer(&self) -> Seq<u8> {
        self.read_buffer@
    }

    /// Bytes of non-SSH input seen so far.
    pub closed spec fn garbage(&self) -> nat {
        self.garbage_bytes as nat
    }

    /// The client's version line, once read.
    pub closed spec fn client_version_view(&self) -> Option<Seq<char>> {
        match self.client_version {
            Some(v) => Some(v@),
            None => None,
        }
    }

    /// The key exchange, once the version line is read.
    pub closed spec fn kex(&self) -> Option<KexHandler> {
        self.kex_handler
    }

    /// The authentication phase, once keys are in use.
    pub closed spec fn auth(&self) -> Option<TransportAuthHandler> {
        self.auth_handler
    }

    /// The packet codec.
    pub closed spec fn codec_view(&self) -> SshPacketCodec {
        self.codec
    }

    /// Whether packets are encrypted.
    pub closed spec fn encrypted(&self) -> bool {
        self.encryption_enabled
    }

    /// The host key's public blob.
    pub closed spec fn host_blob(&self) -> Seq<u8> {
        self.host_key.blob()
    }

    /// The host key's private key, as PKCS#8 DER.
    pub closed spec fn host_der(&self) -> Seq<u8> {
        self.host_key.der()
    }

    /// A transport waiting for the client's version line.
    pub fn new(host_key: Arc<HostKey>) -> (t: SshTransport)
        ensures
            t.state_view() == TransportState::WaitingIdent,
            t.buffer().len() == 0,
            t.garbage() == 0,
            t.client_version_view() is None,
            t.kex() is None,
            t.auth() is None,
            !t.encrypted(),
            t.codec_view().enc() is None && t.codec_view().dec() is None,
            t.host_blob() == host_key.blob(),
            t.host_der() == host_key.der(),
    {
        SshTransport {
            state: TransportState::WaitingIdent,
            client_version: None,
            garbage_bytes: 0,
            read_buffer: Vec::new(),
            kex_handler: None,
            auth_handler: None,
            host_key,
            codec: SshPacketCodec::new(),
            encryption_enabled: false,
        }
    }

    /// The phase.
    pub fn state(&self) -> (r: TransportState)
        ensures
            r == self.state_view(),
    {
        self.state
    }

    /// Whether the connection is authenticated and ready for channels.
    pub fn is_ready(&self) -> (r: bool)
        ensures
            r == (self.state_view() == TransportState::Ready),
    {
        self.state == TransportState::Ready
    }

    /// Whether a login succeeded.
    pub fn is_authenticated(&self) -> (r: bool)
        ensures
            r == (self.auth() matches Some(a) && a.state_view() == AuthState::Success),
    {
        match &self.auth_handler {
            Some(h) => h.is_authenticated(),
            None => false,
        }
    }

    /// The authenticated user's name.
    pub fn username(&self) -> (r: Option<&str>)
        ensures
            match self.auth() {
                Some(a) => match a.user_view() {
                    Some(u) => r matches Some(s) && s@ == u,
                    None => r is None,
                },
                None => r is None,
            },
    {
        match &self.auth_handler {
            Some(h) => h.username(),
            None => None,
        }
    }

    /// Whether `n` more bytes of input can be taken: the non-SSH bytes seen, the
    /// buffered bytes and `n` together stay within `usize::MAX`.
    pub fn input_fits(&self, n: usize) -> (r: bool)
        ensures
            r == (self.garbage() + self.buffer().len() + n <= usize::MAX),
    {
        let buffered = self.read_buffer.len();
        if self.garbage_bytes > usize::MAX - buffered {
            false
        } else {
            n <= usize::MAX - buffered - self.garbage_bytes
        }
    }

    /// Handles bytes from the client according to the phase: buffered for the
    /// version exchange, a key exchange message, an (encoded) authentication message;
    /// once ready nothing more is done here.
    pub fn process_transport_data(&mut self, cache: &mut AuthCache, data: &[u8]) -> (r: Result<
        Option<Vec<u8>>,
        SshError,
    >)
        requires
            old(self).garbage() + old(self).buffer().len() + data@.len() <= usize::MAX,
        ensures
            final(self).host_blob() == old(self).host_blob(),
            final(self).host_der() == old(self).host_der(),
            old(self).state_view() == TransportState::WaitingIdent ==> version_outcome(
                *old(self),
                *final(self),
                old(self).buffer() + data@,
                r,
            ) && *final(cache) == *old(cache),
            old(self).state_view() == TransportState::KeyExchange ==> kex_phase_outcome(
                *old(self),
                *final(self),
                data@,
                r,
            ) && *final(cache) == *old(cache),
            old(self).state_view() == TransportState::Authentication ==> auth_phase_outcome(
                *old(self),
                *final(self),
                *old(cache),
                *final(cache),
                data@,
                r,
            ),
            old(self).state_view() == TransportState::Ready ==> r == Ok::<Option<Vec<u8>>, SshError>(None)
                && *final(self) == *old(self) && *final(cache) == *old(cache),
    {
        match self.state {
            TransportState::WaitingIdent => {
                put_slice(&mut self.read_buffer, data);
                self.process_version_exchange()
            },
            TransportState::KeyExchange => self.process_kex(data),
            TransportState::Authentication => self.process_auth(cache, data),
            TransportState::Ready => Ok(None),
        }
    }

    fn process_version_exchange(&mut self) -> (r: Result<Option<Vec<u8>>, SshError>)
        requires
            old(self).state_view() == TransportState::WaitingIdent,
            old(self).garbage() + old(self).buffer().len() <= usize::MAX,
        ensures
            version_outcome(*old(self), *final(self), old(self).buffer(), r),
            final(self).host_blob() == old(self).host_blob(),
            final(self).host_der() == old(self).host_der(),
    {
        let buf_data = to_vec(self.read_buffer.as_slice());
        let n = buf_data.len();
        let mut idx: usize = 0;
        proof {
            assert(scan_ident(buf_data@, 0) == scan_ident(buf_data@, idx as int));
        }
        while n >= 4 && idx <= n - 4
            invariant
                n == buf_data@.len(),
                buf_data@ == self.read_buffer@,
                *self == *old(self),
                scan_ident(buf_data@, 0) == scan_ident(buf_data@, idx as int),
            decreases n - idx,
        {
            if buf_data[idx] == 83 && buf_data[idx + 1] == 83 && buf_data[idx + 2] == 72 && buf_data[idx + 3] == 45 {
                proof {
                    lemma_first_eol_bounds(buf_data@, idx as int);
                }
                match self.extract_ident_from(idx) {
                    Ok(Some(client_version)) => {
                        let kex = KexHandler::new(
                            client_version.clone(),
                            SSH_VERSION.to_owned(),
                            self.host_key.clone(),
                        );
                        self.client_version = Some(client_version);
                        self.kex_handler = Some(kex);
                        self.state = TransportState::KeyExchange;
                        return Ok(Some(Self::generate_server_ident()));
                    },
                    Ok(None) => {},
                    Err(e) => {
                        return Err(e);
                    },
                }
            }
            idx = idx + 1;
        }
        if Self::is_http_garbage(buf_data.as_slice()) {
            self.garbage_bytes = self.garbage_bytes + n;
            self.read_buffer = Vec::new();
            if self.garbage_bytes > MAX_HANDSHAKE_GARBAGE {
                return Err(SshError::GarbageExceeded);
            }
            return Ok(None);
        }
        if self.read_buffer.len() > MAX_HANDSHAKE_GARBAGE {
            return Err(SshError::HandshakeBufferExceeded);
        }
        Ok(None)
    }

    /// At an `SSH-` marker at `start`: the version line if a line end follows (the
    /// buffer then drops everything up to and including it), an error if that line
    /// is no version we speak, nothing if the line is incomplete.
    fn extract_ident_from(&mut self, start: usize) -> (r: Result<Option<String>, SshError>)
        requires
            ssh_marker_at(old(self).buffer(), start as int),
        ensures
            match first_eol_from(old(self).buffer(), start as int) {
                None => r == Ok::<Option<String>, SshError>(None) && *final(self) == *old(self),
                Some(e) => if version_ok(old(self).buffer().subrange(start as int, e)) {
                    (r matches Ok(Some(v)) && v@ == utf8_lossy(old(self).buffer().subrange(start as int, e)))
                        && final(self).buffer() == old(self).buffer().subrange(e + 1, old(self).buffer().len() as int)
                        && *final(self) == (SshTransport { read_buffer: final(self).read_buffer, ..*old(self) })
                } else {
                    r == Err::<Option<String>, SshError>(SshError::InvalidVersion) && *final(self) == *old(self)
                },
            },
    {
        let n = self.read_buffer.len();
        let mut pos: usize = start;
        while pos < n && self.read_buffer[pos] != 10 && self.read_buffer[pos] != 13
            invariant
                start <= pos <= n,
                n == self.read_buffer@.len(),
                first_eol_from(self.read_buffer@, start as int) == first_eol_from(self.read_buffer@, pos as int),
            decreases n - pos,
        {
            pos = pos + 1;
        }
        if pos >= n {
            return Ok(None);
        }
        let line: &[u8] = &self.read_buffer.as_slice()[start..pos];
        let v20: [u8; 8] = [83, 83, 72, 45, 50, 46, 48, 45];
        let v199: [u8; 9] = [83, 83, 72, 45, 49, 46, 57, 57, 45];
        let ok = starts_with(line, v20.as_slice()) || starts_with(line, v199.as_slice());
        proof {
            assert(v20@ =~= seq![83u8, 83, 72, 45, 50, 46, 48, 45]);
            assert(v199@ =~= seq![83u8, 83, 72, 45, 49, 46, 57, 57, 45]);
        }
        if !ok {
            return Err(SshError::InvalidVersion);
        }
        let version = string_from_utf8_lossy(line);
        let rest = to_vec(&self.read_buffer.as_slice()[pos + 1..n]);
        self.read_buffer = rest;
        Ok(Some(version))
    }

    /// Whether the input holds one of the HTTP request markers.
    fn is_http_garbage(data: &[u8]) -> (r: bool)
        ensures
            r == is_http(data@),
    {
        let mut k: usize = 0;
        while k < 10
            invariant
                k <= 10,
                forall|j: int| 0 <= j < k ==> !occurs_in(encode_utf8(#[trigger] HTTP_PATTERNS@[j]@), data@),
            decreases 10 - k,
        {
            let pattern = HTTP_PATTERNS[k].as_bytes();
            if contains_slice(data, pattern) {
                return true;
            }
            k = k + 1;
        }
        false
    }

    fn process_kex(&mut self, data: &[u8]) -> (r: Result<Option<Vec<u8>>, SshError>)
        requires
            old(self).state_view() == TransportState::KeyExchange,
        ensures
            kex_phase_outcome(*old(self), *final(self), data@, r),
            final(self).host_blob() == old(self).host_blob(),
            final(self).host_der() == old(self).host_der(),
    {
        if data.len() == 0 {
            return Ok(None);
        }
        let msg_type = data[0];
        let mut slot: Option<KexHandler> = None;
        std::mem::swap(&mut slot, &mut self.kex_handler);
        let mut kex = match slot {
            Some(k) => k,
            None => {
                return Err(SshError::KexNotInitialized);
            },
        };
        let rest: &[u8] = &data[1..data.len()];
        proof {
            assert(rest@ =~= data@.drop_first());
        }
        let ghost pre = *old(self);
        let resp_result = kex.process_kex_message(msg_type, rest);
        let ghost resp = resp_result;
        let response = match resp_result {
            Ok(x) => x,
            Err(e) => {
                self.kex_handler = Some(kex);
                assert(kex_step(pre, *self, data@, resp, Err(e)));
                return Err(e);
            },
        };
        if kex.is_complete() && !self.encryption_enabled {
            if kex.algorithms().is_none() {
                self.kex_handler = Some(kex);
                assert(kex_step(pre, *self, data@, resp, Err(SshError::NoAlgorithms)));
                return Err(SshError::NoAlgorithms);
            }
            let keys = match kex.derive_keys() {
                Ok(k) => k,
                Err(e) => {
                    self.kex_handler = Some(kex);
                    assert(kex_step(pre, *self, data@, resp, Err(e)));
                    return Err(e);
                },
            };
            let res = match kex.algorithms() {
                Some(algs) => self.codec.enable_encryption(
                    algs.encryption_c2s.as_str(),
                    algs.encryption_s2c.as_str(),
                    algs.mac_c2s.as_str(),
                    algs.mac_s2c.as_str(),
                    keys.key_client_to_server.as_slice(),
                    keys.iv_client_to_server.as_slice(),
                    keys.mac_client_to_server.as_slice(),
                    keys.key_server_to_client.as_slice(),
                    keys.iv_server_to_client.as_slice(),
                    keys.mac_server_to_client.as_slice(),
                ),
                None => Err(SshError::NoAlgorithms),
            };
            match res {
                Ok(()) => {},
                Err(e) => {
                    self.kex_handler = Some(kex);
                    assert(kex_step(pre, *self, data@, resp, Err(e)));
                    return Err(e);
                },
            }
            self.encryption_enabled = true;
            self.auth_handler = Some(TransportAuthHandler::new());
            self.state = TransportState::Authentication;
        }
        self.kex_handler = Some(kex);
        assert(kex_step(pre, *self, data@, resp, Ok(response)));
        Ok(response)
    }

    fn process_auth(&mut self, cache: &mut AuthCache, data: &[u8]) -> (r: Result<Option<Vec<u8>>, SshError>)
        requires
            old(self).state_view() == TransportState::Authentication,
        ensures
            auth_phase_outcome(*old(self), *final(self), *old(cache), *final(cache), data@, r),
            final(self).host_blob() == old(self).host_blob(),
            final(self).host_der() == old(self).host_der(),
    {
        if data.len() == 0 {
            return Ok(None);
        }
        let (msg_type, payload) = match self.decode_message(data) {
            Ok(x) => x,
            Err(e) => {
                return Err(e);
            },
        };
        let ghost pre = *old(self);
        let ghost cache_pre = *old(cache);
        let mut slot: Option<TransportAuthHandler> = None;
        std::mem::swap(&mut slot, &mut self.auth_handler);
        let mut auth = match slot {
            Some(a) => a,
            None => {
                self.auth_handler = None;
                return Err(SshError::AuthNotInitialized);
            },
        };
        let res = auth.process_auth_message(cache, msg_type, payload.as_slice());
        let ghost g = res;
        let (response_payload, success) = match res {
            Ok(x) => x,
            Err(e) => {
                self.auth_handler = Some(auth);
                assert(auth_step(pre, *self, cache_pre, *cache, msg_type, payload@, g, Err(e)));
                return Err(e);
            },
        };
        self.auth_handler = Some(auth);
        if success {
            self.state = TransportState::Ready;
        }
        let ghost mid = *self;
        let out = match response_payload {
            Some(resp) => {
                let t: u8 = if success {
                    52
                } else {
                    51
                };
                if resp.len() > usize::MAX - 32 {
                    Err(SshError::MessageTooLarge)
                } else {
                    match self.encode_message(t, resp.as_slice()) {
                        Ok(encoded) => Ok(Some(encoded)),
                        Err(e) => Err(e),
                    }
                }
            },
            None => Ok(None),
        };
        assert(auth_step(pre, *self, cache_pre, *cache, msg_type, payload@, g, out));
        out
    }

    /// Encodes an outgoing message: a framed (and, once keys are in use, encrypted)
    /// packet, or the type byte and payload before that.
    pub fn encode_message(&mut self, msg_type: u8, payload: &[u8]) -> (r: Result<Vec<u8>, SshError>)
        requires
            payload@.len() + 32 <= usize::MAX,
        ensures
            !old(self).encrypted() ==> (r matches Ok(v) && v@ == seq![msg_type] + payload@) && *final(self)
                == *old(self),
            old(self).encrypted() ==> final(self).codec_view().dec() == old(self).codec_view().dec(),
            old(self).encrypted() && old(self).codec_view().enc() is None ==> (r matches Ok(f) && f@ == frame(
                msg_type,
                payload@,
                old(self).codec_view().block(),
            )),
            final(self).state_view() == old(self).state_view(),
            final(self).auth() == old(self).auth(),
            final(self).kex() == old(self).kex(),
            final(self).encrypted() == old(self).encrypted(),
            final(self).host_blob() == old(self).host_blob(),
            final(self).host_der() == old(self).host_der(),
            final(self).buffer() == old(self).buffer(),
            r matches Ok(f) ==> encodes(*old(self), msg_type, payload@, f@),
            r matches Err(e) ==> encode_refusal(*old(self), msg_type, payload@, e),
            enc_after(*old(self), *final(self)),
    {
        if self.encryption_enabled {
            self.codec.encode_packet(msg_type, payload)
        } else {
            let mut buf: Vec<u8> = Vec::new();
            buf.push(msg_type);
            put_slice(&mut buf, payload);
            assert(buf@ =~= seq![msg_type] + payload@);
            Ok(buf)
        }
    }

    /// Decodes an incoming message into its type and payload: through the codec once
    /// keys are in use, else the first byte and the rest.
    pub fn decode_message(&mut self, data: &[u8]) -> (r: Result<(u8, Vec<u8>), SshError>)
        ensures
            !old(self).encrypted() ==> *final(self) == *old(self) && if data@.len() == 0 {
                r == Err::<(u8, Vec<u8>), SshError>(SshError::EmptyMessage)
            } else {
                r matches Ok((t, v)) && t == data@[0] && v@ == data@.drop_first()
            },
            old(self).encrypted() ==> match spec_decode(old(self).codec_view().dec(), data@) {
                Ok((t, p)) => r matches Ok((t2, v)) && t2 == t && v@ == p,
                Err(e) => r == Err::<(u8, Vec<u8>), SshError>(e),
            },
            match spec_decode_message(*old(self), data@) {
                Ok((t, p)) => r matches Ok((t2, v)) && t2 == t && v@ == p,
                Err(e) => r == Err::<(u8, Vec<u8>), SshError>(e),
            },
            final(self).state_view() == old(self).state_view(),
            final(self).auth() == old(self).auth(),
            final(self).kex() == old(self).kex(),
            final(self).encrypted() == old(self).encrypted(),
            final(self).host_blob() == old(self).host_blob(),
            final(self).host_der() == old(self).host_der(),
            final(self).codec_view().enc() == old(self).codec_view().enc(),
            final(self).codec_view().block() == old(self).codec_view().block(),
            final(self).buffer() == old(self).buffer(),
            old(self).encrypted() ==> dec_after(old(self).codec_view().dec(), final(self).codec_view().dec(), data@),
    {
        if self.encryption_enabled {
            self.codec.decode_packet(data)
        } else {
            if data.len() == 0 {
                return Err(SshError::EmptyMessage);
            }
            let msg_type = data[0];
            let payload = to_vec(&data[1..data.len()]);
            assert(payload@ =~= data@.drop_first());
            Ok((msg_type, payload))
        }
    }

    /// Appends client bytes to the input buffer.
    pub fn append_to_buffer(&mut self, data: &[u8])
        ensures
            final(self).buffer() == old(self).buffer() + data@,
            final(self).state_view() == old(self).state_view(),
            final(self).auth() == old(self).auth(),
            final(self).kex() == old(self).kex(),
            final(self).encrypted() == old(self).encrypted(),
            final(self).host_blob() == old(self).host_blob(),
            final(self).host_der() == old(self).host_der(),
            final(self).codec_view() == old(self).codec_view(),
            final(self).garbage() == old(self).garbage(),
            final(self).client_version_view() == old(self).client_version_view(),
    {
        put_slice(&mut self.read_buffer, data);
    }

    /// Takes the next complete packet (the length field and that many bytes) off the
    /// input buffer and decodes it; nothing while the packet is incomplete.
    pub fn decode_next_packet(&mut self) -> (r: Result<Option<(u8, Vec<u8>)>, SshError>)
        ensures
            final(self).state_view() == old(self).state_view(),
            final(self).auth() == old(self).auth(),
            final(self).kex() == old(self).kex(),
            final(self).encrypted() == old(self).encrypted(),
            final(self).host_blob() == old(self).host_blob(),
            final(self).host_der() == old(self).host_der(),
            final(self).codec_view().enc() == old(self).codec_view().enc(),
            final(self).codec_view().block() == old(self).codec_view().block(),
            next_packet_outcome(old(self).buffer(), final(self).buffer(), old(self).encrypted(), old(self).codec_view().dec(), r),
            packet_dec_after(old(self).buffer(), old(self).encrypted(), old(self).codec_view().dec(), final(self).codec_view().dec()),
    {
        let n = self.read_buffer.len();
        if n < 4 {
            return Ok(None);
        }
        let len = crate::wire::get_u32_at(self.read_buffer.as_slice(), 0) as usize;
        if n - 4 < len {
            return Ok(None);
        }
        let ghost pre = self.read_buffer@;
        let frame_bytes = to_vec(&self.read_buffer.as_slice()[0..4 + len]);
        let rest = to_vec(&self.read_buffer.as_slice()[4 + len..n]);
        proof {
            assert(len == crate::wire::be_u32_at(pre, 0));
            assert(frame_bytes@ =~= pre.subrange(0, 4 + len));
            assert(rest@ =~= pre.subrange(4 + len, pre.len() as int));
        }
        self.read_buffer = rest;
        match self.decode_message(frame_bytes.as_slice()) {
            Ok((t, p)) => Ok(Some((t, p))),
            Err(e) => Err(e),
        }
    }

    /// Our identification line.
    pub fn generate_server_ident() -> (r: Vec<u8>)
        ensures
            r@ == server_ident(),
    {
        let mut ident: Vec<u8> = Vec::new();
        put_slice(&mut ident, SSH_VERSION.as_bytes());
        ident.push(13u8);
        ident.push(10u8);
        assert(ident@ =~= server_ident());
        ident
    }

    /// Records the logout of the authenticated user; to be called when the
    /// connection ends.
    pub fn cleanup(&self, cache: &mut AuthCache)
        ensures
            final(cache).users() == old(cache).users(),
            self.auth() is None ==> *final(cache) == *old(cache),
            forall|k: Seq<char>| #[trigger] final(cache).tracker().logins(k) == if (self.auth() matches Some(
                a,
            ) && a.user_view() == Some(k)) {
                crate::sessions::after_logout(old(cache).tracker().logins(k))
            } else {
                old(cache).tracker().logins(k)
            },
    {
        match &self.auth_handler {
            Some(a) => a.record_logout(cache),
            None => {},
        }
    }
}

/// `p` is a prefix of `s`.
fn starts_with(s: &[u8], p: &[u8]) -> (r: bool)
    ensures
        r == has_prefix(s@, p@),
{
    if p.len() > s.len() {
        return false;
    }
    let mut i: usize = 0;
    while i < p.len()
        invariant
            p@.len() <= s@.len(),
            i <= p@.len(),
            forall|j: int| 0 <= j < i ==> s@[j] == p@[j],
        decreases p@.len() - i,
    {
        if s[i] != p[i] {
            assert(s@.subrange(0, p@.len() as int)[i as int] != p@[i as int]);
            return false;
        }
        i = i + 1;
    }
    assert(s@.subrange(0, p@.len() as int) =~= p@);
    true
}

/// `p` occurs somewhere in `s`.
fn contains_slice(s: &[u8], p: &[u8]) -> (r: bool)
    ensures
        r == occurs_in(p@, s@),
{
    if p.len() > s.len() {
        return false;
    }
    let last = s.len() - p.len();
    let mut i: usize = 0;
    loop
        invariant
            p@.len() <= s@.len(),
            last == s@.len() - p@.len(),
            i <= last,
            forall|j: int| 0 <= j < i ==> #[trigger] s@.subrange(j, j + p@.len()) != p@,
        decreases last - i,
    {
        proof {
            assert(s@.subrange(i as int, s@.len() as int).subrange(0, p@.len() as int) =~= s@.subrange(
                i as int,
                i + p@.len(),
            ));
        }
        if starts_with(&s[i..s.len()], p) {
            return true;
        }
        if i == last {
            return false;
        }
        i = i + 1;
    }
}

/// What taking the next packet off the input buffer gives: nothing until the length
/// field and that many bytes are there; then the buffer drops them and they are
/// decoded as a message.
pub open spec fn next_packet_outcome(
    pre: Seq<u8>,
    post: Seq<u8>,
    encrypted: bool,
    dec: Option<CipherState>,
    r: Result<Option<(u8, Vec<u8>)>, SshError>,
) -> bool {
    if pre.len() < 4 || pre.len() - 4 < crate::wire::be_u32_at(pre, 0) {
        r == Ok::<Option<(u8, Vec<u8>)>, SshError>(None) && post == pre
    } else {
        let end = 4 + crate::wire::be_u32_at(pre, 0);
        let fr = pre.subrange(0, end);
        &&& post == pre.subrange(end, pre.len() as int)
        &&& encrypted ==> match spec_decode(dec, fr) {
            Ok((t, p)) => r matches Ok(Some((t2, v))) && t2 == t && v@ == p,
            Err(e) => r == Err::<Option<(u8, Vec<u8>)>, SshError>(e),
        }
        &&& !encrypted ==> (r matches Ok(Some((t2, v))) && t2 == fr[0] && v@ == fr.drop_first())
    }
}

/// What the version exchange does with the buffered input `b`.
pub open spec fn version_outcome(
    pre: SshTransport,
    post: SshTransport,
    b: Seq<u8>,
    r: Result<Option<Vec<u8>>, SshError>,
) -> bool {
    match scan_ident(b, 0) {
        IdentScan::Ident { version, consumed } => {
            &&& r matches Ok(Some(p)) && p@ == server_ident()
            &&& post.state_view() == TransportState::KeyExchange
            &&& post.client_version_view() == Some(version)
            &&& post.buffer() == b.subrange(consumed as int, b.len() as int)
            &&& post.kex() matches Some(k) && k.kex_view() == fresh_kex_view() && !k.complete()
                && k.client_version_view() == version && k.server_version_view() == SSH_VERSION@
                && k.host_blob() == pre.host_blob() && k.host_der() == pre.host_der()
            &&& post.garbage() == pre.garbage()
            &&& post.auth() == pre.auth() && post.encrypted() == pre.encrypted()
        },
        IdentScan::Invalid => r == Err::<Option<Vec<u8>>, SshError>(SshError::InvalidVersion)
            && post.buffer() == b && post.state_view() == pre.state_view() && post.garbage()
            == pre.garbage(),
        IdentScan::NoIdent => post.state_view() == pre.state_view() && if is_http(b) {
            &&& post.buffer().len() == 0
            &&& post.garbage() == pre.garbage() + b.len()
            &&& r == if post.garbage() > MAX_HANDSHAKE_GARBAGE {
                Err::<Option<Vec<u8>>, SshError>(SshError::GarbageExceeded)
            } else {
                Ok::<Option<Vec<u8>>, SshError>(None)
            }
        } else {
            &&& post.buffer() == b
            &&& post.garbage() == pre.garbage()
            &&& r == if b.len() > MAX_HANDSHAKE_GARBAGE {
                Err::<Option<Vec<u8>>, SshError>(SshError::HandshakeBufferExceeded)
            } else {
                Ok::<Option<Vec<u8>>, SshError>(None)
            }
        },
    }
}

/// One key exchange message as the transport handles it, given what the key
/// exchange answered (`resp`).
pub open spec fn kex_step(
    pre: SshTransport,
    post: SshTransport,
    data: Seq<u8>,
    resp: Result<Option<Vec<u8>>, SshError>,
    r: Result<Option<Vec<u8>>, SshError>,
) -> bool {
    &&& pre.kex() matches Some(k) && post.kex() matches Some(k2) && kex_message_outcome(
        k,
        k2,
        data[0],
        data.drop_first(),
        resp,
    )
    &&& resp matches Err(e) ==> r == Err::<Option<Vec<u8>>, SshError>(e)
    &&& r is Ok ==> r == resp
    &&& r is Ok && post.kex()->0.complete() && !pre.encrypted() ==> post.encrypted()
        && post.state_view() == TransportState::Authentication && (post.auth() matches Some(a)
        && a.state_view() == AuthState::WaitingServiceRequest && a.user_view() is None && a.failures()
        == 0 && a.max_failures() == MAX_AUTH_ATTEMPTS)
    &&& r is Ok && post.kex()->0.complete() && !pre.encrypted() ==> keyed_from(
        pre.codec_view().block(),
        post.codec_view(),
        post.kex()->0.kex_view(),
    )
    &&& r is Ok && !(post.kex()->0.complete() && !pre.encrypted()) ==> post.state_view()
        == pre.state_view() && post.encrypted() == pre.encrypted() && post.codec_view() == pre.codec_view()
}

/// What a key exchange phase message does: nothing for empty input; otherwise the
/// key exchange handles it, and when it completes the codec is keyed with the
/// derived keys and authentication begins.
pub open spec fn kex_phase_outcome(
    pre: SshTransport,
    post: SshTransport,
    data: Seq<u8>,
    r: Result<Option<Vec<u8>>, SshError>,
) -> bool {
    if data.len() == 0 {
        r == Ok::<Option<Vec<u8>>, SshError>(None) && post == pre
    } else if pre.kex() is None {
        r == Err::<Option<Vec<u8>>, SshError>(SshError::KexNotInitialized)
    } else {
        exists|resp: Result<Option<Vec<u8>>, SshError>| #[trigger] kex_step(pre, post, data, resp, r)
    }
}

/// Why the transport `pre` may refuse to encode message `t` with body `p`: only once
/// keys are in use, where the sending cipher refuses to seal the frame.
pub open spec fn encode_refusal(pre: SshTransport, t: u8, p: Seq<u8>, e: SshError) -> bool {
    let fr = frame(t, p, pre.codec_view().block());
    &&& pre.encrypted()
    &&& pre.codec_view().enc() matches Some(st) && seal_refusal(st, fr.subrange(4, fr.len() as int), e)
}

/// `f` encodes message `t` with body `p` as the transport `pre` sends it: before keys
/// are in use the type byte and the body; then a frame whose part after the length
/// field is encrypted by the sending cipher, if there is one.
pub open spec fn encodes(pre: SshTransport, t: u8, p: Seq<u8>, f: Seq<u8>) -> bool {
    if !pre.encrypted() {
        f == seq![t] + p
    } else {
        let fr = frame(t, p, pre.codec_view().block());
        match pre.codec_view().enc() {
            None => f == fr,
            Some(st) => f.subrange(0, 4) == fr.subrange(0, 4) && st.spec_encrypt(
                fr.subrange(4, fr.len() as int),
            ) == Ok::<Seq<u8>, SshError>(f.subrange(4, f.len() as int)),
        }
    }
}

/// How the transport `t` reads one incoming message: the first byte and the rest
/// before keys are in use, the codec's decoding after.
pub open spec fn spec_decode_message(t: SshTransport, data: Seq<u8>) -> Result<(u8, Seq<u8>), SshError> {
    if t.encrypted() {
        spec_decode(t.codec_view().dec(), data)
    } else if data.len() == 0 {
        Err(SshError::EmptyMessage)
    } else {
        Ok((data[0], data.drop_first()))
    }
}

/// One authentication message as the transport handles it, given what the
/// authentication handler answered (`resp`): the handler's step; a success makes the
/// transport ready; a reply body is encoded as message 52 on success, 51 otherwise.
pub open spec fn auth_step(
    pre: SshTransport,
    post: SshTransport,
    cache_pre: AuthCache,
    cache_post: AuthCache,
    t: u8,
    p: Seq<u8>,
    resp: Result<(Option<Vec<u8>>, bool), SshError>,
    r: Result<Option<Vec<u8>>, SshError>,
) -> bool {
    &&& pre.auth() matches Some(a) && post.auth() matches Some(a2) && auth_message_outcome(
        a,
        a2,
        cache_pre,
        cache_post,
        t,
        p,
        resp,
    )
    &&& post.kex() == pre.kex() && post.encrypted() == pre.encrypted()
    &&& enc_moved(pre, post, resp matches Ok((Some(v), _)) && v@.len() + 32 <= usize::MAX)
    &&& match resp {
        Err(e) => r == Err::<Option<Vec<u8>>, SshError>(e) && post.state_view() == pre.state_view(),
        Ok((reply, ok)) => {
            &&& post.state_view() == if ok {
                TransportState::Ready
            } else {
                pre.state_view()
            }
            &&& match reply {
                None => r == Ok::<Option<Vec<u8>>, SshError>(None),
                Some(v) => if v@.len() + 32 > usize::MAX {
                    r == Err::<Option<Vec<u8>>, SshError>(SshError::MessageTooLarge)
                } else {
                    (!pre.encrypted() ==> r is Ok) && (r matches Ok(x) ==> (x matches Some(f) && encodes(
                        pre,
                        if ok {
                            52u8
                        } else {
                            51u8
                        },
                        v@,
                        f@,
                    )))
                },
            }
        },
    }
}

/// What an authentication phase message does: nothing for empty input; otherwise it
/// is decoded, and the authentication handler handles it as `auth_step` says.
pub open spec fn auth_phase_outcome(
    pre: SshTransport,
    post: SshTransport,
    cache_pre: AuthCache,
    cache_post: AuthCache,
    data: Seq<u8>,
    r: Result<Option<Vec<u8>>, SshError>,
) -> bool {
    if data.len() == 0 {
        r == Ok::<Option<Vec<u8>>, SshError>(None) && post == pre && cache_post == cache_pre
    } else {
        &&& read_msg_codec(pre, post, data)
        &&& match spec_decode_message(pre, data) {
            Err(e) => r == Err::<Option<Vec<u8>>, SshError>(e) && cache_post == cache_pre && post.auth() == pre.auth()
                && post.state_view() == pre.state_view() && enc_moved(pre, post, false),
            Ok((t, p)) => if pre.auth() is None {
                r == Err::<Option<Vec<u8>>, SshError>(SshError::AuthNotInitialized) && cache_post
                    == cache_pre && post.state_view() == pre.state_view() && enc_moved(pre, post, false)
            } else {
                exists|resp: Result<(Option<Vec<u8>>, bool), SshError>| #[trigger]
                    auth_step(pre, post, cache_pre, cache_post, t, p, resp, r)
            },
        }
    }
}

/// The receiving cipher after taking the next packet off the input `pre`: moved on
/// as `dec_after` says when a complete packet was there and packets are encrypted;
/// unchanged otherwise.
pub open spec fn packet_dec_after(
    pre: Seq<u8>,
    encrypted: bool,
    dec: Option<CipherState>,
    dec2: Option<CipherState>,
) -> bool {
    if pre.len() < 4 || pre.len() - 4 < crate::wire::be_u32_at(pre, 0) || !encrypted {
        dec2 == dec
    } else {
        dec_after(dec, dec2, pre.subrange(0, 4 + crate::wire::be_u32_at(pre, 0)))
    }
}

/// The sending side after encoding one message: before keys are in use the codec is
/// unchanged; after, the sending cipher (if any) moves to the next packet and the
/// rest of the codec stays.
pub open spec fn enc_after(pre: SshTransport, post: SshTransport) -> bool {
    if pre.encrypted() {
        &&& post.codec_view().dec() == pre.codec_view().dec()
        &&& post.codec_view().block() == pre.codec_view().block()
        &&& match pre.codec_view().enc() {
            None => post.codec_view().enc() is None,
            Some(st) => post.codec_view().enc() matches Some(st2) && next_state(st, st2),
        }
    } else {
        post.codec_view() == pre.codec_view()
    }
}

/// The codec after reading a message from `data`: the block size kept, and the
/// receiving cipher moved on as `dec_after` says once packets are encrypted.
pub open spec fn read_msg_codec(pre: SshTransport, post: SshTransport, data: Seq<u8>) -> bool {
    &&& post.codec_view().block() == pre.codec_view().block()
    &&& if pre.encrypted() {
        dec_after(pre.codec_view().dec(), post.codec_view().dec(), data)
    } else {
        post.codec_view().dec() == pre.codec_view().dec()
    }
}

/// The sending cipher after a message was encoded (`sent`) or not.
pub open spec fn enc_moved(pre: SshTransport, post: SshTransport, sent: bool) -> bool {
    if sent && pre.encrypted() {
        match pre.codec_view().enc() {
            None => post.codec_view().enc() is None,
            Some(st) => post.codec_view().enc() matches Some(st2) && next_state(st, st2),
        }
    } else {
        post.codec_view().enc() == pre.codec_view().enc()
    }
}

/// The codec once keys are in use: both directions set up from the negotiated names
/// and the keys derived from the shared secret and the exchange hash (client to
/// server: IV `A`, key `C`, MAC key `E`; server to client: `B`, `D`, `F`).
pub open spec fn keyed_from(block: nat, codec: SshPacketCodec, kv: KexView) -> bool {
    let k = kv.shared_secret->0;
    let h = kv.exchange_hash->0;
    let s = uses_sha256(kv.method);
    let a = kv.algorithms->0;
    &&& codec.block() == block
    &&& codec.dec() matches Some(d) && set_up_from(
        d,
        a.encryption_c2s,
        a.mac_c2s,
        spec_derive_key(k, h, seq![67u8], h, 32, s),
        spec_derive_key(k, h, seq![65u8], h, 16, s),
        spec_derive_key(k, h, seq![69u8], h, 32, s),
    )
    &&& codec.enc() matches Some(e) && set_up_from(
        e,
        a.encryption_s2c,
        a.mac_s2c,
        spec_derive_key(k, h, seq![68u8], h, 32, s),
        spec_derive_key(k, h, seq![66u8], h, 16, s),
        spec_derive_key(k, h, seq![70u8], h, 32, s),
    )
}

} // verus!
