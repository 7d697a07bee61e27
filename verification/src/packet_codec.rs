//! The binary packet layer: framing with length and padding, and encryption of frames
//! once keys are in place.
use vstd::prelude::*;
use crate::cipher_state::{CipherState, setup_error, set_up_from, next_state};
use crate::cipher_type::CipherType;
use crate::mac_type::MacType;
use crate::error::SshError;
use crate::wire::{u32_be, be_u32_at, put_u32, put_slice, to_vec, get_u32_at, lemma_be_u32_roundtrip};

verus! {

/// `n` zero bytes.
pub open spec fn zeros(n: nat) -> Seq<u8> {
    Seq::new(n, |i: int| 0u8)
}

/// Padding length for a payload of `len` bytes (message type excluded) in blocks of
/// `bs`: what brings the frame to a multiple of the block, at least four bytes.
pub open spec fn padding_for(len: nat, bs: nat) -> nat {
    let p: int = bs - ((6 + len) as int % (bs as int));
    if p < 4 {
        (p + bs) as nat
    } else {
        p as nat
    }
}

/// The unencrypted frame of a message: packet length, padding length, message type,
/// Why the sending cipher `st` may refuse to seal a packet body: an AES cipher
/// refuses exactly as `spec_encrypt` says; ChaCha20-Poly1305 only with
/// `EncryptionFailed`, on a body beyond its buffer limit.
pub open spec fn seal_refusal(st: CipherState, body: Seq<u8>, e: SshError) -> bool {
    if st.cipher() == CipherType::ChaCha20Poly1305 {
        e == SshError::EncryptionFailed && body.len() / 64 >= u32::MAX
    } else {
        st.spec_encrypt(body) == Err::<Seq<u8>, SshError>(e)
    }
}

/// payload, zero padding.
pub open spec fn frame(msg_type: u8, payload: Seq<u8>, bs: nat) -> Seq<u8> {
    let pad = padding_for(payload.len(), bs);
    u32_be((1 + 1 + payload.len() + pad) as u32) + seq![pad as u8, msg_type] + payload + zeros(pad)
}

/// A decrypted packet body on which the parse indexes past its end: one byte long, or
/// announcing more padding than it has.
pub open spec fn packet_body_aborts(pt: Seq<u8>) -> bool {
    pt.len() == 1 || (pt.len() >= 2 && pt[0] as int > pt.len())
}

/// What a decrypted packet body parses to: message type and payload.
pub open spec fn spec_packet_body(pt: Seq<u8>) -> Result<(u8, Seq<u8>), SshError> {
    if pt.len() == 0 {
        Err(SshError::EmptyPacket)
    } else if pt.len() - pt[0] < 2 {
        Err(SshError::InvalidPadding)
    } else {
        Ok((pt[1], pt.subrange(2, pt.len() - pt[0])))
    }
}

/// The packet bytes after the length field, as far as the length says.
pub open spec fn spec_frame_check(data: Seq<u8>) -> Result<Seq<u8>, SshError> {
    if data.len() < 5 {
        Err(SshError::PacketTooShort)
    } else if data.len() - 4 < be_u32_at(data, 0) {
        Err(SshError::IncompletePacket)
    } else {
        Ok(data.subrange(4, 4 + be_u32_at(data, 0)))
    }
}

/// What decoding `data` gives with decryption state `dec`, when the decrypted body does
/// not make the parse index past its end (then the result is `MalformedPacket`).
pub open spec fn spec_decode(dec: Option<CipherState>, data: Seq<u8>) -> Result<(u8, Seq<u8>), SshError> {
    match spec_frame_check(data) {
        Err(e) => Err(e),
        Ok(pd) => {
            let pt = match dec {
                Some(st) => st.spec_decrypt(pd),
                None => Ok(pd),
            };
            match pt {
                Err(e) => Err(e),
                Ok(p) => if packet_body_aborts(p) {
                    Err(SshError::MalformedPacket)
                } else {
                    spec_packet_body(p)
                },
            }
        },
    }
}

/// A frame's length field counts the bytes after it, and those bytes parse back to the
/// message type and payload.
pub proof fn lemma_frame_body(msg_type: u8, payload: Seq<u8>)
    requires
        payload.len() + 16 <= u32::MAX,
    ensures
        be_u32_at(frame(msg_type, payload, 8), 0) == frame(msg_type, payload, 8).len() - 4,
        frame(msg_type, payload, 8).len() >= 5,
        !packet_body_aborts(frame(msg_type, payload, 8).subrange(4, frame(msg_type, payload, 8).len() as int)),
        spec_packet_body(frame(msg_type, payload, 8).subrange(4, frame(msg_type, payload, 8).len() as int))
            == Ok::<(u8, Seq<u8>), SshError>((msg_type, payload)),
{
    let pad = padding_for(payload.len(), 8);
    let len = (1 + 1 + payload.len() + pad) as u32;
    let f = frame(msg_type, payload, 8);
    assert(4 <= pad <= 11);
    lemma_be_u32_roundtrip(len);
    assert(f.subrange(0, 4) =~= u32_be(len));
    assert(be_u32_at(f, 0) == be_u32_at(u32_be(len), 0));
    let pd = f.subrange(4, f.len() as int);
    assert(pd =~= seq![pad as u8, msg_type] + payload + zeros(pad));
    assert(pd[0] == pad as u8);
    assert(pd.subrange(2, pd.len() - pd[0]) =~= payload);
}

/// A frame fills whole blocks of 8 bytes, length field included, with four to eleven
/// bytes of padding (RFC 4253, section 6); the padding length byte says how many,
/// and the message type and the payload follow it.
pub proof fn lemma_frame_block_aligned(msg_type: u8, payload: Seq<u8>)
    requires
        payload.len() + 16 <= u32::MAX,
    ensures
        frame(msg_type, payload, 8).len() % 8 == 0,
        4 <= frame(msg_type, payload, 8)[4] <= 11,
        frame(msg_type, payload, 8).len() == 6 + payload.len() + frame(msg_type, payload, 8)[4],
        frame(msg_type, payload, 8)[5] == msg_type,
        frame(msg_type, payload, 8).subrange(6, 6 + payload.len() as int) == payload,
{
    let f = frame(msg_type, payload, 8);
    let n: int = 6 + payload.len() as int;
    let pad = padding_for(payload.len(), 8);
    vstd::arithmetic::div_mod::lemma_fundamental_div_mod(n, 8);
    let q: int = n / 8;
    let m: int = n % 8;
    assert(pad == 8 - m || pad == 16 - m);
    assert(4 <= pad <= 11);
    assert(f.len() == n + pad);
    assert(f.len() == 8 * (q + 1) || f.len() == 8 * (q + 2));
    if f.len() == 8 * (q + 1) {
        vstd::arithmetic::div_mod::lemma_mod_multiples_basic(q + 1, 8);
    } else {
        vstd::arithmetic::div_mod::lemma_mod_multiples_basic(q + 2, 8);
    }
    assert(f[4] == pad as u8);
    assert(f.subrange(6, 6 + payload.len() as int) =~= payload);
}

/// A frame parses back, unencrypted, to its message type and payload.
pub proof fn lemma_frame_roundtrip(msg_type: u8, payload: Seq<u8>)
    requires
        payload.len() + 16 <= u32::MAX,
    ensures
        spec_decode(None, frame(msg_type, payload, 8)) == Ok::<(u8, Seq<u8>), SshError>(
            (msg_type, payload),
        ),
{
    lemma_frame_body(msg_type, payload);
    let f = frame(msg_type, payload, 8);
    assert(f.subrange(4, 4 + be_u32_at(f, 0) as int) =~= f.subrange(4, f.len() as int));
}

/// An AES-CTR frame without MAC, encrypted after its length field, decodes back to the
/// message type and payload under a decrypting state that recovers the encrypted part.
pub proof fn lemma_encrypted_frame_roundtrip(st: CipherState, msg_type: u8, payload: Seq<u8>, f: Seq<u8>)
    requires
        payload.len() + 16 <= u32::MAX,
        f.subrange(0, 4) == frame(msg_type, payload, 8).subrange(0, 4),
        f.len() - 4 == frame(msg_type, payload, 8).len() - 4,
        f.len() >= 4,
        st.spec_decrypt(f.subrange(4, f.len() as int)) == Ok::<Seq<u8>, SshError>(
            frame(msg_type, payload, 8).subrange(4, frame(msg_type, payload, 8).len() as int),
        ),
    ensures
        spec_decode(Some(st), f) == Ok::<(u8, Seq<u8>), SshError>((msg_type, payload)),
{
    lemma_frame_body(msg_type, payload);
    let fr = frame(msg_type, payload, 8);
    assert(f[0] == fr.subrange(0, 4)[0]);
    assert(f[1] == fr.subrange(0, 4)[1]);
    assert(f[2] == fr.subrange(0, 4)[2]);
    assert(f[3] == fr.subrange(0, 4)[3]);
    crate::wire::lemma_be_u32_at_shift(f, fr, 0, 0);
    assert(f.subrange(4, 4 + be_u32_at(f, 0) as int) =~= f.subrange(4, f.len() as int));
}

/// Parses a decrypted packet body: padding length, message type, payload, padding.
pub fn parse_packet_body(pt: &[u8]) -> (r: Result<(u8, Vec<u8>), SshError>)
    requires
        !packet_body_aborts(pt@),
    ensures
        match spec_packet_body(pt@) {
            Ok((t, p)) => r matches Ok((t2, v)) && t2 == t && v@ == p,
            Err(e) => r == Err::<(u8, Vec<u8>), SshError>(e),
        },
{
    if pt.len() == 0 {
        return Err(SshError::EmptyPacket);
    }
    let padding_len = pt[0] as usize;
    let msg_type = pt[1];
    let payload_end = pt.len() - padding_len;
    if payload_end < 2 {
        return Err(SshError::InvalidPadding);
    }
    Ok((msg_type, to_vec(&pt[2..payload_end])))
}

/// Frames a message for blocks of 8 bytes.
fn build_frame(bs: usize, msg_type: u8, payload: &[u8]) -> (packet: Vec<u8>)
    requires
        bs == 8,
        payload@.len() + 32 <= usize::MAX,
    ensures
        packet@ == frame(msg_type, payload@, 8),
{
    let payload_len = 1 + payload.len();
        let rem = (5 + payload_len) % bs;
        let padding_len = bs - rem;
        let padding_len = if padding_len < 4 {
            padding_len + bs
        } else {
            padding_len
        };
        let packet_length = (1 + payload_len + padding_len) as u32;
        let mut packet: Vec<u8> = Vec::new();
        put_u32(&mut packet, packet_length);
        packet.push(padding_len as u8);
        packet.push(msg_type);
        put_slice(&mut packet, payload);
        let mut i: usize = 0;
        while i < padding_len
            invariant
                i <= padding_len,
                packet@ == u32_be(packet_length) + seq![padding_len as u8, msg_type] + payload@
                    + zeros(i as nat),
            decreases padding_len - i,
        {
            packet.push(0u8);
            i = i + 1;
            proof {
                assert(zeros(i as nat) =~= zeros((i - 1) as nat).push(0u8));
            }
        }
        proof {
            assert(padding_len == padding_for(payload@.len(), 8));
            assert(packet@ =~= frame(msg_type, payload@, 8));
        }
        packet
}

/// The packet layer of one connection.
pub struct SshPacketCodec {
    encrypt: Option<CipherState>,
    decrypt: Option<CipherState>,
    block_size: usize,
}

impl SshPacketCodec {
    #[verifier::type_invariant]
    spec fn block_fixed(self) -> bool {
        self.block_size == 8
    }

    /// Protection of outgoing packets, once enabled.
    pub closed spec fn enc(&self) -> Option<CipherState> {
        self.encrypt
    }

    /// Protection of incoming packets, once enabled.
    pub closed spec fn dec(&self) -> Option<CipherState> {
        self.decrypt
    }

    /// The block size that frames are padded to.
    pub closed spec fn block(&self) -> nat {
        self.block_size as nat
    }

    /// No encryption yet; frames padded to 8 bytes.
    pub fn new() -> (c: SshPacketCodec)
        ensures
            c.enc() is None,
            c.dec() is None,
            c.block() == 8,
    {
        SshPacketCodec { encrypt: None, decrypt: None, block_size: 8 }
    }

    /// Sets up incoming protection from the client-to-server material, then outgoing
    /// protection from the server-to-client material; stops at the first refusal, so a
    /// refused outgoing setup leaves the incoming one in place.
    pub fn enable_encryption(
        &mut self,
        enc_c2s: &str,
        enc_s2c: &str,
        mac_c2s: &str,
        mac_s2c: &str,
        key_c2s: &[u8],
        iv_c2s: &[u8],
        mac_key_c2s: &[u8],
        key_s2c: &[u8],
        iv_s2c: &[u8],
        mac_key_s2c: &[u8],
    ) -> (r: Result<(), SshError>)
        ensures
            final(self).block() == old(self).block(),
            match setup_error(enc_c2s@, mac_c2s@, key_c2s@) {
                Some(e) => r == Err::<(), SshError>(e) && final(self).enc() == old(self).enc()
                    && final(self).dec() == old(self).dec(),
                None => (final(self).dec() matches Some(d) && set_up_from(
                    d,
                    enc_c2s@,
                    mac_c2s@,
                    key_c2s@,
                    iv_c2s@,
                    mac_key_c2s@,
                )) && match setup_error(enc_s2c@, mac_s2c@, key_s2c@) {
                    Some(e) => r == Err::<(), SshError>(e) && final(self).enc() == old(self).enc(),
                    None => r is Ok && (final(self).enc() matches Some(en) && set_up_from(
                        en,
                        enc_s2c@,
                        mac_s2c@,
                        key_s2c@,
                        iv_s2c@,
                        mac_key_s2c@,
                    )),
                },
            },
    {
        proof {
            use_type_invariant(&*self);
        }
        let d = match CipherState::new(enc_c2s, mac_c2s, key_c2s, iv_c2s, mac_key_c2s) {
            Ok(st) => st,
            Err(e) => {
                return Err(e);
            },
        };
        self.decrypt = Some(d);
        let e = match CipherState::new(enc_s2c, mac_s2c, key_s2c, iv_s2c, mac_key_s2c) {
            Ok(st) => st,
            Err(e) => {
                return Err(e);
            },
        };
        self.encrypt = Some(e);
        Ok(())
    }

    /// Frames a message and, once outgoing protection is on, encrypts everything after
    /// the length field (which advances the outgoing sequence number).
    pub fn encode_packet(&mut self, msg_type: u8, payload: &[u8]) -> (r: Result<Vec<u8>, SshError>)
        requires
            payload@.len() + 32 <= usize::MAX,
        ensures
            final(self).dec() == old(self).dec(),
            final(self).block() == old(self).block(),
            old(self).enc() is None ==> final(self).enc() is None && (r matches Ok(f) && f@ == frame(
                msg_type,
                payload@,
                old(self).block(),
            )),
            old(self).enc() matches Some(st) ==> (final(self).enc() matches Some(st2)
                && st2.seq() == st.seq().wrapping_add(1) && st2.cipher() == st.cipher()
                && st2.mac() == st.mac() && next_state(st, st2)),
            old(self).enc() matches Some(st) ==> (r matches Ok(f) ==> {
                let fr = frame(msg_type, payload@, old(self).block());
                &&& f@.subrange(0, 4) == fr.subrange(0, 4)
                &&& st.spec_encrypt(fr.subrange(4, fr.len() as int)) == Ok::<Seq<u8>, SshError>(
                    f@.subrange(4, f@.len() as int),
                )
            }),
            old(self).enc() matches Some(st) ==> (r matches Err(e) ==> seal_refusal(
                st,
                frame(msg_type, payload@, old(self).block()).subrange(
                    4,
                    frame(msg_type, payload@, old(self).block()).len() as int,
                ),
                e,
            )),
            old(self).enc() matches Some(st) ==> (st.cipher() != CipherType::ChaCha20Poly1305 ==> (
            r is Err <==> st.spec_encrypt(
                frame(msg_type, payload@, old(self).block()).subrange(
                    4,
                    frame(msg_type, payload@, old(self).block()).len() as int,
                ),
            ) is Err)),
            r matches Ok(f) ==> (old(self).enc() is None || (old(self).enc() matches Some(st) && (
            st.cipher() != CipherType::ChaCha20Poly1305 && st.mac() == MacType::NoMac))) ==> (
            payload@.len() + 16 <= u32::MAX ==> spec_decode(old(self).enc(), f@) == Ok::<
                (u8, Seq<u8>),
                SshError,
            >((msg_type, payload@))),
    {
        proof {
            use_type_invariant(&*self);
        }
        let packet = build_frame(self.block_size, msg_type, payload);
        let ghost fr = frame(msg_type, payload@, 8);
        let mut enc: Option<CipherState> = None;
        std::mem::swap(&mut enc, &mut self.encrypt);
        let result = match &mut enc {
            None => Ok(packet),
            Some(cipher) => {
                let body = &packet.as_slice()[4..packet.len()];
                match cipher.encrypt_packet(body) {
                    Ok(encrypted) => {
                        let mut out: Vec<u8> = Vec::new();
                        put_slice(&mut out, &packet.as_slice()[0..4]);
                        put_slice(&mut out, encrypted.as_slice());
                        proof {
                            assert(out@.subrange(0, 4) =~= fr.subrange(0, 4));
                            assert(out@.subrange(4, out@.len() as int) =~= encrypted@);
                        }
                        Ok(out)
                    },
                    Err(e) => Err(e),
                }
            },
        };
        self.encrypt = enc;
        proof {
            if payload@.len() + 16 <= u32::MAX {
                lemma_frame_roundtrip(msg_type, payload@);
                if let Ok(f) = &result {
                    if let Some(st) = old(self).enc() {
                        if st.cipher() != CipherType::ChaCha20Poly1305 && st.mac() == MacType::NoMac {
                            lemma_encrypted_frame_roundtrip(st, msg_type, payload@, f@);
                        }
                    }
                }
            }
        }
        result
    }

    /// Reads one packet: checks the length field, decrypts once incoming protection is
    /// on (which advances the incoming sequence number), and parses the body. Where the
    /// decrypted body is one byte long or announces more padding than it holds, the
    /// result is `MalformedPacket`.
    pub fn decode_packet(&mut self, data: &[u8]) -> (r: Result<(u8, Vec<u8>), SshError>)
        ensures
            final(self).enc() == old(self).enc(),
            final(self).block() == old(self).block(),
            match spec_decode(old(self).dec(), data@) {
                Ok((t, p)) => r matches Ok((t2, v)) && t2 == t && v@ == p,
                Err(e) => r == Err::<(u8, Vec<u8>), SshError>(e),
            },
            spec_frame_check(data@) is Err ==> final(self).dec() == old(self).dec(),
            spec_frame_check(data@) is Ok ==> match old(self).dec() {
                None => final(self).dec() is None,
                Some(st) => (final(self).dec() matches Some(st2) && st2.seq() == st.seq().wrapping_add(
                    1,
                ) && st2.cipher() == st.cipher() && st2.mac() == st.mac()),
            },
            dec_after(old(self).dec(), final(self).dec(), data@),
    {
        proof {
            use_type_invariant(&*self);
        }
        if data.len() < 5 {
            return Err(SshError::PacketTooShort);
        }
        let packet_length = get_u32_at(data, 0) as usize;
        if data.len() - 4 < packet_length {
            return Err(SshError::IncompletePacket);
        }
        let packet_data = &data[4..4 + packet_length];
        let mut dec: Option<CipherState> = None;
        std::mem::swap(&mut dec, &mut self.decrypt);
        let decrypted = match &mut dec {
            Some(cipher) => cipher.decrypt_packet(packet_data),
            None => Ok(to_vec(packet_data)),
        };
        self.decrypt = dec;
        let plaintext = match decrypted {
            Ok(p) => p,
            Err(e) => {
                return Err(e);
            },
        };
        if plaintext.len() == 1 || (plaintext.len() >= 2 && plaintext[0] as usize
            > plaintext.len()) {
            return Err(SshError::MalformedPacket);
        }
        parse_packet_body(plaintext.as_slice())
    }

    /// Whether outgoing packets are encrypted.
    pub fn is_encrypted(&self) -> (r: bool)
        ensures
            r == self.enc() is Some,
    {
        self.encrypt.is_some()
    }
}

/// The receiving cipher after reading `data`: unchanged when the length field is
/// refused, else moved to the next packet (when there is one).
pub open spec fn dec_after(pre: Option<CipherState>, post: Option<CipherState>, data: Seq<u8>) -> bool {
    if spec_frame_check(data) is Err {
        post == pre
    } else {
        match pre {
            None => post is None,
            Some(st) => post matches Some(st2) && next_state(st, st2),
        }
    }
}

} // verus!
