use aes::cipher::generic_array::GenericArray;
use chacha20poly1305::aead::{Aead, KeyInit};
use ctr::cipher::{KeyIvInit, StreamCipher};
use hmac::{Hmac, Mac};
use sha2::Sha256;
use ssh_forwarder::cipher_state::CipherState;
use ssh_forwarder::cipher_type::CipherType;
use ssh_forwarder::error::SshError;
use ssh_forwarder::mac_type::MacType;
use ssh_forwarder::packet_codec::{parse_packet_body, SshPacketCodec};

fn aes256_ctr(key: &[u8], iv: &[u8], data: &[u8]) -> Vec<u8> {
    let mut buf = data.to_vec();
    let mut c = ctr::Ctr128BE::<aes::Aes256>::new(GenericArray::from_slice(key), GenericArray::from_slice(iv));
    c.apply_keystream(&mut buf);
    buf
}

fn hmac256(key: &[u8], seq: u32, data: &[u8]) -> Vec<u8> {
    let mut m = <Hmac<Sha256> as Mac>::new_from_slice(key).unwrap();
    m.update(&seq.to_be_bytes());
    m.update(data);
    m.finalize().into_bytes().to_vec()
}

#[test]
fn names_and_sizes() {
    assert_eq!(CipherType::from_name("aes256-ctr"), Some(CipherType::Aes256Ctr));
    assert_eq!(CipherType::from_name("aes128-ctr"), Some(CipherType::Aes128Ctr));
    assert_eq!(CipherType::from_name("chacha20-poly1305@openssh.com"), Some(CipherType::ChaCha20Poly1305));
    assert_eq!(CipherType::from_name("aes256-gcm@openssh.com"), None);
    assert_eq!(CipherType::Aes128Ctr.key_size(), 16);
    assert_eq!(CipherType::ChaCha20Poly1305.iv_size(), 12);
    assert_eq!(CipherType::Aes256Ctr.block_size(), 16);
    assert_eq!(MacType::from_name("hmac-sha2-256"), Some(MacType::HmacSha256));
    assert_eq!(MacType::from_name("none"), Some(MacType::NoMac));
    assert_eq!(MacType::from_name("hmac-sha2-512"), None);
    assert_eq!(MacType::HmacSha1.mac_size(), 20);
}

#[test]
fn cipher_state_setup_errors() {
    assert!(matches!(CipherState::new("rot13", "none", &[0; 32], &[0; 16], &[]), Err(SshError::UnsupportedCipher)));
    assert!(matches!(CipherState::new("aes256-ctr", "md5", &[0; 32], &[0; 16], &[]), Err(SshError::UnsupportedMac)));
    assert!(matches!(
        CipherState::new("chacha20-poly1305@openssh.com", "none", &[0; 16], &[], &[]),
        Err(SshError::InvalidKeySize)
    ));
}

#[test]
fn aes_hmac_encrypt_is_keystream_then_mac_of_plaintext() {
    let key = [7u8; 32];
    let iv = [9u8; 16];
    let mac_key = [3u8; 32];
    let mut st = CipherState::new("aes256-ctr", "hmac-sha2-256", &key, &iv, &mac_key).unwrap();
    let pt = b"some packet bytes".to_vec();
    let ct = st.encrypt_packet(&pt).unwrap();
    let mut expected = aes256_ctr(&key, &iv, &pt);
    expected.extend_from_slice(&hmac256(&mac_key, 0, &pt));
    assert_eq!(ct, expected);
    assert_ne!(&ct[..pt.len()], &pt[..]);
    assert_eq!(st.sequence(), 1);
    // The second packet restarts the keystream and MACs with sequence number 1.
    let ct2 = st.encrypt_packet(&pt).unwrap();
    let mut expected2 = aes256_ctr(&key, &iv, &pt);
    expected2.extend_from_slice(&hmac256(&mac_key, 1, &pt));
    assert_eq!(ct2, expected2);
}

#[test]
fn aes_hmac_decrypt_checks_mac_of_plaintext() {
    let key = [7u8; 32];
    let iv = [9u8; 16];
    let mac_key = [3u8; 32];
    let mut dec = CipherState::new("aes256-ctr", "hmac-sha2-256", &key, &iv, &mac_key).unwrap();
    let body = aes256_ctr(&key, &iv, b"hello");
    let mut wire = body.clone();
    wire.extend_from_slice(&hmac256(&mac_key, 0, b"hello"));
    assert_eq!(dec.decrypt_packet(&wire).unwrap(), b"hello".to_vec());
    let mut bad = wire.clone();
    let last = bad.len() - 1;
    bad[last] ^= 1;
    assert_eq!(dec.decrypt_packet(&bad), Err(SshError::MacMismatch));
    assert_eq!(dec.decrypt_packet(&[1, 2, 3]), Err(SshError::CiphertextTooShort));
}

#[test]
fn aes_hmac_round_trips_and_detects_tampering() {
    for (mac, mac_key) in [("hmac-sha2-256", vec![5u8; 32]), ("hmac-sha1", vec![6u8; 20])] {
        let key = [4u8; 32];
        let iv = [8u8; 16];
        let mut enc = CipherState::new("aes256-ctr", mac, &key, &iv, &mac_key).unwrap();
        let mut dec = CipherState::new("aes256-ctr", mac, &key, &iv, &mac_key).unwrap();
        for _ in 0..3 {
            let ct = enc.encrypt_packet(b"packet body").unwrap();
            let mut bad = ct.clone();
            bad[0] ^= 1;
            let mut probe = CipherState::new("aes256-ctr", mac, &key, &iv, &mac_key).unwrap();
            while probe.sequence() != dec.sequence() {
                probe.decrypt_packet(&[]).ok();
            }
            assert_eq!(probe.decrypt_packet(&bad), Err(SshError::MacMismatch));
            assert_eq!(dec.decrypt_packet(&ct).unwrap(), b"packet body".to_vec());
        }
    }
}

#[test]
fn aes_without_mac_round_trips() {
    let key = [1u8; 16];
    let iv = [2u8; 16];
    let mut enc = CipherState::new("aes128-ctr", "none", &key, &iv, &[]).unwrap();
    let mut dec = CipherState::new("aes128-ctr", "none", &key, &iv, &[]).unwrap();
    let ct = enc.encrypt_packet(b"round trip").unwrap();
    assert_eq!(ct.len(), 10);
    assert_ne!(ct, b"round trip".to_vec());
    assert_eq!(dec.decrypt_packet(&ct).unwrap(), b"round trip".to_vec());
}

#[test]
fn aes_short_key_is_refused_at_use() {
    let mut st = CipherState::new("aes256-ctr", "none", &[1u8; 8], &[2u8; 16], &[]).unwrap();
    assert_eq!(st.encrypt_packet(b"x"), Err(SshError::InvalidKeySize));
    let mut st2 = CipherState::new("aes256-ctr", "none", &[1u8; 32], &[2u8; 4], &[]).unwrap();
    assert_eq!(st2.encrypt_packet(b"x"), Err(SshError::InvalidIvSize));
}

#[test]
fn chacha_matches_the_aead_and_round_trips() {
    let key = [5u8; 32];
    let mut enc = CipherState::new("chacha20-poly1305@openssh.com", "none", &key, &[], &[]).unwrap();
    let mut dec = CipherState::new("chacha20-poly1305@openssh.com", "none", &key, &[], &[]).unwrap();
    let ct = enc.encrypt_packet(b"secret data").unwrap();
    let aead = chacha20poly1305::ChaCha20Poly1305::new(GenericArray::from_slice(&key));
    let nonce = [0u8; 12];
    let expected = aead.encrypt(GenericArray::from_slice(&nonce), &b"secret data"[..]).unwrap();
    assert_eq!(ct, expected);
    assert_eq!(dec.decrypt_packet(&ct).unwrap(), b"secret data".to_vec());
    let mut tampered = ct.clone();
    tampered[0] ^= 0x80;
    let mut dec2 = CipherState::new("chacha20-poly1305@openssh.com", "none", &key, &[], &[]).unwrap();
    assert_eq!(dec2.decrypt_packet(&tampered), Err(SshError::DecryptionFailed));
}

#[test]
fn codec_plain_frame_and_round_trip() {
    let mut codec = SshPacketCodec::new();
    assert!(!codec.is_encrypted());
    let frame = codec.encode_packet(5, b"abc").unwrap();
    // length 12 = padding length byte + type + 3 payload bytes + 7 padding bytes
    assert_eq!(frame, vec![0, 0, 0, 12, 7, 5, b'a', b'b', b'c', 0, 0, 0, 0, 0, 0, 0]);
    assert_eq!(frame.len() % 8, 0);
    assert_eq!(codec.decode_packet(&frame).unwrap(), (5, b"abc".to_vec()));
}

#[test]
fn codec_decode_errors() {
    let mut codec = SshPacketCodec::new();
    assert_eq!(codec.decode_packet(&[0, 0, 0, 1]), Err(SshError::PacketTooShort));
    assert_eq!(codec.decode_packet(&[0, 0, 0, 9, 1, 2]), Err(SshError::IncompletePacket));
    assert_eq!(codec.decode_packet(&[0, 0, 0, 0, 7]), Err(SshError::EmptyPacket));
    assert_eq!(codec.decode_packet(&[0, 0, 0, 3, 2, 5, 6]), Err(SshError::InvalidPadding));
    assert_eq!(codec.decode_packet(&[0, 0, 0, 1, 0]), Err(SshError::MalformedPacket));
    assert_eq!(parse_packet_body(&[1, 9, 8, 0]), Ok((9, vec![8])));
}

#[test]
fn codec_encrypted_with_aes_no_mac_round_trips() {
    let key = [4u8; 32];
    let iv = [6u8; 16];
    let mut codec = SshPacketCodec::new();
    codec
        .enable_encryption("aes256-ctr", "aes256-ctr", "none", "none", &key, &iv, &[], &key, &iv, &[])
        .unwrap();
    assert!(codec.is_encrypted());
    let frame = codec.encode_packet(94, b"payload").unwrap();
    let plain_len = u32::from_be_bytes([frame[0], frame[1], frame[2], frame[3]]) as usize;
    assert_eq!(frame.len(), 4 + plain_len);
    assert_eq!(codec.decode_packet(&frame).unwrap(), (94, b"payload".to_vec()));
}

#[test]
fn codec_enable_encryption_errors() {
    let mut codec = SshPacketCodec::new();
    assert_eq!(
        codec.enable_encryption("aes256-ctr", "aes256-ctr", "hmac-sha2-512", "none", &[0; 32], &[0; 16], &[], &[0; 32], &[0; 16], &[]),
        Err(SshError::UnsupportedMac)
    );
    assert!(!codec.is_encrypted());
}
