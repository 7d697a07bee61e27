use num_bigint::BigUint;
use sha1::Sha1;
use sha2::{Digest, Sha256};
use ssh_forwarder::algorithms::{KexMethod, SUPPORTED_ENCRYPTION, SUPPORTED_KEX, SUPPORTED_MAC};
use ssh_forwarder::dh_group::{DHGroup, GROUP14_PRIME};
use ssh_forwarder::error::SshError;
use ssh_forwarder::kex::{kexinit_payload, KexState};
use ssh_forwarder::session_keys::SessionKeys;
use ssh_forwarder::wire::{write_name_list, write_ssh_string};

fn client_kexinit(kex: &[&str], enc: &[&str], mac: &[&str]) -> Vec<u8> {
    let mut p = vec![20u8];
    p.extend_from_slice(&[0xAA; 16]);
    write_name_list(&mut p, kex);
    write_name_list(&mut p, &["ssh-rsa"]);
    write_name_list(&mut p, enc);
    write_name_list(&mut p, enc);
    write_name_list(&mut p, mac);
    write_name_list(&mut p, mac);
    write_name_list(&mut p, &["none"]);
    write_name_list(&mut p, &["none"]);
    write_name_list(&mut p, &[]);
    write_name_list(&mut p, &[]);
    p.push(0);
    p.extend_from_slice(&[0, 0, 0, 0]);
    p
}

#[test]
fn kex_method_names() {
    assert!(matches!(KexMethod::from_name("curve25519-sha256"), Some(KexMethod::Curve25519)));
    assert!(matches!(KexMethod::from_name("curve25519-sha256@libssh.org"), Some(KexMethod::Curve25519)));
    assert!(matches!(KexMethod::from_name("diffie-hellman-group14-sha256"), Some(KexMethod::DiffieHellmanGroup14Sha256)));
    assert!(matches!(KexMethod::from_name("diffie-hellman-group14-sha1"), Some(KexMethod::DiffieHellmanGroup14Sha1)));
    assert!(matches!(KexMethod::from_name("diffie-hellman-group1-sha1"), Some(KexMethod::DiffieHellmanGroup1Sha1)));
    assert!(KexMethod::from_name("ecdh-sha2-nistp256").is_none());
    assert_eq!(SessionKeys::new().key_client_to_server.len(), 0);
}

#[test]
fn group_constants() {
    let g14 = DHGroup::group14();
    assert_eq!(g14.p.len(), 256);
    assert_eq!(g14.g, vec![2]);
    assert_eq!(&g14.p[..8], &[0xff; 8]);
    assert_eq!(g14.p, GROUP14_PRIME.to_vec());
    let g1 = DHGroup::group1();
    assert_eq!(g1.p.len(), 128);
    assert_eq!(&g1.p[120..], &[0xff; 8]);
}

#[test]
fn our_kexinit_layout() {
    let cookie = [1u8; 16];
    let p = kexinit_payload(&cookie);
    let mut expected = vec![20u8];
    expected.extend_from_slice(&cookie);
    write_name_list(&mut expected, &SUPPORTED_KEX);
    write_name_list(&mut expected, &["ssh-rsa", "rsa-sha2-256"]);
    write_name_list(&mut expected, &SUPPORTED_ENCRYPTION);
    write_name_list(&mut expected, &SUPPORTED_ENCRYPTION);
    write_name_list(&mut expected, &SUPPORTED_MAC);
    write_name_list(&mut expected, &SUPPORTED_MAC);
    write_name_list(&mut expected, &["none"]);
    write_name_list(&mut expected, &["none"]);
    write_name_list(&mut expected, &[]);
    write_name_list(&mut expected, &[]);
    expected.push(0);
    expected.extend_from_slice(&[0, 0, 0, 0]);
    assert_eq!(p, expected);
    let mut buf = Vec::new();
    write_ssh_string(&mut buf, b"curve25519-sha256,curve25519-sha256@libssh.org,diffie-hellman-group14-sha256,diffie-hellman-group14-sha1,diffie-hellman-group1-sha1");
    assert_eq!(&p[17..17 + buf.len()], &buf[..]);
}

#[test]
fn server_kexinit_has_random_cookie() {
    let mut k = KexState::new();
    let a = k.build_server_kexinit().unwrap();
    let b = k.build_server_kexinit().unwrap();
    assert_eq!(a[0], 20);
    assert_eq!(&a[17..], &b[17..]);
    assert_ne!(&a[1..17], &b[1..17]);
    assert_eq!(a, kexinit_payload(&a[1..17]));
}

#[test]
fn negotiation_picks_our_first_listed_by_client() {
    let mut k = KexState::new();
    // The name-lists are read from byte 17 on, after the type byte and the cookie.
    let payload = client_kexinit(
        &["diffie-hellman-group1-sha1", "diffie-hellman-group14-sha256"],
        &["aes128-ctr", "aes256-ctr"],
        &["hmac-sha1", "hmac-sha2-256"],
    );
    k.parse_client_kexinit(payload).unwrap();
    let algs = k.negotiated_algorithms().unwrap();
    assert_eq!(algs.kex, "diffie-hellman-group14-sha256");
    assert_eq!(algs.encryption_c2s, "aes256-ctr");
    assert_eq!(algs.mac_s2c, "hmac-sha2-256");
}

#[test]
fn negotiation_failures() {
    let mut k = KexState::new();
    let payload = client_kexinit(&["ecdh-sha2-nistp256"], &["aes256-ctr"], &["hmac-sha1"]);
    assert_eq!(k.parse_client_kexinit(payload), Err(SshError::NoCommonAlgorithm));
    assert!(k.negotiated_algorithms().is_none());
    let mut k2 = KexState::new();
    let mut short = vec![0u8; 17];
    short.extend_from_slice(&[0, 0]);
    assert_eq!(k2.parse_client_kexinit(short), Err(SshError::StringLengthMissing));
    let mut k3 = KexState::new();
    assert_eq!(k3.generate_keys(), Err(SshError::NoKexMethod));
    assert_eq!(k3.build_kex_dh_init(), Err(SshError::NoKexMethod));
    assert_eq!(k3.parse_kex_init(vec![30, 0, 0, 0, 0]), Err(SshError::NoKexMethod));
    assert_eq!(k3.compute_exchange_hash("a", "b"), Err(SshError::NoKexMethod));
}

#[test]
fn curve25519_exchange_hash_over_zero_secret() {
    let mut k = KexState::new();
    k.parse_client_kexinit(client_kexinit(&["curve25519-sha256"], &["aes256-ctr"], &["hmac-sha2-256"])).unwrap();
    k.generate_keys().unwrap();
    let init = k.build_kex_dh_init().unwrap();
    assert_eq!(init[0], 30);
    assert_eq!(&init[1..5], &[0, 0, 0, 32]);
    assert_eq!(init.len(), 37);
    let mut q = vec![30u8];
    write_ssh_string(&mut q, &[9u8; 31]);
    assert_eq!(k.parse_kex_init(q), Err(SshError::InvalidX25519Key));
    let mut q = vec![30u8];
    write_ssh_string(&mut q, &[9u8; 32]);
    k.parse_kex_init(q).unwrap();
    k.compute_shared_secret().unwrap();
    k.compute_exchange_hash("SSH-2.0-client", "SSH-2.0-SSH_Forwarder_0.1").unwrap();
    let mut h = Sha256::new();
    h.update(b"SSH-2.0-clientSSH-2.0-SSH_Forwarder_0.1");
    h.update([0u8; 32]);
    assert_eq!(k.exchange_hash().unwrap(), &h.finalize()[..]);
}

fn kdf_sha1(k: &[u8], h: &[u8], letter: u8, needed: usize) -> Vec<u8> {
    let mut key = Sha1::new().chain_update(k).chain_update(h).chain_update([letter]).chain_update(h).finalize().to_vec();
    while key.len() < needed {
        let more = Sha1::new().chain_update(k).chain_update(h).chain_update(&key).finalize();
        key.extend_from_slice(&more);
    }
    key.truncate(needed);
    key
}

#[test]
fn group1_exchange_agrees_with_bignum_and_derives_sha1_keys() {
    let mut k = KexState::new();
    k.parse_client_kexinit(client_kexinit(&["diffie-hellman-group1-sha1"], &["aes256-ctr"], &["hmac-sha1"])).unwrap();
    k.generate_keys().unwrap();
    let init = k.build_kex_dh_init().unwrap();
    let e = BigUint::from_bytes_be(&init[5..]);
    let p = BigUint::from_bytes_be(&DHGroup::group1().p);
    assert!(e > BigUint::from(2u32));
    assert!(e < p);
    // Our side picks y and sends f = 2^y mod p.
    let y = BigUint::from(123456789u64);
    let f = BigUint::from(2u32).modpow(&y, &p);
    let mut msg = vec![30u8];
    write_ssh_string(&mut msg, &f.to_bytes_be());
    k.parse_kex_init(msg).unwrap();
    k.compute_shared_secret().unwrap();
    k.compute_exchange_hash("C", "S").unwrap();
    let shared = e.modpow(&y, &p).to_bytes_be();
    let mut input = b"CS".to_vec();
    input.extend_from_slice(&shared);
    let hash = Sha1::digest(&input).to_vec();
    assert_eq!(k.exchange_hash().unwrap(), &hash[..]);
    let keys = k.derive_keys().unwrap();
    assert_eq!(keys.iv_client_to_server, kdf_sha1(&shared, &hash, b'A', 16));
    assert_eq!(keys.key_server_to_client, kdf_sha1(&shared, &hash, b'D', 32));
    assert_eq!(keys.mac_server_to_client, kdf_sha1(&shared, &hash, b'F', 32));
    assert_eq!(keys.key_client_to_server.len(), 32);
    assert_ne!(keys.key_client_to_server, keys.key_server_to_client);
}

#[test]
fn group14_sha256_reply_layout() {
    let mut k = KexState::new();
    k.parse_client_kexinit(client_kexinit(&["diffie-hellman-group14-sha256"], &["aes256-ctr"], &["hmac-sha2-256"])).unwrap();
    k.generate_keys().unwrap();
    let init = k.build_kex_dh_init().unwrap();
    let e = init[5..].to_vec();
    let reply = k.build_kex_reply(b"HOSTKEY", b"SIG").unwrap();
    let mut expected = vec![31u8];
    write_ssh_string(&mut expected, b"HOSTKEY");
    write_ssh_string(&mut expected, &e);
    write_ssh_string(&mut expected, b"SIG");
    assert_eq!(reply, expected);
    let mut msg = vec![30u8];
    write_ssh_string(&mut msg, &[5]);
    k.parse_kex_init(msg).unwrap();
    k.compute_shared_secret().unwrap();
    k.compute_exchange_hash("C", "S").unwrap();
    let keys = k.derive_keys().unwrap();
    assert_eq!(keys.iv_client_to_server.len(), 16);
    assert_eq!(keys.mac_client_to_server.len(), 32);
}
