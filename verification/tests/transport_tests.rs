use rsa::pkcs8::EncodePrivateKey;
use ssh_forwarder::auth_cache::AuthCache;
use ssh_forwarder::error::SshError;
use ssh_forwarder::handler::{HandlerStep, SshHandler};
use ssh_forwarder::host_key::HostKey;
use ssh_forwarder::settings::Settings;
use ssh_forwarder::transport::{SshTransport, TransportState, MAX_HANDSHAKE_GARBAGE};
use std::sync::Arc;

/// A host key around a fresh 1024-bit RSA key.
fn test_host_key() -> HostKey {
    let key = rsa::RsaPrivateKey::new(&mut rand::thread_rng(), 1024).unwrap();
    HostKey::from_pkcs8_der(key.to_pkcs8_der().unwrap().as_bytes().to_vec()).unwrap()
}

fn transport() -> SshTransport {
    SshTransport::new(Arc::new(test_host_key()))
}

fn cache() -> AuthCache {
    AuthCache::from_users(Vec::new(), "db".to_string())
}

#[test]
fn server_ident_bytes() {
    assert_eq!(SshTransport::generate_server_ident(), b"SSH-2.0-SSH_Forwarder_0.1\r\n".to_vec());
}

#[test]
fn version_exchange_accepts_client_line() {
    let mut t = transport();
    let mut c = cache();
    assert_eq!(t.state(), TransportState::WaitingIdent);
    let resp = t.process_transport_data(&mut c, b"SSH-2.0-OpenSSH_9.6\r\n").unwrap();
    assert_eq!(resp, Some(b"SSH-2.0-SSH_Forwarder_0.1\r\n".to_vec()));
    assert_eq!(t.state(), TransportState::KeyExchange);
    assert!(!t.is_ready());
    assert!(!t.is_authenticated());
    assert_eq!(t.username(), None);
}

#[test]
fn version_line_may_arrive_in_pieces_and_accepts_1_99() {
    let mut t = transport();
    let mut c = cache();
    assert_eq!(t.process_transport_data(&mut c, b"SSH-1.99-old"), Ok(None));
    assert_eq!(t.state(), TransportState::WaitingIdent);
    assert!(t.process_transport_data(&mut c, b"\n").unwrap().is_some());
    assert_eq!(t.state(), TransportState::KeyExchange);
}

#[test]
fn unknown_version_is_refused() {
    let mut t = transport();
    let mut c = cache();
    assert_eq!(t.process_transport_data(&mut c, b"SSH-3.0-future\r\n"), Err(SshError::InvalidVersion));
}

#[test]
fn http_probe_is_ignored_then_ssh_proceeds() {
    let mut t = transport();
    let mut c = cache();
    assert_eq!(t.process_transport_data(&mut c, b"GET / HTTP/1.1\r\nHost: x\r\n\r\n"), Ok(None));
    assert!(t.process_transport_data(&mut c, b"SSH-2.0-client\n").unwrap().is_some());
}

#[test]
fn too_much_http_garbage_is_refused() {
    let mut t = transport();
    let mut c = cache();
    let mut probe = b"POST / HTTP/1.1\r\n".to_vec();
    probe.resize(MAX_HANDSHAKE_GARBAGE + 1, b'x');
    assert_eq!(t.process_transport_data(&mut c, &probe), Err(SshError::GarbageExceeded));
}

#[test]
fn too_long_without_version_is_refused() {
    let mut t = transport();
    let mut c = cache();
    let noise = vec![b'z'; MAX_HANDSHAKE_GARBAGE];
    assert_eq!(t.process_transport_data(&mut c, &noise), Ok(None));
    assert_eq!(t.process_transport_data(&mut c, b"z"), Err(SshError::HandshakeBufferExceeded));
}

#[test]
fn key_exchange_phase_messages() {
    let mut t = transport();
    let mut c = cache();
    t.process_transport_data(&mut c, b"SSH-2.0-client\r\n").unwrap();
    assert_eq!(t.process_transport_data(&mut c, b""), Ok(None));
    assert_eq!(t.process_transport_data(&mut c, &[99]), Err(SshError::UnexpectedKexMessage));
    // NEWKEYS before any exchange: nothing was negotiated.
    assert_eq!(t.process_transport_data(&mut c, &[21]), Err(SshError::NoAlgorithms));
}

#[test]
fn plain_encode_and_decode() {
    let mut t = transport();
    assert_eq!(t.encode_message(52, b"xy").unwrap(), vec![52, b'x', b'y']);
    assert_eq!(t.decode_message(&[50, 1, 2]).unwrap(), (50, vec![1, 2]));
    assert_eq!(t.decode_message(&[]), Err(SshError::EmptyMessage));
}

#[test]
fn decode_next_packet_waits_for_whole_packet() {
    let mut t = transport();
    t.append_to_buffer(&[0, 0, 0, 3, 7]);
    assert_eq!(t.decode_next_packet(), Ok(None));
    t.append_to_buffer(&[8, 9, 0, 0]);
    assert_eq!(t.decode_next_packet(), Ok(Some((0, vec![0, 0, 3, 7, 8, 9]))));
    assert_eq!(t.decode_next_packet(), Ok(None));
}

#[test]
fn handler_passes_data_to_transport() {
    let hk = Arc::new(test_host_key());
    let mut h = SshHandler::new(Settings::default(), hk);
    let mut c = cache();
    match h.process_data(&mut c, b"SSH-2.0-client\r\n").unwrap() {
        HandlerStep::Respond(Some(r)) => assert_eq!(r, b"SSH-2.0-SSH_Forwarder_0.1\r\n".to_vec()),
        _ => panic!("expected our identification"),
    }
    assert_eq!(h.transport().state(), TransportState::KeyExchange);
    assert!(!h.is_authenticated());
    assert_eq!(h.username(), None);
    assert_eq!(h.channel_handler_mut().channels().channel_count(), 0);
    h.cleanup();
}

#[test]
fn input_fits_counts_buffered_bytes() {
    let mut t = transport();
    assert!(t.input_fits(usize::MAX));
    let mut c = cache();
    assert_eq!(t.process_transport_data(&mut c, b"SSH-2.0-partial").unwrap(), None);
    assert!(t.input_fits(usize::MAX - 15));
    assert!(!t.input_fits(usize::MAX - 14));
}
