use rsa::pkcs8::EncodePrivateKey;
use ssh_forwarder::auth_cache::{AuthCache, DbUser};
use ssh_forwarder::connection::{BridgeMessage, ConnectionManager};
use ssh_forwarder::host_key::HostKey;
use ssh_forwarder::settings::Settings;
use ssh_forwarder::transport::TransportState;
use std::sync::Arc;

/// A host key around a fresh 1024-bit RSA key.
fn test_host_key() -> HostKey {
    let key = rsa::RsaPrivateKey::new(&mut rand::thread_rng(), 1024).unwrap();
    HostKey::from_pkcs8_der(key.to_pkcs8_der().unwrap().as_bytes().to_vec()).unwrap()
}

fn manager() -> ConnectionManager {
    ConnectionManager::new(Settings::default(), Arc::new(test_host_key()))
}

#[test]
fn new_connection_has_no_session_or_bridges() {
    let mut m = manager();
    assert_eq!(m.handler_ref().transport().state(), TransportState::WaitingIdent);
    assert!(!m.session_started());
    assert_eq!(m.bridge_count(), 0);
    assert_eq!(m.initial_window_size(), 2_097_152);
    assert!(!m.after_client_data());
    assert!(m.process_new_channels().is_empty());
    assert!(m.take_bridge_data().is_empty());
    assert!(!m.has_bridge(0));
}

#[test]
fn bridge_messages_before_keys() {
    let mut m = manager();
    let out = m.on_bridge_message(BridgeMessage::Data { channel_id: 1, msg: vec![94, 0, 0, 0, 7, 0, 0, 0, 1, b'x'] });
    assert_eq!(out.unwrap(), Some(vec![94, 0, 0, 0, 7, 0, 0, 0, 1, b'x']));
    assert_eq!(m.on_bridge_message(BridgeMessage::Data { channel_id: 1, msg: vec![] }).unwrap(), None);
    assert_eq!(m.on_bridge_message(BridgeMessage::Eof { channel_id: 1 }).unwrap(), Some(vec![96]));
    assert_eq!(m.on_bridge_message(BridgeMessage::Close { channel_id: 1 }).unwrap(), None);
    assert_eq!(
        m.on_bridge_message(BridgeMessage::Error { channel_id: 2, error: "reset".to_string() }).unwrap(),
        None
    );
    assert_eq!(m.bridge_count(), 0);
}

#[test]
fn finish_without_session_leaves_counts() {
    let row = DbUser {
        id: 1,
        username: "u".to_string(),
        password: "p".to_string(),
        created_date: "2024-01-01 00:00:00".to_string(),
        expiry_date: "2999-01-01 00:00:00".to_string(),
        max_logins: 2,
    };
    let mut cache = AuthCache::from_users(vec![row], "db".to_string());
    cache.record_login("u");
    let m = manager();
    m.finish(&mut cache);
    assert_eq!(cache.active_logins("u"), 1);
}
