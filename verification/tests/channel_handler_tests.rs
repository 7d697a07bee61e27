use ssh_forwarder::channel::ChannelState;
use ssh_forwarder::channel_handler::{ChannelHandler, ChannelOpenStep, PendingOpen};
use ssh_forwarder::connection::{extract_channel_data, extract_channel_id};
use ssh_forwarder::error::SshError;
use ssh_forwarder::messages::{
    build_channel_open_confirmation, build_channel_open_failure, build_disconnect, build_service_accept,
    build_userauth_failure, build_userauth_success, channel_open_would_abort, ChannelOpenRequest,
};
use ssh_forwarder::settings::Settings;
use ssh_forwarder::wire::write_ssh_string;

fn settings(window: u32) -> Settings {
    let mut s = Settings::default();
    s.initial_window_size = window;
    s.max_packet_size = 32768;
    s
}

fn open_request(kind: &str, sender: u32, host: &str, port: u32) -> Vec<u8> {
    let mut p = Vec::new();
    write_ssh_string(&mut p, kind.as_bytes());
    p.extend_from_slice(&sender.to_be_bytes());
    p.extend_from_slice(&1000u32.to_be_bytes());
    p.extend_from_slice(&32768u32.to_be_bytes());
    if kind == "direct-tcpip" {
        write_ssh_string(&mut p, host.as_bytes());
        p.extend_from_slice(&port.to_be_bytes());
        write_ssh_string(&mut p, b"127.0.0.1");
        p.extend_from_slice(&5555u32.to_be_bytes());
    }
    p
}

fn data_msg(channel: u32, data: &[u8]) -> Vec<u8> {
    let mut p = channel.to_be_bytes().to_vec();
    p.extend_from_slice(&(data.len() as u32).to_be_bytes());
    p.extend_from_slice(data);
    p
}

fn open_channel(h: &mut ChannelHandler, sender: u32) -> u32 {
    let step = h.prepare_channel_open(&open_request("direct-tcpip", sender, "example.org", 80)).unwrap();
    let open = match step {
        ChannelOpenStep::Connect(o) => o,
        ChannelOpenStep::Reply(_) => panic!("expected a connection step"),
    };
    let reply = h.complete_channel_open(open, true);
    u32::from_be_bytes([reply[4], reply[5], reply[6], reply[7]])
}

#[test]
fn message_builders() {
    assert_eq!(build_userauth_success(), Vec::<u8>::new());
    assert_eq!(build_userauth_failure(&["password"], true), vec![0, 0, 0, 8, b'p', b'a', b's', b's', b'w', b'o', b'r', b'd', 1]);
    assert_eq!(build_service_accept("ab"), vec![0, 0, 0, 2, b'a', b'b']);
    assert_eq!(build_disconnect(2, "x"), vec![0, 0, 0, 2, 0, 0, 0, 1, b'x', 0, 0, 0, 0]);
    assert_eq!(build_channel_open_confirmation(1, 2, 3, 4), vec![0, 0, 0, 1, 0, 0, 0, 2, 0, 0, 0, 3, 0, 0, 0, 4]);
    assert_eq!(build_channel_open_failure(9, 3, "no"), vec![0, 0, 0, 9, 0, 0, 0, 3, 0, 0, 0, 2, b'n', b'o', 0, 0, 0, 0]);
}

#[test]
fn channel_open_request_parse() {
    let req = ChannelOpenRequest::parse(&open_request("direct-tcpip", 7, "db.local", 5432)).unwrap();
    assert_eq!(req.channel_type, "direct-tcpip");
    assert_eq!(req.sender_channel, 7);
    assert_eq!(req.initial_window, 1000);
    assert_eq!(req.host.as_deref(), Some("db.local"));
    assert_eq!(req.port, Some(5432));
    assert!(req.is_supported());
    let sess = ChannelOpenRequest::parse(&open_request("session", 3, "", 0)).unwrap();
    assert!(!sess.is_supported());
    assert_eq!(sess.host, None);
    let mut bad_utf8 = Vec::new();
    write_ssh_string(&mut bad_utf8, &[0xff]);
    bad_utf8.extend_from_slice(&[0; 12]);
    assert!(matches!(ChannelOpenRequest::parse(&bad_utf8), Err(SshError::InvalidUtf8)));
    let mut short = Vec::new();
    write_ssh_string(&mut short, b"session");
    short.extend_from_slice(&[0; 5]);
    assert!(channel_open_would_abort(&short));
    assert!(!channel_open_would_abort(&open_request("session", 3, "", 0)));
}

#[test]
fn open_requires_authentication() {
    let h = ChannelHandler::new(settings(1000));
    assert!(matches!(h.prepare_channel_open(&open_request("direct-tcpip", 1, "h", 1)), Err(SshError::NotAuthenticated)));
}

#[test]
fn open_refuses_other_types_and_short_bodies() {
    let mut h = ChannelHandler::new(settings(1000));
    h.set_authenticated(true);
    match h.prepare_channel_open(&open_request("session", 4, "", 0)).unwrap() {
        ChannelOpenStep::Reply(r) => assert_eq!(r, build_channel_open_failure(4, 3, "Only direct-tcpip is supported")),
        ChannelOpenStep::Connect(_) => panic!("session channels are not served"),
    }
    let mut short = Vec::new();
    write_ssh_string(&mut short, b"direct-tcpip");
    short.extend_from_slice(&[0; 3]);
    assert!(matches!(h.prepare_channel_open(&short), Err(SshError::MalformedPacket)));
}

#[test]
fn open_connect_failed_and_succeeded() {
    let mut h = ChannelHandler::new(settings(1000));
    h.set_authenticated(true);
    let open = PendingOpen { sender_channel: 11, target_host: "10.0.0.1".to_string(), target_port: 22 };
    let fail = h.complete_channel_open(open.clone(), false);
    assert_eq!(fail, build_channel_open_failure(11, 2, "Failed to connect to 10.0.0.1:22"));
    assert_eq!(h.channels().channel_count(), 0);
    let ok = h.complete_channel_open(open, true);
    assert_eq!(ok, build_channel_open_confirmation(11, 0, 1000, 32768));
    let ch = h.channels().get_channel(0).unwrap();
    assert_eq!(ch.remote_id, 11);
    assert_eq!(ch.target_host.as_deref(), Some("10.0.0.1"));
    assert!(h.can_send(0));
    let forwards = h.take_pending_forwards();
    assert_eq!(forwards.len(), 1);
    assert_eq!(forwards[0].target_port, 22);
    assert!(h.take_pending_forwards().is_empty());
}

#[test]
fn data_is_queued_and_window_adjusted_below_half() {
    let mut h = ChannelHandler::new(settings(1000));
    h.set_authenticated(true);
    let id = open_channel(&mut h, 50);
    assert_eq!(h.handle_channel_data(&data_msg(id, &[1; 400])), Ok(None));
    // 600 left, then 200 more gives 400 < 500: refill by 600 to 1000.
    let adjust = h.handle_channel_data(&data_msg(id, &[2; 200])).unwrap().unwrap();
    let mut expected = 50u32.to_be_bytes().to_vec();
    expected.extend_from_slice(&600u32.to_be_bytes());
    assert_eq!(adjust, expected);
    assert_eq!(h.channels().get_channel(id).unwrap().local_window, 1000);
    let pending = h.take_pending_data();
    assert_eq!(pending.len(), 2);
    assert_eq!(pending[0].data, vec![1; 400]);
    assert_eq!(pending[1].channel_id, id);
    assert!(h.take_pending_data().is_empty());
}

#[test]
fn data_errors() {
    let mut h = ChannelHandler::new(settings(100));
    h.set_authenticated(true);
    let id = open_channel(&mut h, 5);
    assert_eq!(h.handle_channel_data(&[0, 0, 0]), Err(SshError::ChannelMessageTooShort));
    assert_eq!(h.handle_channel_data(&[0, 0, 0, 0, 0, 0, 0, 9, 1]), Err(SshError::IncompleteChannelData));
    assert_eq!(h.handle_channel_data(&data_msg(id, &[0; 101])), Err(SshError::InsufficientLocalWindow));
    // Data for an unknown channel is queued but otherwise ignored.
    assert_eq!(h.handle_channel_data(&data_msg(77, &[0; 3])), Ok(None));
    assert_eq!(h.take_pending_data().len(), 2);
}

#[test]
fn eof_close_adjust_request() {
    let mut h = ChannelHandler::new(settings(1000));
    h.set_authenticated(true);
    let id = open_channel(&mut h, 42);
    assert_eq!(h.handle_channel_eof(&id.to_be_bytes()), Ok(None));
    assert_eq!(h.channels().get_channel(id).unwrap().state, ChannelState::RemoteEof);
    let mut adj = id.to_be_bytes().to_vec();
    adj.extend_from_slice(&500u32.to_be_bytes());
    assert_eq!(h.handle_window_adjust(&adj), Ok(None));
    assert_eq!(h.channels().get_channel(id).unwrap().remote_window, 1500);
    assert_eq!(h.handle_channel_request(&[0, 0, 0, 9, 1, 2]), Ok(Some(vec![0, 0, 0, 9])));
    assert_eq!(h.build_channel_data(id, b"hi").unwrap(), vec![0, 0, 0, 42, 0, 0, 0, 2, b'h', b'i']);
    assert_eq!(h.build_channel_eof(id).unwrap(), vec![0, 0, 0, 42]);
    assert_eq!(h.handle_channel_close(&id.to_be_bytes()), Ok(Some(vec![0, 0, 0, 42])));
    assert_eq!(h.handle_channel_close(&id.to_be_bytes()), Ok(None));
    assert_eq!(h.build_channel_eof(id), Err(SshError::ChannelNotFound));
    assert_eq!(h.handle_channel_eof(&[1]), Err(SshError::ChannelMessageTooShort));
    assert_eq!(h.handle_window_adjust(&[1, 2, 3, 4]), Err(SshError::ChannelMessageTooShort));
    assert_eq!(h.handle_channel_request(&[]), Err(SshError::ChannelMessageTooShort));
}

#[test]
fn close_all_closes_and_drops_forwards() {
    let mut h = ChannelHandler::new(settings(1000));
    h.set_authenticated(true);
    let a = open_channel(&mut h, 1);
    let b = open_channel(&mut h, 2);
    h.close_all();
    assert_eq!(h.channels().get_channel(a).unwrap().state, ChannelState::Closed);
    assert_eq!(h.channels_mut().get_channel(b).unwrap().state, ChannelState::Closed);
    assert!(h.take_pending_forwards().is_empty());
    assert!(!h.can_send(a));
}

#[test]
fn extract_helpers() {
    let h = ChannelHandler::new(settings(1000));
    assert_eq!(h.extract_channel_data(&data_msg(3, b"abc")), Ok((3, b"abc".to_vec())));
    assert_eq!(extract_channel_data(&data_msg(3, b"abc")), Some((3, b"abc".to_vec())));
    assert_eq!(extract_channel_data(&[0, 0, 0, 3, 0, 0, 0, 4, 1]), None);
    assert_eq!(extract_channel_id(&[0, 0, 1, 0, 9]), Some(256));
    assert_eq!(extract_channel_id(&[0, 0, 1]), None);
}
