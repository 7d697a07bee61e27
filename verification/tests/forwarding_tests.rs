use ssh_forwarder::bridge::BidirectionalBridge;
use ssh_forwarder::buffer::BufferMode;
use ssh_forwarder::buffer_pool::BufferPool;
use ssh_forwarder::error::SshError;
use ssh_forwarder::passwords::{generate_secure_password, PASSWORD_CHARSET};
use ssh_forwarder::settings::Settings;

#[test]
fn bridge_addresses_and_messages() {
    let b = BidirectionalBridge::new(3, 9, "db.internal".to_string(), 5432, 1000);
    assert_eq!(b.target_addr(), "db.internal:5432");
    assert_eq!(b.build_channel_data(b"ok"), vec![94, 0, 0, 0, 9, 0, 0, 0, 2, b'o', b'k']);
    assert_eq!(b.build_channel_eof(), vec![96, 0, 0, 0, 9]);
    assert_eq!(b.build_channel_close(), vec![97, 0, 0, 0, 9]);
    assert_eq!(b.window_size(), 1000);
    assert_eq!(b.current_mode(), BufferMode::Standard);
}

#[test]
fn bridge_reads_charge_the_window() {
    let mut b = BidirectionalBridge::new(3, 9, "h".to_string(), 1, 1000);
    let msg = b.on_target_read(Ok(vec![1; 600])).unwrap().unwrap();
    assert_eq!(msg.len(), 9 + 600);
    // 400 left is at the refill level (half of 1000): refilled.
    assert_eq!(b.window_size(), 1000);
    assert!(b.on_target_read(Ok(vec![1; 300])).unwrap().is_some());
    assert_eq!(b.window_size(), 700);
    assert_eq!(b.on_target_read(Ok(vec![1; 701])), Err(SshError::WindowOverflow));
    assert_eq!(b.on_target_read(Ok(Vec::new())), Ok(None));
    assert!(b.target_closed());
}

#[test]
fn bridge_close_flags() {
    let mut b = BidirectionalBridge::new(1, 2, "h".to_string(), 1, 1000);
    assert!(!b.is_fully_closed());
    b.handle_ssh_close().unwrap();
    assert!(!b.is_fully_closed());
    assert_eq!(b.on_target_read(Err(SshError::ChannelNotFound)), Err(SshError::ChannelNotFound));
    assert!(b.is_fully_closed());
    let mut c = BidirectionalBridge::new(1, 2, "h".to_string(), 1, 1000);
    assert!(!c.ssh_eof_sent());
    c.mark_ssh_eof_sent();
    assert!(c.ssh_eof_sent());
    assert_eq!(c.after_target_write(false, 10), None);
    assert!(c.is_fully_closed());
    let mut d = BidirectionalBridge::new(1, 2, "h".to_string(), 1, 1000);
    d.connect_failed();
    assert!(d.target_closed());
    assert_eq!(d.after_target_write(true, 10), None);
}

#[test]
fn settings_defaults_and_paths() {
    let s = Settings::default();
    assert_eq!(s.initial_window_size, 2_097_152);
    assert_eq!(s.max_packet_size, 32768);
    assert_eq!(s.traffic_socket_path(3), "/var/run/ssh-forwarder/traffic-3.sock");
    assert_eq!(s.admin_socket_path(), "/var/run/ssh-forwarder/admin.sock");
    assert_eq!(s.worker_count(8), 8);
    let mut t = s.clone();
    t.worker_threads = Some(2);
    t.socket_dir = "/tmp/".to_string();
    assert_eq!(t.worker_count(8), 2);
    assert_eq!(t.admin_socket_path(), "/tmp/admin.sock");
    t.socket_dir = String::new();
    assert_eq!(t.traffic_socket_path(12), "traffic-12.sock");
    t.admin_socket = "/abs/admin.sock".to_string();
    t.socket_dir = "/tmp".to_string();
    assert_eq!(t.admin_socket_path(), "/abs/admin.sock");
}

#[test]
fn passwords_use_the_charset() {
    let p = generate_secure_password(32);
    assert_eq!(p.len(), 32);
    assert!(p.bytes().all(|b| PASSWORD_CHARSET.contains(&b)));
    let q = generate_secure_password(32);
    assert_ne!(p, q);
    assert_eq!(generate_secure_password(0), "");
}

#[test]
fn buffer_pool_reuses_up_to_limit() {
    let mut pool = BufferPool::new(16, 64);
    let mut b = pool.get_standard();
    assert!(b.capacity() >= 16);
    b.as_mut().extend_from_slice(b"abc");
    let bytes = b.into_inner();
    assert_eq!(bytes, b"abc".to_vec());
    pool.return_buffer(bytes, false);
    let again = pool.get_standard();
    assert_eq!(again.freeze(), Vec::<u8>::new());
    let h = pool.get_high_throughput();
    assert!(h.capacity() >= 64);
}

#[test]
fn bridge_read_and_write_limits() {
    let b = BidirectionalBridge::new(3, 9, "h".to_string(), 1, 1000);
    assert!(b.read_fits(1000));
    assert!(b.read_fits(0));
    assert!(b.write_fits(u32::MAX));
    let big = BidirectionalBridge::new(3, 9, "h".to_string(), 1, u32::MAX);
    assert!(!big.read_fits(1));
    assert!(big.write_fits(5));
}
