use ssh_forwarder::channel::{Channel, ChannelManager, ChannelState};
use ssh_forwarder::error::SshError;

#[test]
fn test_channel_window() {
    let mut channel = Channel::new(1, 100, 1000, 32768);

    assert!(channel.can_send());
    channel.consume_window(500).unwrap();
    assert_eq!(channel.remote_window, 500);

    channel.add_remote_window(300);
    assert_eq!(channel.remote_window, 800);
}

#[test]
fn test_channel_eof() {
    let mut channel = Channel::new(1, 100, 1000, 32768);

    channel.set_remote_eof();
    assert_eq!(channel.state, ChannelState::RemoteEof);

    channel.set_local_eof();
    assert_eq!(channel.state, ChannelState::EofBoth);
}

#[test]
fn test_channel_manager() {
    let mut mgr = ChannelManager::new();

    let id1 = mgr.allocate_channel_id();
    let id2 = mgr.allocate_channel_id();

    assert_eq!(id1, 0);
    assert_eq!(id2, 1);

    let ch = Channel::new(id1, 100, 1000, 32768);
    mgr.add_channel(ch);

    assert_eq!(mgr.channel_count(), 1);
    assert!(mgr.get_channel(id1).is_some());
}

#[test]
fn consume_beyond_remote_window_is_refused() {
    let mut channel = Channel::new(1, 100, 1000, 32768);
    assert_eq!(channel.consume_window(1001), Err(SshError::InsufficientRemoteWindow));
    assert_eq!(channel.remote_window, 1000);
}

#[test]
fn consume_beyond_local_window_is_refused() {
    let mut channel = Channel::new(1, 100, 1000, 32768);
    assert_eq!(channel.consume_local_window(1001), Err(SshError::InsufficientLocalWindow));
    channel.consume_local_window(1000).unwrap();
    assert_eq!(channel.local_window, 0);
}

#[test]
fn remote_window_saturates() {
    let mut channel = Channel::new(1, 100, u32::MAX - 10, 32768);
    channel.add_remote_window(100);
    assert_eq!(channel.remote_window, u32::MAX);
}

#[test]
fn eof_order_local_then_remote() {
    let mut channel = Channel::new(1, 100, 1000, 32768);
    channel.set_local_eof();
    assert_eq!(channel.state, ChannelState::LocalEof);
    assert!(!channel.can_send());
    assert!(!channel.can_receive());
    channel.set_remote_eof();
    assert_eq!(channel.state, ChannelState::EofBoth);
    channel.close();
    assert_eq!(channel.state, ChannelState::Closed);
}

#[test]
fn manager_remove_and_close_all() {
    let mut mgr = ChannelManager::new();
    for _ in 0..3 {
        let id = mgr.allocate_channel_id();
        mgr.add_channel(Channel::new(id, 200 + id, 1000, 32768));
    }
    let mut ids = mgr.channel_ids();
    ids.sort();
    assert_eq!(ids, vec![0, 1, 2]);
    let removed = mgr.remove_channel(1).unwrap();
    assert_eq!(removed.remote_id, 201);
    assert!(mgr.remove_channel(1).is_none());
    mgr.close_all();
    assert_eq!(mgr.channel_count(), 2);
    assert_eq!(mgr.get_channel(0).unwrap().state, ChannelState::Closed);
    assert_eq!(mgr.get_channel(2).unwrap().state, ChannelState::Closed);
}

#[test]
fn get_channel_mut_changes_stored_channel() {
    let mut mgr = ChannelManager::new();
    mgr.add_channel(Channel::new(7, 70, 1000, 32768));
    mgr.get_channel_mut(7).unwrap().consume_window(250).unwrap();
    assert_eq!(mgr.get_channel(7).unwrap().remote_window, 750);
    assert!(mgr.get_channel_mut(8).is_none());
}

#[test]
fn eof_order_remote_then_local_ends_the_same() {
    let mut a = Channel::new(1, 100, 1000, 32768);
    a.set_remote_eof();
    assert_eq!(a.state, ChannelState::RemoteEof);
    a.set_local_eof();
    let mut b = Channel::new(1, 100, 1000, 32768);
    b.set_local_eof();
    b.set_remote_eof();
    assert_eq!(a.state, ChannelState::EofBoth);
    assert_eq!(a.state, b.state);
    a.set_remote_eof();
    assert_eq!(a.state, ChannelState::EofBoth);
}

#[test]
fn adjusting_by_what_was_sent_restores_the_window() {
    let mut channel = Channel::new(1, 100, 1000, 32768);
    channel.consume_window(640).unwrap();
    assert_eq!(channel.remote_window, 360);
    channel.add_remote_window(640);
    assert_eq!(channel.remote_window, 1000);
}
