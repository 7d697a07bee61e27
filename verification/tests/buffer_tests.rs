use ssh_forwarder::buffer::{AdaptiveBufferManager, BufferMode};

#[test]
fn test_buffer_mode_starts_standard() {
    let mgr = AdaptiveBufferManager::new(1_000_000);
    assert_eq!(mgr.current_mode(), BufferMode::Standard);
}

#[test]
fn test_buffer_size() {
    let mgr = AdaptiveBufferManager::new(1_000_000);
    assert_eq!(mgr.buffer_size(16384, 65536), 16384);
}

#[test]
fn switch_after_short_window_keeps_mode() {
    let mut mgr = AdaptiveBufferManager::new(1_000_000);
    mgr.record_transfer(50_000_000);
    assert_eq!(mgr.switch_after(4), None);
    assert_eq!(mgr.current_mode(), BufferMode::Standard);
}

#[test]
fn switch_after_fast_window_goes_high_throughput() {
    let mut mgr = AdaptiveBufferManager::new(1_000_000);
    mgr.record_transfer(50_000_000);
    assert_eq!(mgr.switch_after(5), Some(BufferMode::HighThroughput));
    assert_eq!(mgr.buffer_size(16384, 65536), 65536);
}

#[test]
fn switch_after_slow_window_stays_standard() {
    let mut mgr = AdaptiveBufferManager::new(1_000_000);
    mgr.record_transfer(1000);
    assert_eq!(mgr.switch_after(5), None);
    assert_eq!(mgr.current_mode(), BufferMode::Standard);
}
