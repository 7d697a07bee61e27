use ssh_forwarder::window::WindowController;
use ssh_forwarder::error::SshError;

#[test]
fn test_window_controller() {
    let mut wc = WindowController::new(1000, 50);

    assert_eq!(wc.current_size(), 1000);

    wc.consume(600).unwrap();
    assert_eq!(wc.current_size(), 400);

    assert!(wc.check_refill().is_some());
    assert_eq!(wc.current_size(), 1000);
}

#[test]
fn test_window_no_refill_above_threshold() {
    let mut wc = WindowController::new(1000, 50);

    wc.consume(400).unwrap();
    assert_eq!(wc.current_size(), 600);

    assert!(wc.check_refill().is_none());
}

#[test]
fn refill_returns_consumed_amount() {
    let mut wc = WindowController::new(1000, 50);
    wc.consume(500).unwrap();
    assert_eq!(wc.check_refill(), Some(500));
    assert_eq!(wc.current_size(), 1000);
}

#[test]
fn consume_past_window_is_refused() {
    let mut wc = WindowController::new(1000, 50);
    assert_eq!(wc.consume(1001), Err(SshError::WindowOverflow));
    assert_eq!(wc.current_size(), 1000);
    assert!(wc.has_space(1000));
    assert!(!wc.has_space(1001));
}

#[test]
fn force_refill_and_reset() {
    let mut wc = WindowController::new(1000, 50);
    wc.consume(100).unwrap();
    assert_eq!(wc.force_refill(), 100);
    assert_eq!(wc.current_size(), 1000);
    wc.consume(300).unwrap();
    wc.reset();
    assert_eq!(wc.current_size(), 1000);
    assert_eq!(wc.force_refill(), 0);
}
