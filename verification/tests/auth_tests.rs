use ssh_forwarder::auth_cache::{AuthCache, AuthError, DbUser};
use ssh_forwarder::auth_handler::{AuthState, TransportAuthHandler};
use ssh_forwarder::guard::{ChannelGuard, SessionGuard};
use ssh_forwarder::sessions::SessionTracker;
use ssh_forwarder::error::SshError;
use ssh_forwarder::wire::write_ssh_string;

fn user(id: i64, name: &str, password: &str, expiry: &str, max_logins: u32) -> DbUser {
    DbUser {
        id,
        username: name.to_string(),
        password: password.to_string(),
        created_date: "2024-01-01 00:00:00".to_string(),
        expiry_date: expiry.to_string(),
        max_logins,
    }
}

#[test]
fn test_auth_handler_init() {
    // Creating a handler does not fail.
    let handler = TransportAuthHandler::new();
    assert_eq!(handler.state(), AuthState::WaitingServiceRequest);
}

#[test]
fn test_session_tracking() {
    let mut tracker = SessionTracker::new();

    assert!(tracker.can_login("alice", 2));
    tracker.increment_login("alice");
    assert_eq!(tracker.active_logins("alice"), 1);

    assert!(tracker.can_login("alice", 2));
    tracker.increment_login("alice");
    assert_eq!(tracker.active_logins("alice"), 2);

    assert!(!tracker.can_login("alice", 2));

    tracker.decrement_login("alice");
    assert_eq!(tracker.active_logins("alice"), 1);
    assert!(tracker.can_login("alice", 2));
}

#[test]
fn test_session_guard() {
    let mut cache = AuthCache::from_users(Vec::new(), ":memory:".to_string());
    {
        let guard = SessionGuard::new("test".to_string());
        guard.finish(&mut cache);
    }
    assert_eq!(cache.active_logins("test"), 0);
}

#[test]
fn session_guard_records_logout_once() {
    let mut cache = AuthCache::from_users(Vec::new(), "db".to_string());
    cache.record_login("bob");
    cache.record_login("bob");
    SessionGuard::new("bob".to_string()).finish(&mut cache);
    assert_eq!(cache.active_logins("bob"), 1);
    SessionGuard::new("bob".to_string()).release();
    assert_eq!(cache.active_logins("bob"), 1);
    let g = ChannelGuard::new(5);
    assert_eq!(g.channel_id(), 5);
}

#[test]
fn tracker_decrement_stays_at_zero_and_force_disconnect() {
    let mut tracker = SessionTracker::new();
    tracker.decrement_login("nobody");
    assert_eq!(tracker.active_logins("nobody"), 0);
    tracker.increment_login("carol");
    tracker.decrement_login("carol");
    tracker.decrement_login("carol");
    assert_eq!(tracker.active_logins("carol"), 0);
    assert!(tracker.can_login("carol", 1));
    tracker.increment_login("carol");
    tracker.increment_login("carol");
    assert_eq!(tracker.force_disconnect("carol"), 2);
    assert_eq!(tracker.active_logins("carol"), 0);
    assert_eq!(tracker.force_disconnect("dave"), 0);
}

#[test]
fn tracker_all_sessions_lists_positive_counts_in_order() {
    let mut tracker = SessionTracker::new();
    tracker.increment_login("a");
    tracker.increment_login("b");
    tracker.increment_login("b");
    tracker.increment_login("c");
    tracker.force_disconnect("c");
    assert_eq!(tracker.all_sessions(), vec![("a".to_string(), 1), ("b".to_string(), 2)]);
}

#[test]
fn cache_last_row_wins_and_counts_distinct_users() {
    let rows = vec![
        user(1, "alice", "one", "2999-01-01 00:00:00", 1),
        user(2, "bob", "two", "2999-01-01 00:00:00", 2),
        user(3, "alice", "three", "2999-01-01 00:00:00", 3),
    ];
    let cache = AuthCache::from_users(rows, "users.db".to_string());
    assert_eq!(cache.user_count(), 2);
    assert_eq!(cache.get_user_max_logins("alice"), Some(3));
    assert_eq!(cache.authenticate_at("alice", "three", "2025-01-01 00:00:00"), Ok(true));
    assert_eq!(cache.authenticate_at("alice", "one", "2025-01-01 00:00:00"), Err(AuthError::InvalidPassword));
    assert_eq!(cache.db_path(), "users.db");
}

#[test]
fn authenticate_each_error() {
    let rows = vec![
        user(1, "old", "pw", "2020-01-01 00:00:00", 1),
        user(2, "new", "pw", "2999-01-01 00:00:00", 1),
    ];
    let mut cache = AuthCache::from_users(rows, "db".to_string());
    let now = "2025-06-01 12:00:00";
    assert_eq!(cache.authenticate_at("ghost", "pw", now), Err(AuthError::UserNotFound));
    assert_eq!(cache.authenticate_at("new", "bad", now), Err(AuthError::InvalidPassword));
    assert_eq!(cache.authenticate_at("old", "pw", now), Err(AuthError::UserExpired));
    assert_eq!(cache.authenticate_at("new", "pw", now), Ok(true));
    cache.record_login("new");
    assert_eq!(cache.authenticate_at("new", "pw", now), Err(AuthError::LoginLimitExceeded));
    // An expiry equal to now counts as expired.
    assert_eq!(cache.authenticate_at("new", "pw", "2999-01-01 00:00:00"), Err(AuthError::UserExpired));
}

#[test]
fn authenticate_uses_the_clock() {
    let rows = vec![
        user(1, "old", "pw", "2000-01-01 00:00:00", 1),
        user(2, "new", "pw", "9999-01-01 00:00:00", 1),
    ];
    let cache = AuthCache::from_users(rows, "db".to_string());
    assert_eq!(cache.authenticate("new", "pw"), Ok(true));
    assert_eq!(cache.authenticate("old", "pw"), Err(AuthError::UserExpired));
    assert_eq!(cache.is_user_expired("old"), Ok(true));
    assert_eq!(cache.is_user_expired("new"), Ok(false));
    assert_eq!(cache.is_user_expired("ghost"), Ok(true));
    assert_eq!(AuthError::UserExpired.message(), "User account expired");
}

#[test]
fn reload_replaces_users_and_keeps_sessions() {
    let mut cache = AuthCache::from_users(vec![user(1, "a", "x", "2999-01-01 00:00:00", 1)], "db".to_string());
    cache.record_login("a");
    cache.reload(vec![user(2, "b", "y", "2999-01-01 00:00:00", 4)]).unwrap();
    assert_eq!(cache.user_count(), 1);
    assert_eq!(cache.get_user_expiry("a"), None);
    assert_eq!(cache.get_user_expiry("b"), Some("2999-01-01 00:00:00".to_string()));
    assert_eq!(cache.active_logins("a"), 1);
}

fn userauth_request(user: &str, service: &str, method: &str, password: Option<&str>) -> Vec<u8> {
    let mut p = Vec::new();
    write_ssh_string(&mut p, user.as_bytes());
    write_ssh_string(&mut p, service.as_bytes());
    write_ssh_string(&mut p, method.as_bytes());
    if let Some(pw) = password {
        p.push(0);
        write_ssh_string(&mut p, pw.as_bytes());
    }
    p
}

fn failure_reply() -> Vec<u8> {
    vec![0, 0, 0, 8, b'p', b'a', b's', b's', b'w', b'o', b'r', b'd', 0]
}

#[test]
fn service_request_reads_an_ssh_string() {
    let mut cache = AuthCache::from_users(Vec::new(), "db".to_string());
    let mut h = TransportAuthHandler::new();
    assert_eq!(h.process_auth_message(&mut cache, 5, b"ssh-userauth"), Err(SshError::InvalidService));
    let mut request = Vec::new();
    write_ssh_string(&mut request, b"ssh-userauth");
    let (resp, ok) = h.process_auth_message(&mut cache, 5, &request).unwrap();
    assert!(!ok);
    let mut expected = Vec::new();
    write_ssh_string(&mut expected, b"ssh-userauth");
    assert_eq!(resp, Some(expected));
    assert_eq!(h.state(), AuthState::WaitingUserauth);
    let mut other = Vec::new();
    write_ssh_string(&mut other, b"ssh-connection");
    assert_eq!(h.process_auth_message(&mut cache, 5, &other), Err(SshError::InvalidService));
    assert_eq!(h.process_auth_message(&mut cache, 7, b""), Err(SshError::UnexpectedAuthMessage));
}

#[test]
fn password_login_success_and_logout() {
    let mut cache = AuthCache::from_users(vec![user(1, "alice", "secret", "9999-01-01 00:00:00", 2)], "db".to_string());
    let mut h = TransportAuthHandler::new();
    let req = userauth_request("alice", "ssh-connection", "password", Some("secret"));
    let (resp, ok) = h.process_auth_message(&mut cache, 50, &req).unwrap();
    assert!(ok);
    assert_eq!(resp, Some(Vec::new()));
    assert!(h.is_authenticated());
    assert_eq!(h.username(), Some("alice"));
    assert_eq!(cache.active_logins("alice"), 1);
    h.record_logout(&mut cache);
    assert_eq!(cache.active_logins("alice"), 0);
}

#[test]
fn failed_logins_are_limited() {
    let mut cache = AuthCache::from_users(vec![user(1, "alice", "secret", "9999-01-01 00:00:00", 2)], "db".to_string());
    let mut h = TransportAuthHandler::new();
    let bad = userauth_request("alice", "ssh-connection", "password", Some("wrong"));
    for _ in 0..5 {
        let (resp, ok) = h.process_auth_message(&mut cache, 50, &bad).unwrap();
        assert!(!ok);
        assert_eq!(resp, Some(failure_reply()));
    }
    let (resp, ok) = h.process_auth_message(&mut cache, 50, &bad).unwrap();
    assert!(!ok);
    let mut expected = vec![0, 0, 0, 12];
    write_ssh_string(&mut expected, b"Too many authentication failures");
    write_ssh_string(&mut expected, b"");
    assert_eq!(resp, Some(expected));
    assert_eq!(h.state(), AuthState::Failed);
}

#[test]
fn wrong_service_and_other_methods_are_refused() {
    let mut cache = AuthCache::from_users(vec![user(1, "alice", "secret", "9999-01-01 00:00:00", 2)], "db".to_string());
    let mut h = TransportAuthHandler::new();
    let req = userauth_request("alice", "ssh-other", "password", Some("secret"));
    assert_eq!(h.process_auth_message(&mut cache, 50, &req).unwrap(), (Some(failure_reply()), false));
    let req = userauth_request("alice", "ssh-connection", "publickey", None);
    assert_eq!(h.process_auth_message(&mut cache, 50, &req).unwrap(), (Some(failure_reply()), false));
    let req = userauth_request("alice", "ssh-connection", "password", None);
    assert_eq!(h.process_auth_message(&mut cache, 50, &req).unwrap(), (Some(failure_reply()), false));
    assert_eq!(h.process_auth_message(&mut cache, 50, &[0, 0]), Err(SshError::StringLengthMissing));
}

#[test]
fn login_limit_gives_disconnect() {
    let mut cache = AuthCache::from_users(vec![user(1, "alice", "secret", "9999-01-01 00:00:00", 1)], "db".to_string());
    cache.record_login("alice");
    let mut h = TransportAuthHandler::new();
    let req = userauth_request("alice", "ssh-connection", "password", Some("secret"));
    let (resp, ok) = h.process_auth_message(&mut cache, 50, &req).unwrap();
    assert!(!ok);
    let mut expected = vec![0, 0, 0, 12];
    write_ssh_string(&mut expected, b"Login limit exceeded");
    write_ssh_string(&mut expected, b"");
    assert_eq!(resp, Some(expected));
    assert_eq!(cache.active_logins("alice"), 1);
}

#[test]
fn logout_undoes_login() {
    let mut tracker = SessionTracker::new();
    tracker.increment_login("bob");
    tracker.increment_login("bob");
    tracker.increment_login("carol");
    tracker.decrement_login("carol");
    assert_eq!(tracker.active_logins("bob"), 2);
    assert_eq!(tracker.active_logins("carol"), 0);
    tracker.increment_login("bob");
    tracker.decrement_login("bob");
    assert_eq!(tracker.active_logins("bob"), 2);
}
