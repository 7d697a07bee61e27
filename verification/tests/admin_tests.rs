use ssh_forwarder::admin::{AdminData, AdminHandler, AdminRequest, AdminResponse};
use ssh_forwarder::auth_cache::{AuthCache, DbUser};

fn user(id: i64, name: &str, expiry: &str, max_logins: u32) -> DbUser {
    DbUser {
        id,
        username: name.to_string(),
        password: "pw".to_string(),
        created_date: "2024-01-01 00:00:00".to_string(),
        expiry_date: expiry.to_string(),
        max_logins,
    }
}

fn cache() -> AuthCache {
    AuthCache::from_users(
        vec![user(1, "alice", "2999-01-01 00:00:00", 3), user(2, "bob", "2000-01-01 00:00:00", 1)],
        "users.db".to_string(),
    )
}

fn message(r: &AdminResponse) -> Option<String> {
    match r {
        AdminResponse::Success { message, .. } => message.clone(),
        AdminResponse::Error { .. } => None,
    }
}

fn error(r: &AdminResponse) -> Option<String> {
    match r {
        AdminResponse::Error { error } => Some(error.clone()),
        _ => None,
    }
}

#[test]
fn response_constructors() {
    assert!(matches!(AdminResponse::success(), AdminResponse::Success { data: None, message: None }));
    assert_eq!(message(&AdminResponse::success_with_message("ok".to_string())), Some("ok".to_string()));
    assert_eq!(error(&AdminResponse::error("bad".to_string())), Some("bad".to_string()));
}

#[test]
fn list_sessions_reports_counts_and_limits() {
    let mut c = cache();
    c.record_login("alice");
    c.record_login("alice");
    c.record_login("carol");
    let h = AdminHandler::new();
    match h.handle_request(&mut c, AdminRequest::ListSessions, None, 0) {
        AdminResponse::Success { data: Some(AdminData::Sessions(v)), message: None } => {
            assert_eq!(v.len(), 2);
            assert_eq!(v[0].username, "alice");
            assert_eq!(v[0].active_sessions, 2);
            assert_eq!(v[0].max_logins, 3);
            assert_eq!(v[1].username, "carol");
            assert_eq!(v[1].max_logins, 0);
        }
        _ => panic!("expected session list"),
    }
}

#[test]
fn disconnect_messages() {
    let mut c = cache();
    c.record_login("alice");
    c.record_login("alice");
    let h = AdminHandler::new();
    let r = h.handle_request(&mut c, AdminRequest::Disconnect { user: "alice".to_string() }, None, 0);
    assert_eq!(message(&r), Some("Disconnected 2 session(s) for user: alice".to_string()));
    assert_eq!(c.active_logins("alice"), 0);
    let r = h.handle_request(&mut c, AdminRequest::Disconnect { user: "alice".to_string() }, None, 0);
    assert_eq!(error(&r), Some("User 'alice' has no active sessions".to_string()));
}

#[test]
fn reload_and_cleanup() {
    let mut c = cache();
    let h = AdminHandler::new();
    assert!(AdminHandler::needs_reload(&AdminRequest::Reload));
    assert!(AdminHandler::needs_reload(&AdminRequest::CleanupExpired));
    assert!(!AdminHandler::needs_reload(&AdminRequest::Stats));
    let rows = vec![user(3, "dave", "2999-01-01 00:00:00", 1)];
    let r = h.handle_request(&mut c, AdminRequest::Reload, Some(Ok(rows.clone())), 0);
    assert_eq!(message(&r), Some("Reloaded 1 users from database".to_string()));
    assert_eq!(c.user_count(), 1);
    let r = h.handle_request(&mut c, AdminRequest::CleanupExpired, Some(Ok(Vec::new())), 0);
    assert_eq!(message(&r), Some("0 active users after cleanup".to_string()));
    let r = h.handle_request(&mut c, AdminRequest::Reload, Some(Err("disk gone".to_string())), 0);
    assert_eq!(error(&r), Some("Failed to reload: disk gone".to_string()));
    let r = h.handle_request(&mut c, AdminRequest::CleanupExpired, Some(Err("locked".to_string())), 0);
    assert_eq!(error(&r), Some("Cleanup failed: locked".to_string()));
}

#[test]
fn stats_and_user_info() {
    let mut c = cache();
    c.record_login("alice");
    c.record_login("bob");
    let h = AdminHandler::new();
    match h.handle_request(&mut c, AdminRequest::Stats, None, 77) {
        AdminResponse::Success { data: Some(AdminData::Stats(s)), .. } => {
            assert_eq!(s.total_users, 2);
            assert_eq!(s.total_sessions, 2);
            assert_eq!(s.uptime_seconds, 77);
        }
        _ => panic!("expected stats"),
    }
    match h.handle_request(&mut c, AdminRequest::UserInfo { user: "bob".to_string() }, None, 0) {
        AdminResponse::Success { data: Some(AdminData::User(u)), .. } => {
            assert_eq!(u.username, "bob");
            assert_eq!(u.active_sessions, 1);
            assert_eq!(u.max_logins, 1);
            assert_eq!(u.expiry_date, "2000-01-01 00:00:00");
            assert!(u.expired);
        }
        _ => panic!("expected user info"),
    }
    let r = h.handle_request(&mut c, AdminRequest::UserInfo { user: "zed".to_string() }, None, 0);
    assert_eq!(error(&r), Some("User 'zed' not found".to_string()));
}
