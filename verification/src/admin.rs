//! The admin commands: listing sessions, disconnecting a user, reloading the user
//! table, statistics and user information, answered as response values.
use vstd::prelude::*;
use vstd::utf8::encode_utf8;
use crate::auth_cache::{AuthCache, DbUser, db_lookup};
use crate::assoc::{lookup, distinct_keys};
use crate::sessions::positive_entries;
use crate::text::{concat, decimal, decimal_digits};

verus! {

/// An admin command.
#[derive(Debug, Clone)]
pub enum AdminRequest {
    ListSessions,
    Disconnect { user: String },
    Reload,
    Stats,
    UserInfo { user: String },
    CleanupExpired,
}

/// The sessions of one user.
#[derive(Debug, Clone)]
pub struct SessionInfo {
    pub username: String,
    pub active_sessions: u32,
    pub max_logins: u32,
}

/// Server statistics.
#[derive(Debug, Clone)]
pub struct ServerStats {
    pub total_users: usize,
    pub total_sessions: usize,
    pub uptime_seconds: u64,
}

/// What is known of a user.
#[derive(Debug, Clone)]
pub struct UserInfo {
    pub username: String,
    pub active_sessions: u32,
    pub max_logins: u32,
    pub expiry_date: String,
    pub expired: bool,
}

/// The data a successful response carries.
#[derive(Debug, Clone)]
pub enum AdminData {
    Sessions(Vec<SessionInfo>),
    Stats(ServerStats),
    User(UserInfo),
}

/// An admin response.
#[derive(Debug, Clone)]
pub enum AdminResponse {
    Success { data: Option<AdminData>, message: Option<String> },
    Error { error: String },
}

impl AdminResponse {
    /// Success with nothing more.
    pub fn success() -> (r: AdminResponse)
        ensures
            r matches AdminResponse::Success { data: None, message: None },
    {
        AdminResponse::Success { data: None, message: None }
    }

    /// Success with a message.
    pub fn success_with_message(message: String) -> (r: AdminResponse)
        ensures
            r matches AdminResponse::Success { data: None, message: Some(m) } && m@ == message@,
    {
        AdminResponse::Success { data: None, message: Some(message) }
    }

    /// Success with data.
    pub fn success_with_data(data: AdminData) -> (r: AdminResponse)
        ensures
            r == (AdminResponse::Success { data: Some(data), message: None }),
    {
        AdminResponse::Success { data: Some(data), message: None }
    }

    /// An error.
    pub fn error(error: String) -> (r: AdminResponse)
        ensures
            r matches AdminResponse::Error { error: e } && e@ == error@,
    {
        AdminResponse::Error { error }
    }
}

/// The text of a response message, as bytes.
pub open spec fn message_of(r: AdminResponse) -> Option<Seq<u8>> {
    match r {
        AdminResponse::Success { data: _, message: Some(m) } => Some(encode_utf8(m@)),
        _ => None,
    }
}

/// The text of an error response, as bytes.
pub open spec fn error_of(r: AdminResponse) -> Option<Seq<u8>> {
    match r {
        AdminResponse::Error { error } => Some(encode_utf8(error@)),
        _ => None,
    }
}

/// Joins strings.
fn join3(a: &str, b: &str, c: &str) -> (r: String)
    ensures
        encode_utf8(r@) == encode_utf8(a@) + encode_utf8(b@) + encode_utf8(c@),
{
    let ab = concat(a, b);
    concat(ab.as_str(), c)
}

/// The answer to listing sessions: each user with sessions, in table order, with the
/// session count and the login limit (0 for a user no longer in the table).
pub open spec fn list_sessions_outcome(cache: AuthCache, r: AdminResponse) -> bool {
    r matches AdminResponse::Success { data: Some(AdminData::Sessions(v)), message: None } && {
        let pe = positive_entries(cache.tracker().entries());
        &&& v@.len() == pe.len()
        &&& forall|i: int| 0 <= i < v@.len() ==> (#[trigger] v@[i]).username@ == pe[i].0
            && v@[i].active_sessions == pe[i].1 && v@[i].max_logins == match cache.user(pe[i].0) {
            Some(ua) => ua.max_logins,
            None => 0,
        }
    }
}

/// Disconnecting a user: the user's count drops to zero (a user with no entry keeps
/// none), the table stays, and the answer reports how many sessions ended, or an
/// error when there were none.
pub open spec fn disconnect_outcome(pre: AuthCache, post: AuthCache, username: Seq<char>, r: AdminResponse) -> bool {
    &&& post.users() == pre.users()
    &&& forall|k: Seq<char>| #[trigger] post.tracker().logins(k) == if k == username {
        match pre.tracker().logins(k) {
            Some(c) => Some(0u32),
            None => None,
        }
    } else {
        pre.tracker().logins(k)
    }
    &&& {
        let n = match pre.tracker().logins(username) {
            Some(c) => c,
            None => 0,
        };
        if n > 0 {
            message_of(r) == Some(
                encode_utf8("Disconnected "@) + decimal_digits(n as u64) + encode_utf8(" session(s) for user: "@)
                    + encode_utf8(username),
            )
        } else {
            error_of(r) == Some(
                encode_utf8("User '"@) + encode_utf8(username) + encode_utf8("' has no active sessions"@),
            )
        }
    }
}

/// Reloading: the rows read replace the table and the answer counts the users; a
/// failed read leaves the table and is reported. Session counts stay.
pub open spec fn reload_outcome(
    pre: AuthCache,
    post: AuthCache,
    reloaded: Option<Result<Vec<DbUser>, String>>,
    r: AdminResponse,
) -> bool {
    &&& post.tracker() == pre.tracker()
    &&& match reloaded {
        Some(Ok(rows)) => (forall|k: Seq<char>| #[trigger] post.user(k) == db_lookup(rows@, k)) && distinct_keys(
            post.users(),
        ) && message_of(r) == Some(
            encode_utf8("Reloaded "@) + decimal_digits(post.users().len() as u64) + encode_utf8(
                " users from database"@,
            ),
        ),
        Some(Err(e)) => post.users() == pre.users() && error_of(r) == Some(
            encode_utf8("Failed to reload: "@) + encode_utf8(e@),
        ),
        None => post.users() == pre.users() && error_of(r) == Some(
            encode_utf8("Failed to reload: "@) + encode_utf8("no user rows"@),
        ),
    }
}

/// The statistics answer: users in the table, sessions in all (saturating), uptime.
pub open spec fn stats_outcome(cache: AuthCache, uptime_seconds: u64, r: AdminResponse) -> bool {
    r matches AdminResponse::Success { data: Some(AdminData::Stats(st)), message: None } && st.total_users
        == cache.users().len() && st.uptime_seconds == uptime_seconds && st.total_sessions == saturating_total(
        positive_entries(cache.tracker().entries()),
    )
}

/// The user information answer, or an error for a user not in the table.
pub open spec fn user_info_outcome(cache: AuthCache, username: Seq<char>, r: AdminResponse) -> bool {
    match cache.user(username) {
        None => error_of(r) == Some(encode_utf8("User '"@) + encode_utf8(username) + encode_utf8("' not found"@)),
        Some(ua) => r matches AdminResponse::Success { data: Some(AdminData::User(info)), message: None }
            && info.username@ == username && info.max_logins == ua.max_logins && info.expiry_date@
            == ua.expiry_date@ && info.active_sessions == match cache.tracker().logins(username) {
            Some(c) => c,
            None => 0,
        },
    }
}

/// Cleaning up: as reloading, the answer counting the users that remain.
pub open spec fn cleanup_outcome(
    pre: AuthCache,
    post: AuthCache,
    reloaded: Option<Result<Vec<DbUser>, String>>,
    r: AdminResponse,
) -> bool {
    &&& post.tracker() == pre.tracker()
    &&& match reloaded {
        Some(Ok(rows)) => (forall|k: Seq<char>| #[trigger] post.user(k) == db_lookup(rows@, k)) && message_of(r)
            == Some(decimal_digits(post.users().len() as u64) + encode_utf8(" active users after cleanup"@)),
        Some(Err(e)) => post.users() == pre.users() && error_of(r) == Some(
            encode_utf8("Cleanup failed: "@) + encode_utf8(e@),
        ),
        None => post.users() == pre.users() && error_of(r) == Some(
            encode_utf8("Cleanup failed: "@) + encode_utf8("no user rows"@),
        ),
    }
}

/// Answers admin commands against the user table and session counts.
pub struct AdminHandler {}

impl AdminHandler {
    /// A handler.
    pub fn new() -> (h: AdminHandler) {
        AdminHandler {  }
    }

    /// Whether the command needs the user rows read again from the database.
    pub fn needs_reload(request: &AdminRequest) -> (r: bool)
        ensures
            r == (request is Reload || request is CleanupExpired),
    {
        match request {
            AdminRequest::Reload | AdminRequest::CleanupExpired => true,
            _ => false,
        }
    }

    /// Answers a command. `reloaded` is what reading the database gave (for reload
    /// and cleanup); `uptime_seconds` is the process uptime (for statistics).
    pub fn handle_request(
        &self,
        cache: &mut AuthCache,
        request: AdminRequest,
        reloaded: Option<Result<Vec<DbUser>, String>>,
        uptime_seconds: u64,
    ) -> (r: AdminResponse)
        ensures
            match request {
                AdminRequest::ListSessions => list_sessions_outcome(*old(cache), r) && *final(cache) == *old(cache),
                AdminRequest::Disconnect { user } => disconnect_outcome(*old(cache), *final(cache), user@, r),
                AdminRequest::Reload => reload_outcome(*old(cache), *final(cache), reloaded, r),
                AdminRequest::Stats => stats_outcome(*old(cache), uptime_seconds, r) && *final(cache) == *old(cache),
                AdminRequest::UserInfo { user } => user_info_outcome(*old(cache), user@, r) && *final(cache) == *old(cache),
                AdminRequest::CleanupExpired => cleanup_outcome(*old(cache), *final(cache), reloaded, r),
            },
            !(request is Reload || request is CleanupExpired) ==> final(cache).users() == old(cache).users(),
            !(request is Disconnect) ==> final(cache).tracker() == old(cache).tracker(),
    {
        match request {
            AdminRequest::ListSessions => self.handle_list_sessions(cache),
            AdminRequest::Disconnect { user } => self.handle_disconnect(cache, user),
            AdminRequest::Reload => self.handle_reload(cache, reloaded),
            AdminRequest::Stats => self.handle_stats(cache, uptime_seconds),
            AdminRequest::UserInfo { user } => self.handle_user_info(cache, user),
            AdminRequest::CleanupExpired => self.handle_cleanup_expired(cache, reloaded),
        }
    }

    /// Lists the users with sessions: name, session count and login limit (0 for a
    /// user no longer in the table).
    pub fn handle_list_sessions(&self, cache: &AuthCache) -> (r: AdminResponse)
        ensures
            list_sessions_outcome(*cache, r),
    {
        let all_sessions = cache.sessions().all_sessions();
        let ghost pe = positive_entries(cache.tracker().entries());
        let mut infos: Vec<SessionInfo> = Vec::new();
        let mut i: usize = 0;
        while i < all_sessions.len()
            invariant
                i <= all_sessions@.len(),
                all_sessions@.map_values(|e: (String, u32)| (e.0@, e.1)) == pe,
                pe == positive_entries(cache.tracker().entries()),
                infos@.len() == i,
                forall|j: int| 0 <= j < i ==> (#[trigger] infos@[j]).username@ == pe[j].0
                    && infos@[j].active_sessions == pe[j].1 && infos@[j].max_logins == match cache.user(pe[j].0) {
                    Some(ua) => ua.max_logins,
                    None => 0,
                },
            decreases all_sessions@.len() - i,
        {
            let (username, active_count) = (all_sessions[i].0.clone(), all_sessions[i].1);
            proof {
                assert(pe[i as int] == (all_sessions@[i as int].0@, all_sessions@[i as int].1));
            }
            let max_logins = match cache.get_user_max_logins(username.as_str()) {
                Some(m) => m,
                None => 0,
            };
            infos.push(SessionInfo { username, active_sessions: active_count, max_logins });
            i = i + 1;
        }
        AdminResponse::success_with_data(AdminData::Sessions(infos))
    }

    /// Ends all of a user's sessions; an error when the user had none.
    pub fn handle_disconnect(&self, cache: &mut AuthCache, username: String) -> (r: AdminResponse)
        ensures
            disconnect_outcome(*old(cache), *final(cache), username@, r),
    {
        let disconnected = cache.force_disconnect(username.as_str());
        if disconnected > 0 {
            let count = decimal(disconnected as u64);
            let head = join3("Disconnected ", count.as_str(), " session(s) for user: ");
            let msg = concat(head.as_str(), username.as_str());
            AdminResponse::success_with_message(msg)
        } else {
            let msg = join3("User '", username.as_str(), "' has no active sessions");
            AdminResponse::error(msg)
        }
    }

    /// Replaces the user table with the rows read again; reports the user count, or
    /// the read's error.
    pub fn handle_reload(&self, cache: &mut AuthCache, reloaded: Option<Result<Vec<DbUser>, String>>) -> (r:
        AdminResponse)
        ensures
            reload_outcome(*old(cache), *final(cache), reloaded, r),
    {
        match reloaded {
            Some(Ok(rows)) => {
                let _ = cache.reload(rows);
                let count = cache.user_count();
                let msg = join3("Reloaded ", decimal(count as u64).as_str(), " users from database");
                AdminResponse::success_with_message(msg)
            },
            Some(Err(e)) => AdminResponse::error(concat("Failed to reload: ", e.as_str())),
            None => AdminResponse::error(concat("Failed to reload: ", "no user rows")),
        }
    }

    /// Statistics: users in the table, sessions in all (saturating), uptime.
    pub fn handle_stats(&self, cache: &AuthCache, uptime_seconds: u64) -> (r: AdminResponse)
        ensures
            stats_outcome(*cache, uptime_seconds, r),
    {
        let all_sessions = cache.sessions().all_sessions();
        let ghost pe = positive_entries(cache.tracker().entries());
        let mut total: usize = 0;
        let mut i: usize = 0;
        while i < all_sessions.len()
            invariant
                i <= all_sessions@.len(),
                all_sessions@.map_values(|e: (String, u32)| (e.0@, e.1)) == pe,
                total == saturating_total(pe.subrange(0, i as int)),
            decreases all_sessions@.len() - i,
        {
            proof {
                assert(pe.subrange(0, i + 1).drop_last() =~= pe.subrange(0, i as int));
                assert(pe[i as int].1 == all_sessions@[i as int].1);
            }
            total = total.saturating_add(all_sessions[i].1 as usize);
            i = i + 1;
        }
        assert(pe.subrange(0, pe.len() as int) =~= pe);
        let stats = ServerStats { total_users: cache.user_count(), total_sessions: total, uptime_seconds };
        AdminResponse::success_with_data(AdminData::Stats(stats))
    }

    /// What is known of a user: sessions, limit, expiry (`unknown` without one) and
    /// whether expired now; an error for a user not in the table.
    pub fn handle_user_info(&self, cache: &AuthCache, username: String) -> (r: AdminResponse)
        ensures
            user_info_outcome(*cache, username@, r),
    {
        let active_sessions = cache.active_logins(username.as_str());
        let max_logins = match cache.get_user_max_logins(username.as_str()) {
            Some(m) => m,
            None => {
                let msg = join3("User '", username.as_str(), "' not found");
                return AdminResponse::error(msg);
            },
        };
        let expiry_date = match cache.get_user_expiry(username.as_str()) {
            Some(e) => e,
            None => "unknown".to_owned(),
        };
        let expired = match cache.is_user_expired(username.as_str()) {
            Ok(b) => b,
            Err(_) => true,
        };
        let info = UserInfo { username, active_sessions, max_logins, expiry_date, expired };
        AdminResponse::success_with_data(AdminData::User(info))
    }

    /// Reloads the user table (the database leaves expired users out) and reports how
    /// many remain, or the read's error.
    pub fn handle_cleanup_expired(&self, cache: &mut AuthCache, reloaded: Option<Result<Vec<DbUser>, String>>) -> (r:
        AdminResponse)
        ensures
            cleanup_outcome(*old(cache), *final(cache), reloaded, r),
    {
        match reloaded {
            Some(Ok(rows)) => {
                let _ = cache.reload(rows);
                let count = cache.user_count();
                let msg = concat(decimal(count as u64).as_str(), " active users after cleanup");
                AdminResponse::success_with_message(msg)
            },
            Some(Err(e)) => AdminResponse::error(concat("Cleanup failed: ", e.as_str())),
            None => AdminResponse::error(concat("Cleanup failed: ", "no user rows")),
        }
    }
}

/// The sum of the counts, saturating at `usize::MAX`, left to right.
pub open spec fn saturating_total(s: Seq<(Seq<char>, u32)>) -> usize
    decreases s.len(),
{
    if s.len() == 0 {
        0
    } else {
        let prev = saturating_total(s.drop_last());
        if prev + s.last().1 > usize::MAX {
            usize::MAX
        } else {
            (prev + s.last().1) as usize
        }
    }
}

} // verus!
