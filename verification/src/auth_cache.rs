//! The in-memory user table: password check, expiry and login limits.
use vstd::prelude::*;
use vstd::utf8::encode_utf8;
use crate::assoc::{lookup, distinct_keys, find_last, lemma_lookup_push, lemma_lookup_update};
use crate::sessions::SessionTracker;
use crate::text::{str_eq, str_le, bytes_le};

verus! {

/// What the cache keeps of a user.
#[derive(Debug, Clone)]
pub struct UserAuth {
    pub password: String,
    pub expiry_date: String,
    pub max_logins: u32,
}

/// A user row of the database.
#[derive(Debug, Clone)]
pub struct DbUser {
    pub id: i64,
    pub username: String,
    pub password: String,
    pub created_date: String,
    pub expiry_date: String,
    pub max_logins: u32,
}

/// Why a login was refused.
#[derive(Debug, Clone, Copy, PartialEq, Eq, Structural)]
pub enum AuthError {
    UserNotFound,
    InvalidPassword,
    UserExpired,
    LoginLimitExceeded,
}

impl AuthError {
    /// The message for the error.
    pub fn message(&self) -> (s: &'static str)
        ensures
            s@ == match self {
                AuthError::UserNotFound => "User not found"@,
                AuthError::InvalidPassword => "Invalid password"@,
                AuthError::UserExpired => "User account expired"@,
                AuthError::LoginLimitExceeded => "Login limit exceeded"@,
            },
    {
        match self {
            AuthError::UserNotFound => "User not found",
            AuthError::InvalidPassword => "Invalid password",
            AuthError::UserExpired => "User account expired",
            AuthError::LoginLimitExceeded => "Login limit exceeded",
        }
    }
}

/// The current UTC time as `YYYY-MM-DD HH:MM:SS`.
///
/// Calls `chrono::Utc::now` and formats it with `format("%Y-%m-%d %H:%M:%S")`.
/// Nothing is claimed: the value is the clock's.
#[verifier::external_body]
pub(crate) fn utc_now_string() -> String {
    chrono::Utc::now().format("%Y-%m-%d %H:%M:%S").to_string()
}

/// What the cache keeps of a database row.
pub open spec fn user_auth_of(u: DbUser) -> UserAuth {
    UserAuth { password: u.password, expiry_date: u.expiry_date, max_logins: u.max_logins }
}

/// The entry the last row with a user name gives, as a map insertion per row would.
pub open spec fn db_lookup(rows: Seq<DbUser>, k: Seq<char>) -> Option<UserAuth>
    decreases rows.len(),
{
    if rows.len() == 0 {
        None
    } else if rows.last().username@ == k {
        Some(user_auth_of(rows.last()))
    } else {
        db_lookup(rows.drop_last(), k)
    }
}

/// An expiry date is past when it sorts at or before now (byte-wise).
pub open spec fn expired_at(expiry: Seq<char>, now: Seq<char>) -> bool {
    bytes_le(encode_utf8(expiry), encode_utf8(now))
}

/// The outcome of a login: unknown user, wrong password, expired account, too many
/// sessions (counted `logins`), in that order of checks.
pub open spec fn spec_authenticate(
    user: Option<UserAuth>,
    logins: Option<u32>,
    password: Seq<char>,
    now: Seq<char>,
) -> Result<bool, AuthError> {
    match user {
        None => Err(AuthError::UserNotFound),
        Some(ua) => if ua.password@ != password {
            Err(AuthError::InvalidPassword)
        } else if expired_at(ua.expiry_date@, now) {
            Err(AuthError::UserExpired)
        } else if !(match logins {
            Some(c) => c < ua.max_logins,
            None => true,
        }) {
            Err(AuthError::LoginLimitExceeded)
        } else {
            Ok(true)
        },
    }
}

/// Sets the entry for `name`, replacing one that is there.
fn insert_user(users: &mut Vec<(String, UserAuth)>, name: String, auth: UserAuth)
    requires
        distinct_keys(old(users)@),
    ensures
        distinct_keys(final(users)@),
        forall|k: Seq<char>| #[trigger] lookup(final(users)@, k) == if k == name@ {
            Some(auth)
        } else {
            lookup(old(users)@, k)
        },
{
    let ghost pre = users@;
    let ghost e = (name, auth);
    match find_last(users, name.as_str()) {
        Some(i) => {
            users.set(i, (name, auth));
            proof {
                assert forall|k: Seq<char>| #[trigger] lookup(users@, k) == if k == e.0@ {
                    Some(e.1)
                } else {
                    lookup(pre, k)
                } by {
                    lemma_lookup_update(pre, i as int, e, k);
                }
                assert forall|a: int, b: int| 0 <= a < b < users@.len() implies #[trigger] users@[a].0@
                    != #[trigger] users@[b].0@ by {
                    assert(users@[a].0@ == pre[a].0@);
                    assert(users@[b].0@ == pre[b].0@);
                }
            }
        },
        None => {
            users.push((name, auth));
            proof {
                assert forall|k: Seq<char>| #[trigger] lookup(users@, k) == if k == e.0@ {
                    Some(e.1)
                } else {
                    lookup(pre, k)
                } by {
                    lemma_lookup_push(pre, e, k);
                }
                assert forall|a: int, b: int| 0 <= a < b < users@.len() implies #[trigger] users@[a].0@
                    != #[trigger] users@[b].0@ by {
                    if b == pre.len() {
                        assert(pre[a].0@ != e.0@);
                    } else {
                        assert(users@[a] == pre[a]);
                        assert(users@[b] == pre[b]);
                    }
                }
            }
        },
    }
}

/// The table the rows give: one entry per user name, the last row winning.
fn table_of(rows: &Vec<DbUser>) -> (t: Vec<(String, UserAuth)>)
    ensures
        distinct_keys(t@),
        forall|k: Seq<char>| #[trigger] lookup(t@, k) == db_lookup(rows@, k),
{
    let mut t: Vec<(String, UserAuth)> = Vec::new();
    let mut i: usize = 0;
    while i < rows.len()
        invariant
            i <= rows@.len(),
            distinct_keys(t@),
            forall|k: Seq<char>| #[trigger] lookup(t@, k) == db_lookup(rows@.subrange(0, i as int), k),
        decreases rows@.len() - i,
    {
        let row = &rows[i];
        let auth = UserAuth {
            password: row.password.clone(),
            expiry_date: row.expiry_date.clone(),
            max_logins: row.max_logins,
        };
        let ghost before = t@;
        insert_user(&mut t, row.username.clone(), auth);
        proof {
            let sub = rows@.subrange(0, i + 1);
            assert(sub.drop_last() =~= rows@.subrange(0, i as int));
            assert(sub.last() == rows@[i as int]);
            assert(auth == user_auth_of(rows@[i as int]));
            assert forall|k: Seq<char>| #[trigger] lookup(t@, k) == db_lookup(sub, k) by {}
        }
        i = i + 1;
    }
    assert(rows@.subrange(0, rows@.len() as int) =~= rows@);
    t
}

/// Authentication data: the user table and the session counts.
pub struct AuthCache {
    users: Vec<(String, UserAuth)>,
    sessions: SessionTracker,
    db_path: String,
}

impl AuthCache {
    /// The user table.
    pub closed spec fn users(&self) -> Seq<(String, UserAuth)> {
        self.users@
    }

    /// The entry of a user, if any.
    pub open spec fn user(&self, name: Seq<char>) -> Option<UserAuth> {
        lookup(self.users(), name)
    }

    /// The session counts.
    pub closed spec fn tracker(&self) -> SessionTracker {
        self.sessions
    }

    /// The database the users came from.
    pub closed spec fn db_path_view(&self) -> Seq<char> {
        self.db_path@
    }

    /// A cache over the rows read from the database at `db_path`, no sessions yet.
    pub fn from_users(rows: Vec<DbUser>, db_path: String) -> (c: AuthCache)
        ensures
            distinct_keys(c.users()),
            forall|k: Seq<char>| #[trigger] c.user(k) == db_lookup(rows@, k),
            forall|k: Seq<char>| #[trigger] c.tracker().logins(k) is None,
            c.db_path_view() == db_path@,
    {
        let users = table_of(&rows);
        AuthCache { users, sessions: SessionTracker::new(), db_path }
    }

    /// Checks a login against the table at time `now`.
    pub fn authenticate_at(&self, username: &str, password: &str, now: &str) -> (r: Result<bool, AuthError>)
        ensures
            r == spec_authenticate(
                self.user(username@),
                self.tracker().logins(username@),
                password@,
                now@,
            ),
    {
        let i = match find_last(&self.users, username) {
            Some(i) => i,
            None => {
                return Err(AuthError::UserNotFound);
            },
        };
        let user_auth = &self.users[i].1;
        if !str_eq(user_auth.password.as_str(), password) {
            return Err(AuthError::InvalidPassword);
        }
        if str_le(user_auth.expiry_date.as_str(), now) {
            return Err(AuthError::UserExpired);
        }
        if !self.sessions.can_login(username, user_auth.max_logins) {
            return Err(AuthError::LoginLimitExceeded);
        }
        Ok(true)
    }

    /// Checks a login against the table at the current time.
    pub fn authenticate(&self, username: &str, password: &str) -> (r: Result<bool, AuthError>)
        ensures
            exists|now: Seq<char>|
                r == spec_authenticate(
                    self.user(username@),
                    #[trigger] self.tracker().logins(username@),
                    password@,
                    now,
                ),
    {
        let now = utc_now_string();
        self.authenticate_at(username, password, now.as_str())
    }

    /// Whether the user is expired at time `now`; an unknown user counts as expired.
    pub fn is_user_expired_at(&self, username: &str, now: &str) -> (r: bool)
        ensures
            r == match self.user(username@) {
                Some(ua) => expired_at(ua.expiry_date@, now@),
                None => true,
            },
    {
        match find_last(&self.users, username) {
            Some(i) => str_le(self.users[i].1.expiry_date.as_str(), now),
            None => true,
        }
    }

    /// Whether the user is expired now; an unknown user counts as expired.
    pub fn is_user_expired(&self, username: &str) -> (r: Result<bool, AuthError>)
        ensures
            r matches Ok(b) && (self.user(username@) is None ==> b),
    {
        let now = utc_now_string();
        Ok(self.is_user_expired_at(username, now.as_str()))
    }

    /// Counts a login.
    pub fn record_login(&mut self, username: &str)
        ensures
            final(self).users() == old(self).users(),
            final(self).db_path_view() == old(self).db_path_view(),
            forall|k: Seq<char>| #[trigger] final(self).tracker().logins(k) == if k == username@ {
                crate::sessions::after_login(old(self).tracker().logins(k))
            } else {
                old(self).tracker().logins(k)
            },
    {
        self.sessions.increment_login(username);
    }

    /// Counts a logout.
    pub fn record_logout(&mut self, username: &str)
        ensures
            final(self).users() == old(self).users(),
            final(self).db_path_view() == old(self).db_path_view(),
            forall|k: Seq<char>| #[trigger] final(self).tracker().logins(k) == if k == username@ {
                crate::sessions::after_logout(old(self).tracker().logins(k))
            } else {
                old(self).tracker().logins(k)
            },
    {
        self.sessions.decrement_login(username);
    }

    /// The user's active logins.
    pub fn active_logins(&self, username: &str) -> (r: u32)
        ensures
            r == match self.tracker().logins(username@) {
                Some(c) => c,
                None => 0,
            },
    {
        self.sessions.active_logins(username)
    }

    /// The number of users in the table.
    pub fn user_count(&self) -> (r: usize)
        ensures
            r == self.users().len(),
    {
        self.users.len()
    }

    /// The session counts.
    pub fn sessions(&self) -> (r: &SessionTracker)
        ensures
            *r == self.tracker(),
    {
        &self.sessions
    }

    /// Ends all of a user's sessions and says how many there were.
    pub fn force_disconnect(&mut self, username: &str) -> (r: u32)
        ensures
            final(self).users() == old(self).users(),
            final(self).db_path_view() == old(self).db_path_view(),
            r == match old(self).tracker().logins(username@) {
                Some(c) => c,
                None => 0,
            },
            forall|k: Seq<char>| #[trigger] final(self).tracker().logins(k) == if k == username@ {
                match old(self).tracker().logins(k) {
                    Some(c) => Some(0u32),
                    None => None,
                }
            } else {
                old(self).tracker().logins(k)
            },
    {
        self.sessions.force_disconnect(username)
    }

    /// Replaces the user table with the rows read again from the database; session
    /// counts are kept.
    pub fn reload(&mut self, rows: Vec<DbUser>) -> (r: Result<(), AuthError>)
        ensures
            r is Ok,
            distinct_keys(final(self).users()),
            forall|k: Seq<char>| #[trigger] final(self).user(k) == db_lookup(rows@, k),
            final(self).tracker() == old(self).tracker(),
            final(self).db_path_view() == old(self).db_path_view(),
    {
        self.users = table_of(&rows);
        Ok(())
    }

    /// The database path the cache reloads from.
    pub fn db_path(&self) -> (r: &str)
        ensures
            r@ == self.db_path_view(),
    {
        self.db_path.as_str()
    }

    /// The user's expiry date.
    pub fn get_user_expiry(&self, username: &str) -> (r: Option<String>)
        ensures
            match self.user(username@) {
                Some(ua) => r matches Some(s) && s@ == ua.expiry_date@,
                None => r is None,
            },
    {
        match find_last(&self.users, username) {
            Some(i) => Some(self.users[i].1.expiry_date.clone()),
            None => None,
        }
    }

    /// The user's login limit.
    pub fn get_user_max_logins(&self, username: &str) -> (r: Option<u32>)
        ensures
            r == match self.user(username@) {
                Some(ua) => Some(ua.max_logins),
                None => None,
            },
    {
        match find_last(&self.users, username) {
            Some(i) => Some(self.users[i].1.max_logins),
            None => None,
        }
    }
}

} // verus!
