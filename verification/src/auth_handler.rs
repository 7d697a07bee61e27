//! The authentication phase (RFC 4252): service request, then password logins
//! against the user table, with a limit on failed attempts.
use vstd::prelude::*;
use vstd::utf8::{encode_utf8, valid_utf8};
use crate::error::SshError;
use crate::wire::{ssh_string, spec_read_string, parse_ssh_string, join_commas, names_bytes, u32_be, to_vec};
use crate::text::{str_eq, bytes_eq, utf8_lossy, string_from_utf8_lossy, string_from_utf8};
use crate::messages::{
    build_userauth_success, build_userauth_failure, build_service_accept, build_disconnect,
    DISCONNECT_TOO_MANY_CONNECTIONS,
};
use crate::auth_cache::{AuthCache, AuthError, spec_authenticate, utc_now_string};
use crate::sessions::after_login;

verus! {

/// The one method offered after a failure.
pub const PASSWORD_METHODS: [&'static str; 1] = ["password"];

/// How many failed logins a connection gets.
pub const MAX_AUTH_ATTEMPTS: u32 = 5;

/// States of the authentication phase.
#[derive(Debug, Clone, Copy, PartialEq, Eq, Structural)]
pub enum AuthState {
    /// Waiting for the service request.
    WaitingServiceRequest,
    /// Waiting for a userauth request.
    WaitingUserauth,
    /// A login succeeded.
    Success,
    /// Too many failures.
    Failed,
}

/// The userauth failure body offering `password`.
pub open spec fn failure_reply() -> Seq<u8> {
    ssh_string(join_commas(names_bytes(PASSWORD_METHODS@))) + seq![0u8]
}

/// A disconnect body with reason "too many connections".
pub open spec fn too_many_reply(description: Seq<char>) -> Seq<u8> {
    u32_be(12) + ssh_string(encode_utf8(description)) + ssh_string(Seq::empty())
}

/// The reply to a password check and whether it is a success.
pub open spec fn password_reply(res: Result<bool, AuthError>) -> (Seq<u8>, bool) {
    match res {
        Ok(true) => (Seq::empty(), true),
        Err(AuthError::LoginLimitExceeded) => (too_many_reply("Login limit exceeded"@), false),
        _ => (failure_reply(), false),
    }
}

/// `(reply, ok)` is what a password check at some moment gives.
pub open spec fn possible_reply(
    user: Option<crate::auth_cache::UserAuth>,
    logins: Option<u32>,
    password: Seq<char>,
    reply: Seq<u8>,
    ok: bool,
) -> bool {
    exists|now: Seq<char>| #[trigger] password_reply(spec_authenticate(user, logins, password, now)) == (reply, ok)
}

/// A service request body naming `ssh-userauth`: an SSH string holding that name
/// (anything after it is ignored).
pub open spec fn requests_userauth(payload: Seq<u8>) -> bool {
    spec_read_string(payload) matches Ok((name, _)) && name == encode_utf8("ssh-userauth"@)
}

/// How a userauth request reads: a short field refuses it, a service other than
/// `ssh-connection` is turned away, otherwise the user, method and what follows.
pub ghost enum UserauthParse {
    Malformed(SshError),
    WrongService,
    Request { user: Seq<char>, method: Seq<char>, rest: Seq<u8> },
}

/// The reading of a userauth request body.
pub open spec fn parse_userauth(p: Seq<u8>) -> UserauthParse {
    match spec_read_string(p) {
        Err(e) => UserauthParse::Malformed(e),
        Ok((user, r1)) => match spec_read_string(r1) {
            Err(e) => UserauthParse::Malformed(e),
            Ok((service, r2)) => if utf8_lossy(service) != "ssh-connection"@ {
                UserauthParse::WrongService
            } else {
                match spec_read_string(r2) {
                    Err(e) => UserauthParse::Malformed(e),
                    Ok((method, r3)) => UserauthParse::Request {
                        user: utf8_lossy(user),
                        method: utf8_lossy(method),
                        rest: r3,
                    },
                }
            },
        },
    }
}

/// The password of a password request: none when nothing follows the method, else
/// the string after the change flag byte.
pub open spec fn parse_password(rest: Seq<u8>) -> Result<Option<Seq<char>>, SshError> {
    if rest.len() == 0 {
        Ok(None)
    } else {
        match spec_read_string(rest.drop_first()) {
            Err(e) => Err(e),
            Ok((pw, _)) => Ok(Some(utf8_lossy(pw))),
        }
    }
}

/// Handles the authentication phase of one connection.
pub struct TransportAuthHandler {
    state: AuthState,
    username: Option<String>,
    failed_attempts: u32,
    max_attempts: u32,
}

impl TransportAuthHandler {
    /// The phase's state.
    pub closed spec fn state_view(&self) -> AuthState {
        self.state
    }

    /// The authenticated user, once there is one.
    pub closed spec fn user_view(&self) -> Option<Seq<char>> {
        match self.username {
            Some(u) => Some(u@),
            None => None,
        }
    }

    /// Failed logins so far.
    pub closed spec fn failures(&self) -> u32 {
        self.failed_attempts
    }

    /// Failed logins allowed.
    pub closed spec fn max_failures(&self) -> u32 {
        self.max_attempts
    }

    /// A handler waiting for the service request.
    pub fn new() -> (h: TransportAuthHandler)
        ensures
            h.state_view() == AuthState::WaitingServiceRequest,
            h.user_view() is None,
            h.failures() == 0,
            h.max_failures() == MAX_AUTH_ATTEMPTS,
    {
        TransportAuthHandler {
            state: AuthState::WaitingServiceRequest,
            username: None,
            failed_attempts: 0,
            max_attempts: MAX_AUTH_ATTEMPTS,
        }
    }

    /// Handles one authentication message; answers with the reply body, if any, and
    /// whether the user is now authenticated.
    ///
    /// A service request (5) whose SSH string names `ssh-userauth` is accepted;
    /// a userauth request (50) is checked as `handle_userauth_request` says. Other
    /// types are refused.
    pub fn process_auth_message(&mut self, cache: &mut AuthCache, msg_type: u8, payload: &[u8]) -> (r:
        Result<(Option<Vec<u8>>, bool), SshError>)
        ensures
            auth_message_outcome(*old(self), *final(self), *old(cache), *final(cache), msg_type, payload@, r),
    {
        if msg_type == 5 {
            match self.handle_service_request(payload) {
                Ok(resp) => Ok((Some(resp), false)),
                Err(e) => Err(e),
            }
        } else if msg_type == 50 {
            self.handle_userauth_request(cache, payload)
        } else {
            Err(SshError::UnexpectedAuthMessage)
        }
    }

    fn handle_service_request(&mut self, payload: &[u8]) -> (r: Result<Vec<u8>, SshError>)
        ensures
            match r {
                Ok(p) => p@ == ssh_string(encode_utf8("ssh-userauth"@)) && requests_userauth(payload@)
                    && final(self).state_view() == AuthState::WaitingUserauth,
                Err(e) => e == SshError::InvalidService && !requests_userauth(payload@) && *final(self)
                    == *old(self),
            },
            final(self).user_view() == old(self).user_view(),
            final(self).failures() == old(self).failures(),
            final(self).max_failures() == old(self).max_failures(),
    {
        let name = match parse_ssh_string(payload) {
            Ok((n, _)) => n,
            Err(_) => {
                return Err(SshError::InvalidService);
            },
        };
        if !bytes_eq(name.as_slice(), "ssh-userauth".as_bytes()) {
            return Err(SshError::InvalidService);
        }
        self.state = AuthState::WaitingUserauth;
        Ok(build_service_accept("ssh-userauth"))
    }

    /// Handles a userauth request: past the failure limit the answer is a disconnect;
    /// otherwise the user, service and method are read; a password login is checked
    /// against the table, and other methods are refused. A success records the login,
    /// a refusal counts a failed attempt.
    fn handle_userauth_request(&mut self, cache: &mut AuthCache, payload: &[u8]) -> (r: Result<
        (Option<Vec<u8>>, bool),
        SshError,
    >)
        ensures
            userauth_outcome(*old(self), *final(self), *old(cache), *final(cache), payload@, r),
            final(self).max_failures() == old(self).max_failures(),
    {
        if self.failed_attempts >= self.max_attempts {
            let response = build_disconnect(
                DISCONNECT_TOO_MANY_CONNECTIONS,
                "Too many authentication failures",
            );
            self.state = AuthState::Failed;
            return Ok((Some(response), false));
        }
        let (username, rest) = match parse_ssh_string(payload) {
            Ok(x) => x,
            Err(e) => {
                return Err(e);
            },
        };
        let username_str = string_from_utf8_lossy(username.as_slice());
        let (service, rest) = match parse_ssh_string(rest) {
            Ok(x) => x,
            Err(e) => {
                return Err(e);
            },
        };
        let service_str = string_from_utf8_lossy(service.as_slice());
        if !str_eq(service_str.as_str(), "ssh-connection") {
            let response = build_userauth_failure(PASSWORD_METHODS.as_slice(), false);
            return Ok((Some(response), false));
        }
        let (method, rest) = match parse_ssh_string(rest) {
            Ok(x) => x,
            Err(e) => {
                return Err(e);
            },
        };
        let method_str = string_from_utf8_lossy(method.as_slice());
        let (response, success) = if str_eq(method_str.as_str(), "password") {
            match Self::handle_password_auth(cache, username_str.as_str(), rest) {
                Ok(x) => x,
                Err(e) => {
                    return Err(e);
                },
            }
        } else {
            (build_userauth_failure(PASSWORD_METHODS.as_slice(), false), false)
        };
        if success {
            cache.record_login(username_str.as_str());
            self.username = Some(username_str);
            self.state = AuthState::Success;
        } else {
            self.failed_attempts = self.failed_attempts + 1;
        }
        Ok((Some(response), success))
    }

    /// Checks a password login: the change flag byte, then the password string.
    fn handle_password_auth(cache: &AuthCache, username: &str, payload: &[u8]) -> (r: Result<(Vec<u8>, bool), SshError>)
        ensures
            match parse_password(payload@) {
                Err(e) => r == Err::<(Vec<u8>, bool), SshError>(e),
                Ok(None) => r matches Ok((p, ok)) && p@ == failure_reply() && !ok,
                Ok(Some(pw)) => r is Ok && possible_reply(
                    cache.user(username@),
                    cache.tracker().logins(username@),
                    pw,
                    r->Ok_0.0@,
                    r->Ok_0.1,
                ),
            },
    {
        if payload.len() == 0 {
            return Ok((build_userauth_failure(PASSWORD_METHODS.as_slice(), false), false));
        }
        let password_data: &[u8] = &payload[1..payload.len()];
        proof {
            assert(password_data@ =~= payload@.drop_first());
        }
        let (password, _) = match parse_ssh_string(password_data) {
            Ok(x) => x,
            Err(e) => {
                return Err(e);
            },
        };
        let password_str = string_from_utf8_lossy(password.as_slice());
        let now = utc_now_string();
        let res = cache.authenticate_at(username, password_str.as_str(), now.as_str());
        let out = match res {
            Ok(true) => (build_userauth_success(), true),
            Ok(false) | Err(AuthError::InvalidPassword) => (build_userauth_failure(PASSWORD_METHODS.as_slice(), false), false),
            Err(AuthError::LoginLimitExceeded) => (build_disconnect(DISCONNECT_TOO_MANY_CONNECTIONS, "Login limit exceeded"), false),
            Err(AuthError::UserNotFound) => (build_userauth_failure(PASSWORD_METHODS.as_slice(), false), false),
            Err(AuthError::UserExpired) => (build_userauth_failure(PASSWORD_METHODS.as_slice(), false), false),
        };
        proof {
            assert((out.0@, out.1) == password_reply(res));
            assert(parse_password(payload@) == Ok::<Option<Seq<char>>, SshError>(Some(password_str@)));
            assert(res == spec_authenticate(
                cache.user(username@),
                cache.tracker().logins(username@),
                password_str@,
                now@,
            ));
            assert(possible_reply(
                cache.user(username@),
                cache.tracker().logins(username@),
                password_str@,
                out.0@,
                out.1,
            ));
        }
        Ok(out)
    }

    /// The authenticated user's name.
    pub fn username(&self) -> (r: Option<&str>)
        ensures
            match self.user_view() {
                Some(u) => r matches Some(s) && s@ == u,
                None => r is None,
            },
    {
        match &self.username {
            Some(u) => Some(u.as_str()),
            None => None,
        }
    }

    /// Whether a login succeeded.
    pub fn is_authenticated(&self) -> (r: bool)
        ensures
            r == (self.state_view() == AuthState::Success),
    {
        self.state == AuthState::Success
    }

    /// The phase's state.
    pub fn state(&self) -> (r: AuthState)
        ensures
            r == self.state_view(),
    {
        self.state
    }

    /// Records the logout of the authenticated user, if any.
    pub fn record_logout(&self, cache: &mut AuthCache)
        ensures
            final(cache).users() == old(cache).users(),
            forall|k: Seq<char>| #[trigger] final(cache).tracker().logins(k) == if self.user_view()
                == Some(k) {
                crate::sessions::after_logout(old(cache).tracker().logins(k))
            } else {
                old(cache).tracker().logins(k)
            },
    {
        match &self.username {
            Some(u) => cache.record_logout(u.as_str()),
            None => {},
        }
    }
}

/// What one authentication message does to the handler and the cache, and its
/// answer: a service request (5) for `ssh-userauth` (trailing NULs ignored) is
/// accepted, a userauth request (50) is checked as `userauth_outcome` says, other
/// types are refused; the failure limit never changes.
pub open spec fn auth_message_outcome(
    pre: TransportAuthHandler,
    post: TransportAuthHandler,
    cache_pre: AuthCache,
    cache_post: AuthCache,
    msg_type: u8,
    payload: Seq<u8>,
    r: Result<(Option<Vec<u8>>, bool), SshError>,
) -> bool {
    &&& msg_type == 5 ==> match r {
        Ok((Some(p), ok)) => p@ == ssh_string(encode_utf8("ssh-userauth"@)) && !ok && requests_userauth(payload)
            && post.state_view() == AuthState::WaitingUserauth,
        Ok((None, _)) => false,
        Err(e) => e == SshError::InvalidService && !requests_userauth(payload),
    }
    &&& msg_type == 5 ==> post.user_view() == pre.user_view() && post.failures() == pre.failures()
        && cache_post == cache_pre
    &&& msg_type == 50 ==> userauth_outcome(pre, post, cache_pre, cache_post, payload, r)
    &&& msg_type != 5 && msg_type != 50 ==> r == Err::<(Option<Vec<u8>>, bool), SshError>(
        SshError::UnexpectedAuthMessage,
    ) && post == pre && cache_post == cache_pre
    &&& post.max_failures() == pre.max_failures()
}

/// What a userauth request does to the handler and the cache, and its answer.
pub open spec fn userauth_outcome(
    pre: TransportAuthHandler,
    post: TransportAuthHandler,
    cache_pre: AuthCache,
    cache_post: AuthCache,
    payload: Seq<u8>,
    r: Result<(Option<Vec<u8>>, bool), SshError>,
) -> bool {
    if pre.failures() >= pre.max_failures() {
        &&& r matches Ok((Some(p), ok)) && p@ == too_many_reply("Too many authentication failures"@) && !ok
        &&& post.state_view() == AuthState::Failed && post.user_view() == pre.user_view()
            && post.failures() == pre.failures()
        &&& cache_post == cache_pre
    } else {
        match parse_userauth(payload) {
            UserauthParse::Malformed(e) => r == Err::<(Option<Vec<u8>>, bool), SshError>(e) && post
                == pre && cache_post == cache_pre,
            UserauthParse::WrongService => (r matches Ok((Some(p), ok)) && p@ == failure_reply() && !ok)
                && post == pre && cache_post == cache_pre,
            UserauthParse::Request { user, method, rest } => if method == "password"@ {
                match parse_password(rest) {
                    Err(e) => r == Err::<(Option<Vec<u8>>, bool), SshError>(e) && post == pre
                        && cache_post == cache_pre,
                    Ok(None) => (r matches Ok((Some(p), ok)) && p@ == failure_reply() && !ok)
                        && refused(pre, post, cache_pre, cache_post),
                    Ok(Some(pw)) => r matches Ok((Some(p), ok)) && possible_reply(
                        cache_pre.user(user),
                        cache_pre.tracker().logins(user),
                        pw,
                        p@,
                        ok,
                    ) && if ok {
                            accepted(pre, post, cache_pre, cache_post, user)
                        } else {
                            refused(pre, post, cache_pre, cache_post)
                        },
                }
            } else {
                (r matches Ok((Some(p), ok)) && p@ == failure_reply() && !ok) && refused(
                    pre,
                    post,
                    cache_pre,
                    cache_post,
                )
            },
        }
    }
}

/// A refused login: one more failed attempt, nothing else changes.
pub open spec fn refused(
    pre: TransportAuthHandler,
    post: TransportAuthHandler,
    cache_pre: AuthCache,
    cache_post: AuthCache,
) -> bool {
    &&& post.failures() == pre.failures() + 1
    &&& post.state_view() == pre.state_view()
    &&& post.user_view() == pre.user_view()
    &&& cache_post == cache_pre
}

/// An accepted login: the user is authenticated and one more session counted.
pub open spec fn accepted(
    pre: TransportAuthHandler,
    post: TransportAuthHandler,
    cache_pre: AuthCache,
    cache_post: AuthCache,
    user: Seq<char>,
) -> bool {
    &&& post.failures() == pre.failures()
    &&& post.state_view() == AuthState::Success
    &&& post.user_view() == Some(user)
    &&& cache_post.users() == cache_pre.users()
    &&& forall|k: Seq<char>| #[trigger] cache_post.tracker().logins(k) == if k == user {
        after_login(cache_pre.tracker().logins(k))
    } else {
        cache_pre.tracker().logins(k)
    }
}

/// Failed logins never pass the limit: a handler within it stays within it whatever
/// userauth request comes, and once the limit is reached every request is refused with
/// "Too many authentication failures", no one is logged in and the cache is untouched.
pub proof fn lemma_failures_bounded(
    pre: TransportAuthHandler,
    post: TransportAuthHandler,
    cache_pre: AuthCache,
    cache_post: AuthCache,
    payload: Seq<u8>,
    r: Result<(Option<Vec<u8>>, bool), SshError>,
)
    requires
        userauth_outcome(pre, post, cache_pre, cache_post, payload, r),
        pre.failures() <= pre.max_failures(),
        post.max_failures() == pre.max_failures(),
    ensures
        post.failures() <= post.max_failures(),
        pre.failures() == pre.max_failures() ==> cache_post == cache_pre && post.state_view()
            == AuthState::Failed && (r matches Ok((Some(p), ok)) && !ok && p@ == too_many_reply(
            "Too many authentication failures"@,
        )),
{
}

} // verus!
