//! Guards that end a session or a channel exactly once.
use vstd::prelude::*;
use crate::auth_cache::AuthCache;

verus! {

/// Ends a user's session in the session counts when the connection ends, unless
/// released.
pub struct SessionGuard {
    username: String,
    active: bool,
}

impl SessionGuard {
    /// The guarded user.
    pub closed spec fn user(&self) -> Seq<char> {
        self.username@
    }

    /// Whether the guard will still record the logout.
    pub closed spec fn is_active(&self) -> bool {
        self.active
    }

    /// A guard for the user's session.
    pub fn new(username: String) -> (g: SessionGuard)
        ensures
            g.user() == username@,
            g.is_active(),
    {
        SessionGuard { username, active: true }
    }

    /// Gives the guard up without recording a logout.
    pub fn release(self) {
    }

    /// Ends the guard: an active guard records the user's logout.
    pub fn finish(self, cache: &mut AuthCache)
        ensures
            final(cache).users() == old(cache).users(),
            forall|k: Seq<char>| #[trigger] final(cache).tracker().logins(k) == if self.is_active() && k
                == self.user() {
                crate::sessions::after_logout(old(cache).tracker().logins(k))
            } else {
                old(cache).tracker().logins(k)
            },
    {
        if self.active {
            cache.record_logout(self.username.as_str());
        }
    }
}

/// Marks the life of a channel.
pub struct ChannelGuard {
    channel_id: u32,
}

impl ChannelGuard {
    /// The guarded channel.
    pub closed spec fn id(&self) -> u32 {
        self.channel_id
    }

    /// A guard for the channel.
    pub fn new(channel_id: u32) -> (g: ChannelGuard)
        ensures
            g.id() == channel_id,
    {
        ChannelGuard { channel_id }
    }

    /// The guarded channel.
    pub fn channel_id(&self) -> (r: u32)
        ensures
            r == self.id(),
    {
        self.channel_id
    }
}

} // verus!
