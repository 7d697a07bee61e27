//! Channels of one connection: their windows, end-of-file states and bookkeeping.
use vstd::prelude::*;
use std::collections::HashMap;
use crate::error::SshError;

verus! {

broadcast use vstd::std_specs::hash::group_hash_axioms;

/// The life cycle of a channel.
#[derive(Debug, Clone, Copy, PartialEq, Eq, Structural)]
pub enum ChannelState {
    /// Open and active.
    Open,
    /// The remote side sent EOF.
    RemoteEof,
    /// We sent EOF.
    LocalEof,
    /// Both sides sent EOF.
    EofBoth,
    /// Closed.
    Closed,
}

/// One SSH channel.
pub struct Channel {
    /// Our channel ID.
    pub local_id: u32,
    /// The peer's channel ID.
    pub remote_id: u32,
    /// Where the channel is in its life cycle.
    pub state: ChannelState,
    /// How much we may still send.
    pub remote_window: u32,
    /// How much the peer may still send.
    pub local_window: u32,
    /// Largest packet the peer accepts.
    pub remote_max_packet: u32,
    /// Largest packet we accept.
    pub local_max_packet: u32,
    /// Target host of a direct-tcpip channel.
    pub target_host: Option<String>,
    /// Target port of a direct-tcpip channel.
    pub target_port: Option<u32>,
}

/// The state after the remote side sends EOF.
pub open spec fn after_remote_eof(s: ChannelState) -> ChannelState {
    match s {
        ChannelState::Open => ChannelState::RemoteEof,
        ChannelState::LocalEof => ChannelState::EofBoth,
        other => other,
    }
}

/// The state after we send EOF.
pub open spec fn after_local_eof(s: ChannelState) -> ChannelState {
    match s {
        ChannelState::Open => ChannelState::LocalEof,
        ChannelState::RemoteEof => ChannelState::EofBoth,
        other => other,
    }
}

/// `a + b`, held at `u32::MAX`.
pub open spec fn saturating_add(a: u32, b: u32) -> u32 {
    if a + b > u32::MAX {
        u32::MAX
    } else {
        (a + b) as u32
    }
}

/// A window adjustment that gives back what was sent restores the send window:
/// `consume_window(b)` followed by `add_remote_window(b)` leaves it as it was.
pub proof fn lemma_adjust_restores_window(w: u32, b: u32)
    requires
        b <= w,
    ensures
        saturating_add((w - b) as u32, b) == w,
{
}

/// The two ends may send EOF in either order: the channel ends in the same state, and
/// an open channel ends with both sides at EOF. A second EOF from the same side
/// changes nothing.
pub proof fn lemma_eof_order_irrelevant(s: ChannelState)
    ensures
        after_local_eof(after_remote_eof(s)) == after_remote_eof(after_local_eof(s)),
        s == ChannelState::Open ==> after_local_eof(after_remote_eof(s)) == ChannelState::EofBoth,
        after_remote_eof(after_remote_eof(s)) == after_remote_eof(s),
        after_local_eof(after_local_eof(s)) == after_local_eof(s),
{
}

impl Channel {
    /// A fresh open channel with both windows at `initial_window`.
    pub fn new(local_id: u32, remote_id: u32, initial_window: u32, max_packet_size: u32) -> (c:
        Channel)
        ensures
            c.local_id == local_id,
            c.remote_id == remote_id,
            c.state == ChannelState::Open,
            c.remote_window == initial_window,
            c.local_window == initial_window,
            c.remote_max_packet == max_packet_size,
            c.local_max_packet == max_packet_size,
            c.target_host is None,
            c.target_port is None,
    {
        Channel {
            local_id,
            remote_id,
            state: ChannelState::Open,
            remote_window: initial_window,
            local_window: initial_window,
            remote_max_packet: max_packet_size,
            local_max_packet: max_packet_size,
            target_host: None,
            target_port: None,
        }
    }

    /// Open, with room in the peer's window.
    pub fn can_send(&self) -> (r: bool)
        ensures
            r == (self.state == ChannelState::Open && self.remote_window > 0),
    {
        self.state == ChannelState::Open && self.remote_window > 0
    }

    /// Open, or only the remote side has sent EOF.
    pub fn can_receive(&self) -> (r: bool)
        ensures
            r == (self.state == ChannelState::Open || self.state == ChannelState::RemoteEof),
    {
        match self.state {
            ChannelState::Open | ChannelState::RemoteEof => true,
            _ => false,
        }
    }

    /// Takes `bytes` out of the peer's window; refused when the window is smaller.
    pub fn consume_window(&mut self, bytes: u32) -> (r: Result<(), SshError>)
        ensures
            bytes > old(self).remote_window ==> r == Err::<(), SshError>(
                SshError::InsufficientRemoteWindow,
            ) && *final(self) == *old(self),
            bytes <= old(self).remote_window ==> r is Ok && *final(self) == (Channel {
                remote_window: (old(self).remote_window - bytes) as u32,
                ..*old(self)
            }),
    {
        if bytes > self.remote_window {
            return Err(SshError::InsufficientRemoteWindow);
        }
        self.remote_window = self.remote_window - bytes;
        Ok(())
    }

    /// Adds to the peer's window, saturating at `u32::MAX`.
    pub fn add_remote_window(&mut self, bytes: u32)
        ensures
            *final(self) == (Channel {
                remote_window: saturating_add(old(self).remote_window, bytes),
                ..*old(self)
            }),
    {
        self.remote_window = self.remote_window.saturating_add(bytes);
    }

    /// Takes `bytes` out of our window; refused when the window is smaller.
    pub fn consume_local_window(&mut self, bytes: u32) -> (r: Result<(), SshError>)
        ensures
            bytes > old(self).local_window ==> r == Err::<(), SshError>(
                SshError::InsufficientLocalWindow,
            ) && *final(self) == *old(self),
            bytes <= old(self).local_window ==> r is Ok && *final(self) == (Channel {
                local_window: (old(self).local_window - bytes) as u32,
                ..*old(self)
            }),
    {
        if bytes > self.local_window {
            return Err(SshError::InsufficientLocalWindow);
        }
        self.local_window = self.local_window - bytes;
        Ok(())
    }

    /// Records EOF from the remote side.
    pub fn set_remote_eof(&mut self)
        ensures
            *final(self) == (Channel { state: after_remote_eof(old(self).state), ..*old(self) }),
    {
        self.state = match self.state {
            ChannelState::Open => ChannelState::RemoteEof,
            ChannelState::LocalEof => ChannelState::EofBoth,
            other => other,
        };
    }

    /// Records that we sent EOF.
    pub fn set_local_eof(&mut self)
        ensures
            *final(self) == (Channel { state: after_local_eof(old(self).state), ..*old(self) }),
    {
        self.state = match self.state {
            ChannelState::Open => ChannelState::LocalEof,
            ChannelState::RemoteEof => ChannelState::EofBoth,
            other => other,
        };
    }

    /// Closes the channel.
    pub fn close(&mut self)
        ensures
            *final(self) == (Channel { state: ChannelState::Closed, ..*old(self) }),
    {
        self.state = ChannelState::Closed;
    }
}

/// Looks a key up for change.
///
/// Calls `HashMap::get_mut`, which std documents as giving a mutable reference to the
/// value at the key, if any. Claimed: `Some` exactly when the key is present, holding
/// its value, and the map afterwards holds at that key what was written through it.
#[verifier::external_body]
fn map_get_mut<'a, V>(m: &'a mut HashMap<u32, V>, k: u32) -> (r: Option<&'a mut V>)
    ensures
        old(m)@.contains_key(k) ==> r.is_some() && *r.unwrap() == old(m)@[k] && final(m)@ == old(
            m,
        )@.insert(k, *final(r.unwrap())),
        !old(m)@.contains_key(k) ==> r.is_none() && final(m)@ == old(m)@,
{
    m.get_mut(&k)
}

/// All channels of one connection, keyed by our channel ID.
pub struct ChannelManager {
    channels: HashMap<u32, Channel>,
    next_channel_id: u32,
}

impl View for ChannelManager {
    type V = Map<u32, Channel>;

    closed spec fn view(&self) -> Map<u32, Channel> {
        self.channels@
    }
}

impl ChannelManager {
    /// The next ID `allocate_channel_id` hands out.
    pub closed spec fn next_id(&self) -> u32 {
        self.next_channel_id
    }

    /// The channel map is finite, so counts follow from it.
    pub proof fn lemma_channels_finite(&self)
        ensures
            self@.dom().finite(),
    {
    }

    /// No channels; IDs start at 0.
    pub fn new() -> (m: ChannelManager)
        ensures
            m@ == Map::<u32, Channel>::empty(),
            m.next_id() == 0,
    {
        ChannelManager { channels: HashMap::new(), next_channel_id: 0 }
    }

    /// Hands out the next channel ID; IDs count up from 0 and wrap around.
    pub fn allocate_channel_id(&mut self) -> (id: u32)
        ensures
            id == old(self).next_id(),
            final(self).next_id() == (if old(self).next_id() == u32::MAX {
                0
            } else {
                (old(self).next_id() + 1) as u32
            }),
            final(self)@ == old(self)@,
    {
        let id = self.next_channel_id;
        self.next_channel_id = self.next_channel_id.wrapping_add(1);
        id
    }

    /// Adds a channel under its local ID, replacing any channel already there.
    pub fn add_channel(&mut self, channel: Channel)
        ensures
            final(self)@ == old(self)@.insert(channel.local_id, channel),
            final(self).next_id() == old(self).next_id(),
            final(self)@.dom().finite(),
    {
        let id = channel.local_id;
        self.channels.insert(id, channel);
    }

    /// The channel with this local ID, if any.
    pub fn get_channel(&self, local_id: u32) -> (r: Option<&Channel>)
        ensures
            self@.contains_key(local_id) ==> r == Some(&self@[local_id]),
            !self@.contains_key(local_id) ==> r is None,
    {
        self.channels.get(&local_id)
    }

    /// The channel with this local ID, if any, for change.
    pub fn get_channel_mut(&mut self, local_id: u32) -> (r: Option<&mut Channel>)
        ensures
            old(self)@.contains_key(local_id) ==> r.is_some() && *r.unwrap() == old(self)@[local_id]
                && final(self)@ == old(self)@.insert(local_id, *final(r.unwrap())),
            !old(self)@.contains_key(local_id) ==> r.is_none() && final(self)@ == old(self)@,
            final(self).next_id() == old(self).next_id(),
    {
        map_get_mut(&mut self.channels, local_id)
    }

    /// Removes and returns the channel with this local ID, if any.
    pub fn remove_channel(&mut self, local_id: u32) -> (r: Option<Channel>)
        ensures
            final(self)@ == old(self)@.remove(local_id),
            old(self)@.contains_key(local_id) ==> r == Some(old(self)@[local_id]),
            !old(self)@.contains_key(local_id) ==> r is None,
            final(self).next_id() == old(self).next_id(),
            final(self)@.dom().finite(),
    {
        self.channels.remove(&local_id)
    }

    /// The local IDs of all channels, each once, in no particular order.
    pub fn channel_ids(&self) -> (ids: Vec<u32>)
        ensures
            ids@.to_set() == self@.dom(),
            ids@.no_duplicates(),
    {
        let mut ids: Vec<u32> = Vec::new();
        for k in it: self.channels.keys()
            invariant
                ids@ == it.seq().take(it.index()).map_values(|r: &u32| *r),
                it.seq() == vstd::std_specs::iter::IteratorSpec::remaining(&vstd::std_specs::hash::spec_keys_iter(&self.channels)),
        {
            ids.push(*k);
        }
        proof {
            let r = vstd::std_specs::iter::IteratorSpec::remaining(&vstd::std_specs::hash::spec_keys_iter(&self.channels));
            assert(r.take(r.len() as int) =~= r);
            assert(ids@ =~= r.unref());
        }
        ids
    }

    /// How many channels there are.
    pub fn channel_count(&self) -> (n: usize)
        ensures
            n == self@.len(),
    {
        self.channels.len()
    }

    /// Closes every channel, keeping them in the map.
    pub fn close_all(&mut self)
        ensures
            final(self)@.dom() == old(self)@.dom(),
            forall|k: u32| #[trigger]
                old(self)@.contains_key(k) ==> final(self)@[k] == (Channel {
                    state: ChannelState::Closed,
                    ..old(self)@[k]
                }),
            final(self).next_id() == old(self).next_id(),
    {
        let ids = self.channel_ids();
        let mut i: usize = 0;
        while i < ids.len()
            invariant
                ids@.to_set() == old(self)@.dom(),
                ids@.no_duplicates(),
                i <= ids@.len(),
                self@.dom() == old(self)@.dom(),
                self.next_id() == old(self).next_id(),
                forall|j: int|
                    0 <= j < i ==> #[trigger] self@[ids@[j]] == (Channel {
                        state: ChannelState::Closed,
                        ..old(self)@[ids@[j]]
                    }),
                forall|j: int| i <= j < ids@.len() ==> #[trigger] self@[ids@[j]] == old(self)@[ids@[j]],
            decreases ids@.len() - i,
        {
            let id = ids[i];
            proof {
                assert(ids@.to_set().contains(id));
            }
            match self.get_channel_mut(id) {
                Some(ch) => ch.close(),
                None => {},
            }
            proof {
                assert forall|j: int| i < j < ids@.len() implies ids@[j] != id by {
                    assert(ids@[i as int] == id);
                }
            }
            i = i + 1;
        }
        proof {
            assert forall|k: u32| #[trigger] old(self)@.contains_key(k) implies self@[k] == (Channel {
                state: ChannelState::Closed,
                ..old(self)@[k]
            }) by {
                assert(ids@.to_set().contains(k));
                let j = ids@.index_of(k);
                assert(ids@[j] == k);
            }
        }
    }
}

} // verus!
