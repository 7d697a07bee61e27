//! The connection protocol's channel messages: opening direct-tcpip channels,
//! data with flow control, EOF, close, window adjust and channel requests.
use vstd::prelude::*;
use vstd::utf8::{encode_utf8, decode_utf8};
use std::collections::HashMap;
use crate::error::SshError;
use crate::wire::{u32_be, be_u32_at, ssh_string, put_u32, put_slice, get_u32_at, to_vec};
use crate::text::{concat, decimal, decimal_digits};
use crate::messages::{
    ChannelOpenRequest, build_channel_open_failure, build_channel_open_confirmation,
    channel_open_aborts, channel_open_would_abort, spec_channel_open, direct_tcpip,
    OPEN_FAILURE_UNKNOWN_CHANNEL_TYPE, OPEN_FAILURE_CONNECT_FAILED,
};
use crate::channel::{Channel, ChannelManager, ChannelState, after_remote_eof};
use crate::settings::Settings;

verus! {

broadcast use vstd::std_specs::hash::group_hash_axioms;

/// A channel whose target connection is up and that needs a bridge.
#[derive(Debug, Clone)]
pub struct PendingForward {
    pub local_channel_id: u32,
    pub remote_channel_id: u32,
    pub target_host: String,
    pub target_port: u32,
}

/// Channel data waiting to go to its target.
#[derive(Debug, Clone)]
pub struct PendingChannelData {
    pub channel_id: u32,
    pub data: Vec<u8>,
}

/// A channel-open that waits for the target connection.
#[derive(Debug, Clone)]
pub struct PendingOpen {
    pub sender_channel: u32,
    pub target_host: String,
    pub target_port: u32,
}

/// What a channel-open request calls for: an immediate reply, or a connection to the
/// target before the reply.
pub enum ChannelOpenStep {
    Reply(Vec<u8>),
    Connect(PendingOpen),
}

/// A channel-open failure body.
pub open spec fn open_failure_body(recipient: u32, reason: u32, description: Seq<u8>) -> Seq<u8> {
    u32_be(recipient) + u32_be(reason) + ssh_string(description) + ssh_string(Seq::empty())
}

/// The description of a failed target connection: `Failed to connect to host:port`.
pub open spec fn connect_failed_text(host: Seq<char>, port: u32) -> Seq<u8> {
    encode_utf8("Failed to connect to "@) + encode_utf8(host) + seq![58u8] + decimal_digits(port as u64)
}

/// The 4-byte big-endian field at `i`.
pub open spec fn field(p: Seq<u8>, i: int) -> u32 {
    be_u32_at(p, i)
}

/// What the first eight bytes of a channel-data body announce, and the data.
pub open spec fn spec_channel_data(p: Seq<u8>) -> Result<(u32, Seq<u8>), SshError> {
    if p.len() < 8 {
        Err(SshError::ChannelMessageTooShort)
    } else if p.len() - 8 < field(p, 4) {
        Err(SshError::IncompleteChannelData)
    } else {
        Ok((field(p, 0), p.subrange(8, 8 + field(p, 4))))
    }
}

/// The channel messages of one connection.
pub struct ChannelHandler {
    channels: ChannelManager,
    settings: Settings,
    authenticated: bool,
    pending_forwards: HashMap<u32, PendingForward>,
    pending_data: Vec<PendingChannelData>,
}

/// A field-by-field copy of a pending forward.
fn copy_forward(f: &PendingForward) -> (r: PendingForward)
    ensures
        r == *f,
{
    PendingForward {
        local_channel_id: f.local_channel_id,
        remote_channel_id: f.remote_channel_id,
        target_host: f.target_host.clone(),
        target_port: f.target_port,
    }
}

/// Splits a channel-data body into the recipient channel and the data.
fn split_channel_data(payload: &[u8]) -> (r: Result<(u32, Vec<u8>), SshError>)
    ensures
        match spec_channel_data(payload@) {
            Ok((id, d)) => r matches Ok((id2, v)) && id2 == id && v@ == d,
            Err(e) => r == Err::<(u32, Vec<u8>), SshError>(e),
        },
{
    if payload.len() < 8 {
        return Err(SshError::ChannelMessageTooShort);
    }
    let recipient_channel = get_u32_at(payload, 0);
    let data_len = get_u32_at(payload, 4) as usize;
    if payload.len() - 8 < data_len {
        return Err(SshError::IncompleteChannelData);
    }
    let data = to_vec(&payload[8..8 + data_len]);
    Ok((recipient_channel, data))
}

impl ChannelHandler {
    /// The channels: the channel manager's map.
    pub open spec fn channel_map(&self) -> Map<u32, Channel> {
        self.manager()@
    }

    /// The channel manager.
    pub closed spec fn manager(&self) -> ChannelManager {
        self.channels
    }

    /// The settings.
    pub closed spec fn settings_view(&self) -> Settings {
        self.settings
    }

    /// Whether channel opens are allowed.
    pub closed spec fn is_auth(&self) -> bool {
        self.authenticated
    }

    /// Channels waiting for a bridge, by local ID.
    pub closed spec fn forwards(&self) -> Map<u32, PendingForward> {
        self.pending_forwards@
    }

    /// Data waiting to go to targets, oldest first.
    pub closed spec fn pending(&self) -> Seq<PendingChannelData> {
        self.pending_data@
    }

    /// A handler with no channels, not yet allowed to open any.
    pub fn new(settings: Settings) -> (h: ChannelHandler)
        ensures
            h.channel_map() == Map::<u32, Channel>::empty(),
            h.manager().next_id() == 0,
            h.settings_view() == settings,
            !h.is_auth(),
            h.forwards() == Map::<u32, PendingForward>::empty(),
            forwards_keyed(h.forwards()),
            h.pending().len() == 0,
    {
        ChannelHandler {
            channels: ChannelManager::new(),
            settings,
            authenticated: false,
            pending_forwards: HashMap::new(),
            pending_data: Vec::new(),
        }
    }

    /// Whether channel opens are allowed.
    pub fn is_authenticated(&self) -> (r: bool)
        ensures
            r == self.is_auth(),
    {
        self.authenticated
    }

    /// Allows (or forbids) channel opens.
    pub fn set_authenticated(&mut self, authenticated: bool)
        ensures
            final(self).is_auth() == authenticated,
            final(self).manager() == old(self).manager(),
            final(self).settings_view() == old(self).settings_view(),
            final(self).forwards() == old(self).forwards(),
            final(self).pending() == old(self).pending(),
    {
        self.authenticated = authenticated;
    }

    /// Reads a channel-open request: refused before authentication or when malformed;
    /// a channel type other than direct-tcpip is answered with a failure at once;
    /// a direct-tcpip request asks for a connection to its target.
    pub fn prepare_channel_open(&self, payload: &[u8]) -> (r: Result<ChannelOpenStep, SshError>)
        ensures
            open_outcome(*self, payload@, r),
    {
        if !self.authenticated {
            return Err(SshError::NotAuthenticated);
        }
        if channel_open_would_abort(payload) {
            return Err(SshError::MalformedPacket);
        }
        let open_req = match ChannelOpenRequest::parse(payload) {
            Ok(r) => r,
            Err(e) => {
                return Err(e);
            },
        };
        if !open_req.is_supported() {
            let response = build_channel_open_failure(
                open_req.sender_channel,
                OPEN_FAILURE_UNKNOWN_CHANNEL_TYPE,
                "Only direct-tcpip is supported",
            );
            return Ok(ChannelOpenStep::Reply(response));
        }
        let target_host = match open_req.host {
            Some(h) => h,
            None => "unknown".to_owned(),
        };
        let target_port = match open_req.port {
            Some(p) => p,
            None => 0,
        };
        Ok(ChannelOpenStep::Connect(PendingOpen { sender_channel: open_req.sender_channel, target_host, target_port }))
    }

    /// Finishes a channel-open once the target connection was tried: a failure reply if
    /// it failed; otherwise a new channel (next local ID, windows from the settings)
    /// with its target, a pending forward for it, and the confirmation.
    pub fn complete_channel_open(&mut self, open: PendingOpen, connected: bool) -> (r: Vec<u8>)
        ensures
            open_completed(*old(self), *final(self), open, connected, r@),
    {
        if !connected {
            let prefix = concat("Failed to connect to ", open.target_host.as_str());
            let with_colon = concat(prefix.as_str(), ":");
            let port = decimal(open.target_port as u64);
            let description = concat(with_colon.as_str(), port.as_str());
            proof {
                reveal_strlit(":");
                vstd::utf8::is_ascii_chars_encode_utf8(":"@);
                assert(encode_utf8(":"@) =~= seq![58u8]);
            }
            return build_channel_open_failure(open.sender_channel, OPEN_FAILURE_CONNECT_FAILED, description.as_str());
        }
        let local_id = self.channels.allocate_channel_id();
        let mut channel = Channel::new(
            local_id,
            open.sender_channel,
            self.settings.initial_window_size,
            self.settings.max_packet_size,
        );
        let host_copy = open.target_host.clone();
        channel.target_host = Some(open.target_host);
        channel.target_port = Some(open.target_port);
        self.pending_forwards.insert(
            local_id,
            PendingForward {
                local_channel_id: local_id,
                remote_channel_id: open.sender_channel,
                target_host: host_copy,
                target_port: open.target_port,
            },
        );
        self.channels.add_channel(channel);
        build_channel_open_confirmation(
            open.sender_channel,
            local_id,
            self.settings.initial_window_size,
            self.settings.max_packet_size,
        )
    }

    /// Handles channel data: queues the data for its target, charges it to the
    /// channel's window, and once the window falls below half the initial size tops it
    /// up and answers with a window adjust for the difference.
    pub fn handle_channel_data(&mut self, payload: &[u8]) -> (r: Result<Option<Vec<u8>>, SshError>)
        ensures
            data_step(*old(self), *final(self), payload@, r),
    {
        let (recipient_channel, data) = match split_channel_data(payload) {
            Ok(x) => x,
            Err(e) => {
                return Err(e);
            },
        };
        let data_len = data.len() as u32;
        let initial = self.settings.initial_window_size;
        let ghost pre_pending = self.pending_data@;
        self.pending_data.push(PendingChannelData { channel_id: recipient_channel, data });
        assert(self.pending_data@.drop_last() =~= pre_pending);
        let ghost pre_map = self.channels@;
        let (should_send_adjust, remote_id) = match self.channels.get_channel_mut(recipient_channel) {
            Some(channel) => {
                match channel.consume_local_window(data_len) {
                    Ok(()) => {},
                    Err(e) => {
                        proof {
                            assert(self.channels@ =~= pre_map);
                        }
                        return Err(e);
                    },
                }
                let should_adjust = channel.local_window < initial / 2;
                (should_adjust, channel.remote_id)
            },
            None => {
                return Ok(None);
            },
        };
        if should_send_adjust {
            match self.channels.get_channel_mut(recipient_channel) {
                Some(channel) => {
                    let bytes_to_add = initial - channel.local_window;
                    channel.local_window = initial;
                    proof {
                        assert(self.channels@ =~= pre_map.insert(
                            recipient_channel,
                            Channel { local_window: initial, ..pre_map[recipient_channel] },
                        ));
                    }
                    return Ok(Some(Self::build_window_adjust(remote_id, bytes_to_add)));
                },
                None => {
                    return Ok(None);
                },
            }
        }
        Ok(None)
    }

    /// Handles channel EOF: the channel, if known, records the remote EOF.
    pub fn handle_channel_eof(&mut self, payload: &[u8]) -> (r: Result<Option<Vec<u8>>, SshError>)
        ensures
            eof_outcome(*old(self), *final(self), payload@, r),
    {
        if payload.len() < 4 {
            return Err(SshError::ChannelMessageTooShort);
        }
        let channel_id = get_u32_at(payload, 0);
        match self.channels.get_channel_mut(channel_id) {
            Some(channel) => channel.set_remote_eof(),
            None => {},
        }
        Ok(None)
    }

    /// Handles channel close: a known channel is removed (with its pending forward)
    /// and the answer is its remote ID, for our own close.
    pub fn handle_channel_close(&mut self, payload: &[u8]) -> (r: Result<Option<Vec<u8>>, SshError>)
        ensures
            close_outcome(*old(self), *final(self), payload@, r),
    {
        if payload.len() < 4 {
            return Err(SshError::ChannelMessageTooShort);
        }
        let channel_id = get_u32_at(payload, 0);
        match self.channels.remove_channel(channel_id) {
            Some(channel) => {
                let mut channel = channel;
                channel.close();
                self.pending_forwards.remove(&channel_id);
                let mut response: Vec<u8> = Vec::new();
                put_u32(&mut response, channel.remote_id);
                assert(response@ =~= u32_be(channel.remote_id));
                Ok(Some(response))
            },
            None => Ok(None),
        }
    }

    /// Handles a window adjust: the channel, if known, gets the bytes added to the
    /// peer's window (saturating).
    pub fn handle_window_adjust(&mut self, payload: &[u8]) -> (r: Result<Option<Vec<u8>>, SshError>)
        ensures
            adjust_outcome(*old(self), *final(self), payload@, r),
    {
        if payload.len() < 8 {
            return Err(SshError::ChannelMessageTooShort);
        }
        let channel_id = get_u32_at(payload, 0);
        let bytes_to_add = get_u32_at(payload, 4);
        match self.channels.get_channel_mut(channel_id) {
            Some(channel) => channel.add_remote_window(bytes_to_add),
            None => {},
        }
        Ok(None)
    }

    /// Handles a channel request (pty, shell, ...): all are refused; the answer names
    /// the channel.
    pub fn handle_channel_request(&mut self, payload: &[u8]) -> (r: Result<Option<Vec<u8>>, SshError>)
        ensures
            request_outcome(*old(self), *final(self), payload@, r),
    {
        if payload.len() < 4 {
            return Err(SshError::ChannelMessageTooShort);
        }
        let channel_id = get_u32_at(payload, 0);
        let mut response: Vec<u8> = Vec::new();
        put_u32(&mut response, channel_id);
        proof {
            crate::wire::lemma_be_u32_at_bytes(payload@, 0);
            assert(response@ =~= payload@.subrange(0, 4));
        }
        Ok(Some(response))
    }

    /// A channel-data body carrying `data` to the peer on channel `channel_id`.
    pub fn build_channel_data(&self, channel_id: u32, data: &[u8]) -> (r: Result<Vec<u8>, SshError>)
        ensures
            self.channel_map().contains_key(channel_id) ==> (r matches Ok(v) && v@ == u32_be(
                self.channel_map()[channel_id].remote_id,
            ) + u32_be(data@.len() as u32) + data@),
            !self.channel_map().contains_key(channel_id) ==> r == Err::<Vec<u8>, SshError>(
                SshError::ChannelNotFound,
            ),
    {
        match self.channels.get_channel(channel_id) {
            Some(channel) => {
                let mut msg: Vec<u8> = Vec::new();
                put_u32(&mut msg, channel.remote_id);
                put_u32(&mut msg, data.len() as u32);
                put_slice(&mut msg, data);
                assert(msg@ =~= u32_be(channel.remote_id) + u32_be(data@.len() as u32) + data@);
                Ok(msg)
            },
            None => Err(SshError::ChannelNotFound),
        }
    }

    /// A channel-EOF body for channel `channel_id`.
    pub fn build_channel_eof(&self, channel_id: u32) -> (r: Result<Vec<u8>, SshError>)
        ensures
            self.channel_map().contains_key(channel_id) ==> (r matches Ok(v) && v@ == u32_be(
                self.channel_map()[channel_id].remote_id,
            )),
            !self.channel_map().contains_key(channel_id) ==> r == Err::<Vec<u8>, SshError>(
                SshError::ChannelNotFound,
            ),
    {
        match self.channels.get_channel(channel_id) {
            Some(channel) => {
                let mut msg: Vec<u8> = Vec::new();
                put_u32(&mut msg, channel.remote_id);
                assert(msg@ =~= u32_be(channel.remote_id));
                Ok(msg)
            },
            None => Err(SshError::ChannelNotFound),
        }
    }

    /// A window-adjust body.
    fn build_window_adjust(remote_channel_id: u32, bytes_to_add: u32) -> (r: Vec<u8>)
        ensures
            r@ == u32_be(remote_channel_id) + u32_be(bytes_to_add),
    {
        let mut msg: Vec<u8> = Vec::new();
        put_u32(&mut msg, remote_channel_id);
        put_u32(&mut msg, bytes_to_add);
        assert(msg@ =~= u32_be(remote_channel_id) + u32_be(bytes_to_add));
        msg
    }

    /// Closes every channel and drops the pending forwards.
    pub fn close_all(&mut self)
        ensures
            final(self).channel_map().dom() == old(self).channel_map().dom(),
            forall|k: u32| #[trigger]
                old(self).channel_map().contains_key(k) ==> final(self).channel_map()[k] == (Channel {
                    state: ChannelState::Closed,
                    ..old(self).channel_map()[k]
                }),
            final(self).forwards() == Map::<u32, PendingForward>::empty(),
            final(self).manager().next_id() == old(self).manager().next_id(),
            final(self).settings_view() == old(self).settings_view(),
            final(self).is_auth() == old(self).is_auth(),
            final(self).pending() == old(self).pending(),
    {
        self.channels.close_all();
        self.pending_forwards = HashMap::new();
    }

    /// The channel manager.
    pub fn channels(&self) -> (r: &ChannelManager)
        ensures
            *r == self.manager(),
    {
        &self.channels
    }

    /// The channel manager, for change.
    pub fn channels_mut(&mut self) -> (r: &mut ChannelManager)
        ensures
            *r == old(self).manager(),
            final(self).manager() == *final(r),
            final(self).settings_view() == old(self).settings_view(),
            final(self).is_auth() == old(self).is_auth(),
            final(self).forwards() == old(self).forwards(),
            final(self).pending() == old(self).pending(),
    {
        &mut self.channels
    }

    /// Hands out the pending forwards, each once, leaving none.
    pub fn take_pending_forwards(&mut self) -> (r: Vec<PendingForward>)
        ensures
            exists|ids: Seq<u32>|
                #![trigger ids.to_set()]
                ids.no_duplicates() && ids.to_set() == old(self).forwards().dom() && ids.len() == r@.len()
                    && forall|i: int| 0 <= i < ids.len() ==> #[trigger] r@[i] == old(self).forwards()[ids[i]],
            forwards_keyed(old(self).forwards()) ==> forall|i: int, j: int|
                0 <= i < j < r@.len() ==> #[trigger] r@[i].local_channel_id != #[trigger] r@[j].local_channel_id,
            final(self).forwards() == Map::<u32, PendingForward>::empty(),
            final(self).manager() == old(self).manager(),
            final(self).settings_view() == old(self).settings_view(),
            final(self).is_auth() == old(self).is_auth(),
            final(self).pending() == old(self).pending(),
    {
        let mut out: Vec<PendingForward> = Vec::new();
        let mut ids: Vec<u32> = Vec::new();
        for k in it: self.pending_forwards.keys()
            invariant
                ids@ == it.seq().take(it.index()).map_values(|r: &u32| *r),
                it.seq() == vstd::std_specs::iter::IteratorSpec::remaining(&vstd::std_specs::hash::spec_keys_iter(&self.pending_forwards)),
        {
            ids.push(*k);
        }
        proof {
            let r = vstd::std_specs::iter::IteratorSpec::remaining(&vstd::std_specs::hash::spec_keys_iter(&self.pending_forwards));
            assert(r.take(r.len() as int) =~= r);
            assert(ids@ =~= r.unref());
        }
        let mut i: usize = 0;
        while i < ids.len()
            invariant
                ids@.to_set() == self.pending_forwards@.dom(),
                ids@.no_duplicates(),
                i <= ids@.len(),
                out@.len() == i,
                forall|j: int| 0 <= j < i ==> #[trigger] out@[j] == self.pending_forwards@[ids@[j]],
            decreases ids@.len() - i,
        {
            let id = ids[i];
            proof {
                assert(ids@.to_set().contains(id));
            }
            match self.pending_forwards.get(&id) {
                Some(f) => out.push(copy_forward(f)),
                None => {},
            }
            i = i + 1;
        }
        let ghost old_forwards = self.pending_forwards@;
        self.pending_forwards = HashMap::new();
        proof {
            assert(ids@.to_set() == old_forwards.dom());
            if forwards_keyed(old_forwards) {
                assert forall|a: int, b: int| 0 <= a < b < out@.len() implies #[trigger] out@[a].local_channel_id
                    != #[trigger] out@[b].local_channel_id by {
                    assert(ids@.to_set().contains(ids@[a]));
                    assert(ids@.to_set().contains(ids@[b]));
                    assert(old_forwards.contains_key(ids@[a]));
                    assert(old_forwards.contains_key(ids@[b]));
                    assert(ids@[a] != ids@[b]);
                }
            }
        }
        out
    }

    /// Whether channel `channel_id` exists and may still send.
    pub fn can_send(&self, channel_id: u32) -> (r: bool)
        ensures
            r == (self.channel_map().contains_key(channel_id) && self.channel_map()[channel_id].state
                == ChannelState::Open && self.channel_map()[channel_id].remote_window > 0),
    {
        match self.channels.get_channel(channel_id) {
            Some(ch) => ch.can_send(),
            None => false,
        }
    }

    /// Hands out the data waiting for targets, leaving none.
    pub fn take_pending_data(&mut self) -> (r: Vec<PendingChannelData>)
        ensures
            r@ == old(self).pending(),
            final(self).pending().len() == 0,
            final(self).manager() == old(self).manager(),
            final(self).settings_view() == old(self).settings_view(),
            final(self).is_auth() == old(self).is_auth(),
            final(self).forwards() == old(self).forwards(),
    {
        let mut taken: Vec<PendingChannelData> = Vec::new();
        std::mem::swap(&mut taken, &mut self.pending_data);
        taken
    }

    /// Splits a channel-data body into the recipient channel and the data.
    pub fn extract_channel_data(&self, payload: &[u8]) -> (r: Result<(u32, Vec<u8>), SshError>)
        ensures
            match spec_channel_data(payload@) {
                Ok((id, d)) => r matches Ok((id2, v)) && id2 == id && v@ == d,
                Err(e) => r == Err::<(u32, Vec<u8>), SshError>(e),
            },
    {
        split_channel_data(payload)
    }
}

/// What `ChannelHandler::prepare_channel_open` does.
pub open spec fn open_outcome(pre: ChannelHandler, payload: Seq<u8>, r: Result<ChannelOpenStep, SshError>) -> bool {
    &&& (!pre.is_auth() ==> r == Err::<ChannelOpenStep, SshError>(SshError::NotAuthenticated))
    &&& (pre.is_auth() && channel_open_aborts(payload) ==> r == Err::<ChannelOpenStep, SshError>(
        SshError::MalformedPacket,
    ))
    &&& (pre.is_auth() && !channel_open_aborts(payload) ==> match spec_channel_open(payload) {
        Err(e) => r == Err::<ChannelOpenStep, SshError>(e),
        Ok((ty, sender, _, _, target)) => if decode_utf8(ty) != direct_tcpip() {
            r matches Ok(ChannelOpenStep::Reply(p)) && p@ == open_failure_body(
                sender,
                3,
                encode_utf8("Only direct-tcpip is supported"@),
            )
        } else {
            r matches Ok(ChannelOpenStep::Connect(o)) && o.sender_channel == sender && match target {
                Some((h, port)) => o.target_host@ == decode_utf8(h) && o.target_port == port,
                None => o.target_host@ == "unknown"@ && o.target_port == 0,
            }
        }
    })
}

/// What finishing a channel open does, given whether its target was reached: a
/// failure reply if not; otherwise a new channel (next local ID, windows from the
/// settings) with its target, a pending forward for it, and the confirmation.
pub open spec fn open_completed(
    pre: ChannelHandler,
    post: ChannelHandler,
    open: PendingOpen,
    connected: bool,
    reply: Seq<u8>,
) -> bool {
    &&& post.settings_view() == pre.settings_view()
    &&& post.is_auth() == pre.is_auth()
    &&& post.pending() == pre.pending()
    &&& !connected ==> reply == open_failure_body(
        open.sender_channel,
        2,
        connect_failed_text(open.target_host@, open.target_port),
    ) && post.manager() == pre.manager() && post.forwards() == pre.forwards()
    &&& connected ==> {
        let id = pre.manager().next_id();
        let iw = pre.settings_view().initial_window_size;
        let mp = pre.settings_view().max_packet_size;
        &&& reply == u32_be(open.sender_channel) + u32_be(id) + u32_be(iw) + u32_be(mp)
        &&& post.manager().next_id() == (if id == u32::MAX {
            0
        } else {
            (id + 1) as u32
        })
        &&& post.channel_map() == pre.channel_map().insert(
            id,
            Channel {
                local_id: id,
                remote_id: open.sender_channel,
                state: ChannelState::Open,
                remote_window: iw,
                local_window: iw,
                remote_max_packet: mp,
                local_max_packet: mp,
                target_host: Some(open.target_host),
                target_port: Some(open.target_port),
            },
        )
        &&& post.forwards().dom() == pre.forwards().dom().insert(id)
        &&& post.forwards()[id].local_channel_id == id
        &&& post.forwards()[id].remote_channel_id == open.sender_channel
        &&& post.forwards()[id].target_host@ == open.target_host@
        &&& post.forwards()[id].target_port == open.target_port
        &&& forall|k: u32| k != id && #[trigger] pre.forwards().contains_key(k)
            ==> post.forwards()[k] == pre.forwards()[k]
    }
}

/// Each pending forward sits under its own local channel ID.
pub open spec fn forwards_keyed(f: Map<u32, PendingForward>) -> bool {
    forall|k: u32| #[trigger] f.contains_key(k) ==> f[k].local_channel_id == k
}

/// Finishing a channel open keeps every pending forward under its own local channel
/// ID, so the forwards handed out name each channel once.
pub proof fn lemma_open_keeps_forwards_keyed(
    pre: ChannelHandler,
    post: ChannelHandler,
    open: PendingOpen,
    connected: bool,
    reply: Seq<u8>,
)
    requires
        open_completed(pre, post, open, connected, reply),
        forwards_keyed(pre.forwards()),
    ensures
        forwards_keyed(post.forwards()),
{
    if connected {
        let id = pre.manager().next_id();
        assert forall|k: u32| #[trigger] post.forwards().contains_key(k) implies post.forwards()[k].local_channel_id
            == k by {
            if k != id {
                assert(pre.forwards().dom().insert(id).contains(k));
                assert(pre.forwards().contains_key(k));
            }
        }
    }
}

/// Closing a channel keeps every remaining pending forward under its own local
/// channel ID.
pub proof fn lemma_close_keeps_forwards_keyed(
    pre: ChannelHandler,
    post: ChannelHandler,
    payload: Seq<u8>,
    r: Result<Option<Vec<u8>>, SshError>,
)
    requires
        close_outcome(pre, post, payload, r),
        forwards_keyed(pre.forwards()),
    ensures
        forwards_keyed(post.forwards()),
{
}

/// What `ChannelHandler::handle_channel_data` does.
pub open spec fn data_step(pre: ChannelHandler, post: ChannelHandler, payload: Seq<u8>, r: Result<Option<Vec<u8>>, SshError>) -> bool {
    &&& (post.settings_view() == pre.settings_view())
    &&& (post.is_auth() == pre.is_auth())
    &&& (post.forwards() == pre.forwards())
    &&& (post.manager().next_id() == pre.manager().next_id())
    &&& (match spec_channel_data(payload) {
        Err(e) => r == Err::<Option<Vec<u8>>, SshError>(e) && post == pre,
        Ok((id, d)) => {
            &&& post.pending().len() == pre.pending().len() + 1
            &&& post.pending().drop_last() == pre.pending()
            &&& post.pending().last().channel_id == id
            &&& post.pending().last().data@ == d
            &&& data_outcome(
                pre.channel_map(),
                post.channel_map(),
                id,
                d.len() as u32,
                pre.settings_view().initial_window_size,
                r,
            )
        }
    })
}

/// What `ChannelHandler::handle_channel_eof` does.
pub open spec fn eof_outcome(pre: ChannelHandler, post: ChannelHandler, payload: Seq<u8>, r: Result<Option<Vec<u8>>, SshError>) -> bool {
    &&& (payload.len() < 4 ==> r == Err::<Option<Vec<u8>>, SshError>(SshError::ChannelMessageTooShort)
        && post == pre)
    &&& (payload.len() >= 4 ==> r == Ok::<Option<Vec<u8>>, SshError>(None) && {
        let id = field(payload, 0);
        &&& pre.channel_map().contains_key(id) ==> post.channel_map()
            == pre.channel_map().insert(
            id,
            Channel { state: after_remote_eof(pre.channel_map()[id].state), ..pre.channel_map()[id] },
        )
        &&& !pre.channel_map().contains_key(id) ==> post.channel_map() == pre.channel_map()
    })
    &&& (post.manager().next_id() == pre.manager().next_id())
    &&& (post.settings_view() == pre.settings_view())
    &&& (post.is_auth() == pre.is_auth())
    &&& (post.forwards() == pre.forwards())
    &&& (post.pending() == pre.pending())
}

/// What `ChannelHandler::handle_channel_close` does.
pub open spec fn close_outcome(pre: ChannelHandler, post: ChannelHandler, payload: Seq<u8>, r: Result<Option<Vec<u8>>, SshError>) -> bool {
    &&& (payload.len() < 4 ==> r == Err::<Option<Vec<u8>>, SshError>(SshError::ChannelMessageTooShort)
        && post == pre)
    &&& (payload.len() >= 4 ==> {
        let id = field(payload, 0);
        &&& post.channel_map() == pre.channel_map().remove(id)
        &&& pre.channel_map().contains_key(id) ==> (r matches Ok(Some(p)) && p@ == u32_be(
            pre.channel_map()[id].remote_id,
        )) && post.forwards() == pre.forwards().remove(id)
        &&& !pre.channel_map().contains_key(id) ==> r == Ok::<Option<Vec<u8>>, SshError>(None)
            && post.forwards() == pre.forwards()
    })
    &&& (post.manager().next_id() == pre.manager().next_id())
    &&& (post.settings_view() == pre.settings_view())
    &&& (post.is_auth() == pre.is_auth())
    &&& (post.pending() == pre.pending())
}

/// What `ChannelHandler::handle_window_adjust` does.
pub open spec fn adjust_outcome(pre: ChannelHandler, post: ChannelHandler, payload: Seq<u8>, r: Result<Option<Vec<u8>>, SshError>) -> bool {
    &&& (payload.len() < 8 ==> r == Err::<Option<Vec<u8>>, SshError>(SshError::ChannelMessageTooShort)
        && post == pre)
    &&& (payload.len() >= 8 ==> r == Ok::<Option<Vec<u8>>, SshError>(None) && {
        let id = field(payload, 0);
        let add = field(payload, 4);
        &&& pre.channel_map().contains_key(id) ==> post.channel_map()
            == pre.channel_map().insert(
            id,
            Channel {
                remote_window: if pre.channel_map()[id].remote_window + add > u32::MAX {
                    u32::MAX
                } else {
                    (pre.channel_map()[id].remote_window + add) as u32
                },
                ..pre.channel_map()[id]
            },
        )
        &&& !pre.channel_map().contains_key(id) ==> post.channel_map() == pre.channel_map()
    })
    &&& (post.manager().next_id() == pre.manager().next_id())
    &&& (post.settings_view() == pre.settings_view())
    &&& (post.is_auth() == pre.is_auth())
    &&& (post.forwards() == pre.forwards())
    &&& (post.pending() == pre.pending())
}

/// What `ChannelHandler::handle_channel_request` does.
pub open spec fn request_outcome(pre: ChannelHandler, post: ChannelHandler, payload: Seq<u8>, r: Result<Option<Vec<u8>>, SshError>) -> bool {
    &&& (payload.len() < 4 ==> r == Err::<Option<Vec<u8>>, SshError>(SshError::ChannelMessageTooShort))
    &&& (payload.len() >= 4 ==> (r matches Ok(Some(p)) && p@ == payload.subrange(0, 4)))
    &&& (post == pre)
}

/// What channel data does to the channels and what it is answered: an unknown
/// channel is ignored; data beyond the local window is refused; otherwise the window
/// shrinks, and below half the initial window it is topped up to the initial size and
/// the answer is a window adjust (remote ID, bytes added).
pub open spec fn data_outcome(
    pre: Map<u32, Channel>,
    post: Map<u32, Channel>,
    id: u32,
    len: u32,
    initial: u32,
    r: Result<Option<Vec<u8>>, SshError>,
) -> bool {
    if !pre.contains_key(id) {
        r == Ok::<Option<Vec<u8>>, SshError>(None) && post == pre
    } else if len > pre[id].local_window {
        r == Err::<Option<Vec<u8>>, SshError>(SshError::InsufficientLocalWindow) && post == pre
    } else {
        let left = (pre[id].local_window - len) as u32;
        if left < initial / 2 {
            &&& r matches Ok(Some(p)) && p@ == u32_be(pre[id].remote_id) + u32_be((initial - left) as u32)
            &&& post == pre.insert(id, Channel { local_window: initial, ..pre[id] })
        } else {
            &&& r == Ok::<Option<Vec<u8>>, SshError>(None)
            &&& post == pre.insert(id, Channel { local_window: left, ..pre[id] })
        }
    }
}

} // verus!
