//! One client connection around its SSH handler: the session guard once the user
//! is authenticated, the channels that have a forwarding bridge, and the messages the
//! bridges report; plus reading the channel fields of connection-protocol messages.
use vstd::prelude::*;
use std::collections::HashSet;
use std::sync::Arc;
use crate::error::SshError;
use crate::wire::get_u32_at;
use crate::channel_handler::{spec_channel_data, field, PendingForward, PendingChannelData};
use crate::handler::SshHandler;
use crate::settings::Settings;
use crate::host_key::HostKey;
use crate::guard::SessionGuard;
use crate::auth_cache::AuthCache;
use crate::auth_handler::AuthState;
use crate::transport::{SshTransport, TransportState, encodes};
use crate::bridge::SSH_MSG_CHANNEL_EOF;

verus! {

/// The recipient channel of a channel message, if the body holds one.
pub fn extract_channel_id(payload: &[u8]) -> (r: Option<u32>)
    ensures
        r == if payload@.len() >= 4 {
            Some(field(payload@, 0))
        } else {
            None
        },
{
    if payload.len() >= 4 {
        Some(get_u32_at(payload, 0))
    } else {
        None
    }
}

/// The recipient channel and data of a channel-data body, if it is complete.
pub fn extract_channel_data(payload: &[u8]) -> (r: Option<(u32, Vec<u8>)>)
    ensures
        match spec_channel_data(payload@) {
            Ok((id, d)) => r matches Some((id2, v)) && id2 == id && v@ == d,
            Err(_) => r is None,
        },
{
    if payload.len() < 8 {
        return None;
    }
    let channel_id = get_u32_at(payload, 0);
    let data_len = get_u32_at(payload, 4) as usize;
    if payload.len() - 8 < data_len {
        return None;
    }
    let data = crate::wire::to_vec(&payload[8..8 + data_len]);
    Some((channel_id, data))
}

broadcast use vstd::std_specs::hash::group_hash_axioms;

/// What a bridge reports to its connection.
pub enum BridgeMessage {
    /// A message for the client: its type byte, then its body.
    Data { channel_id: u32, msg: Vec<u8> },
    /// The target sent EOF.
    Eof { channel_id: u32 },
    /// The bridge finished.
    Close { channel_id: u32 },
    /// The bridge failed.
    Error { channel_id: u32, error: String },
}

/// The channel and bytes of each waiting data item.
pub open spec fn data_view(s: Seq<PendingChannelData>) -> Seq<(u32, Seq<u8>)> {
    s.map_values(|d: PendingChannelData| (d.channel_id, d.data@))
}

/// The items whose channel is in `ids`, in order.
pub open spec fn for_bridges(s: Seq<(u32, Seq<u8>)>, ids: Set<u32>) -> Seq<(u32, Seq<u8>)>
    decreases s.len(),
{
    if s.len() == 0 {
        Seq::empty()
    } else if ids.contains(s.last().0) {
        for_bridges(s.drop_last(), ids).push(s.last())
    } else {
        for_bridges(s.drop_last(), ids)
    }
}

/// The local channel IDs of the first `n` forwards.
pub open spec fn forward_ids(fs: Seq<PendingForward>, n: int) -> Set<u32> {
    Set::new(|id: u32| exists|j: int| 0 <= j < n && #[trigger] fs[j].local_channel_id == id)
}

/// The authenticated user of a handler: its user once authentication succeeded.
pub open spec fn authenticated_user(h: SshHandler) -> Option<Seq<char>> {
    match h.transport_view().auth() {
        Some(a) => if a.state_view() == AuthState::Success {
            a.user_view()
        } else {
            None
        },
        None => None,
    }
}

/// A user's entry after a logout recorded when `b` holds.
pub open spec fn logout_if(b: bool, c: Option<u32>) -> Option<u32> {
    if b {
        crate::sessions::after_logout(c)
    } else {
        c
    }
}

/// One client connection.
pub struct ConnectionManager {
    ssh_handler: SshHandler,
    bridge_channels: HashSet<u32>,
    session_guard: Option<SessionGuard>,
    initial_window_size: u32,
    authenticated: bool,
}

impl ConnectionManager {
    /// The SSH handler.
    pub closed spec fn handler(&self) -> SshHandler {
        self.ssh_handler
    }

    /// The channels with a bridge.
    pub closed spec fn bridges(&self) -> Set<u32> {
        self.bridge_channels@
    }

    /// The session guard, once the user is authenticated.
    pub closed spec fn guard(&self) -> Option<SessionGuard> {
        self.session_guard
    }

    /// Whether the session was started.
    pub closed spec fn started(&self) -> bool {
        self.authenticated
    }

    /// The window each bridge starts with.
    pub closed spec fn initial_window(&self) -> u32 {
        self.initial_window_size
    }

    /// A connection waiting for the client's version line, with no bridges and no
    /// session yet.
    pub fn new(settings: Settings, host_key: Arc<HostKey>) -> (m: ConnectionManager)
        ensures
            m.handler().transport_view().state_view() == TransportState::WaitingIdent,
            m.handler().transport_view().buffer().len() == 0,
            m.handler().transport_view().auth() is None,
            m.handler().transport_view().kex() is None,
            !m.handler().transport_view().encrypted(),
            m.handler().transport_view().host_blob() == host_key.blob(),
            m.handler().transport_view().host_der() == host_key.der(),
            m.handler().channel_handler_view().settings_view() == settings,
            m.bridges() == Set::<u32>::empty(),
            m.guard() is None,
            !m.started(),
            m.initial_window() == settings.initial_window_size,
    {
        let initial_window_size = settings.initial_window_size;
        ConnectionManager {
            ssh_handler: SshHandler::new(settings, host_key),
            bridge_channels: HashSet::new(),
            session_guard: None,
            initial_window_size,
            authenticated: false,
        }
    }

    /// The SSH handler, to hand it client bytes.
    pub fn handler_mut(&mut self) -> (r: &mut SshHandler)
        ensures
            *r == old(self).handler(),
            final(self).handler() == *final(r),
            final(self).bridges() == old(self).bridges(),
            final(self).guard() == old(self).guard(),
            final(self).started() == old(self).started(),
            final(self).initial_window() == old(self).initial_window(),
    {
        &mut self.ssh_handler
    }

    /// The SSH handler.
    pub fn handler_ref(&self) -> (r: &SshHandler)
        ensures
            *r == self.handler(),
    {
        &self.ssh_handler
    }

    /// After client bytes were handled: the first time the handler has an
    /// authenticated user, the session starts with a guard for that user. Answers
    /// whether it started now.
    pub fn after_client_data(&mut self) -> (started_now: bool)
        ensures
            started_now == (!old(self).started() && authenticated_user(old(self).handler()) is Some),
            started_now ==> final(self).started() && (final(self).guard() matches Some(g) && g.user()
                == authenticated_user(old(self).handler())->0 && g.is_active()),
            !started_now ==> final(self).started() == old(self).started() && final(self).guard()
                == old(self).guard(),
            final(self).handler() == old(self).handler(),
            final(self).bridges() == old(self).bridges(),
            final(self).initial_window() == old(self).initial_window(),
    {
        if !self.authenticated && self.ssh_handler.is_authenticated() {
            self.create_session_guard()
        } else {
            false
        }
    }

    /// Starts the session for the authenticated user, if the handler names one.
    fn create_session_guard(&mut self) -> (r: bool)
        ensures
            r == (old(self).handler().transport_view().auth() matches Some(a) && a.user_view() is Some),
            r ==> final(self).started() && (final(self).guard() matches Some(g) && g.user()
                == old(self).handler().transport_view().auth()->0.user_view()->0 && g.is_active()),
            !r ==> final(self).started() == old(self).started() && final(self).guard() == old(self).guard(),
            final(self).handler() == old(self).handler(),
            final(self).bridges() == old(self).bridges(),
            final(self).initial_window() == old(self).initial_window(),
    {
        match self.ssh_handler.username() {
            Some(username) => {
                let name = username.to_string();
                self.session_guard = Some(SessionGuard::new(name));
                self.authenticated = true;
                true
            },
            None => false,
        }
    }

    /// The channels whose target was reached and that now need a bridge, once the
    /// session started; each is recorded as having one.
    pub fn process_new_channels(&mut self) -> (r: Vec<PendingForward>)
        ensures
            !old(self).started() ==> r@.len() == 0 && final(self).handler() == old(self).handler()
                && final(self).bridges() == old(self).bridges(),
            old(self).started() ==> {
                &&& exists|ids: Seq<u32>|
                    #![trigger ids.to_set()]
                    ids.no_duplicates() && ids.to_set() == old(self).handler().channel_handler_view().forwards().dom()
                        && ids.len() == r@.len() && forall|i: int|
                        0 <= i < ids.len() ==> #[trigger] r@[i] == old(
                            self,
                        ).handler().channel_handler_view().forwards()[ids[i]]
                &&& final(self).handler().channel_handler_view().forwards() == Map::<u32, PendingForward>::empty()
                &&& final(self).handler().transport_view() == old(self).handler().transport_view()
                &&& final(self).bridges() == old(self).bridges() + forward_ids(r@, r@.len() as int)
            },
            final(self).guard() == old(self).guard(),
            final(self).started() == old(self).started(),
            final(self).initial_window() == old(self).initial_window(),
    {
        if !self.authenticated {
            return Vec::new();
        }
        let forwards = self.ssh_handler.channel_handler_mut().take_pending_forwards();
        let ghost before = self.bridge_channels@;
        let ghost h1 = self.ssh_handler;
        let mut i: usize = 0;
        proof {
            assert(before + forward_ids(forwards@, 0) =~= before);
        }
        while i < forwards.len()
            invariant
                i <= forwards@.len(),
                self.ssh_handler == h1,
                self.session_guard == old(self).session_guard,
                self.authenticated == old(self).authenticated,
                self.initial_window_size == old(self).initial_window_size,
                self.bridge_channels@ == before + forward_ids(forwards@, i as int),
            decreases forwards@.len() - i,
        {
            let id = forwards[i].local_channel_id;
            let ghost prev = self.bridge_channels@;
            self.bridge_channels.insert(id);
            proof {
                let target = before + forward_ids(forwards@, i + 1);
                assert forall|x: u32| #[trigger] self.bridge_channels@.contains(x) == target.contains(x) by {
                    if x == id {
                        assert(forwards@[i as int].local_channel_id == x);
                        assert(forward_ids(forwards@, i + 1).contains(x));
                    } else if forward_ids(forwards@, i + 1).contains(x) {
                        let j = choose|j: int| 0 <= j < i + 1 && #[trigger] forwards@[j].local_channel_id == x;
                        assert(j < i);
                        assert(forward_ids(forwards@, i as int).contains(x));
                    } else if forward_ids(forwards@, i as int).contains(x) {
                        let j = choose|j: int| 0 <= j < i && #[trigger] forwards@[j].local_channel_id == x;
                        assert(forward_ids(forwards@, i + 1).contains(x));
                    }
                }
                assert(self.bridge_channels@ =~= target);
            }
            i = i + 1;
        }
        forwards
    }

    /// The data the client sent for channels with a bridge, in order, once the session
    /// started; data for other channels is dropped.
    pub fn take_bridge_data(&mut self) -> (r: Vec<PendingChannelData>)
        ensures
            !old(self).started() ==> r@.len() == 0 && final(self).handler() == old(self).handler(),
            old(self).started() ==> data_view(r@) == for_bridges(
                data_view(old(self).handler().channel_handler_view().pending()),
                old(self).bridges(),
            ) && final(self).handler().channel_handler_view().pending().len() == 0
                && final(self).handler().transport_view() == old(self).handler().transport_view()
                && final(self).handler().channel_handler_view().forwards() == old(
                self,
            ).handler().channel_handler_view().forwards(),
            final(self).bridges() == old(self).bridges(),
            final(self).guard() == old(self).guard(),
            final(self).started() == old(self).started(),
            final(self).initial_window() == old(self).initial_window(),
    {
        if !self.authenticated {
            return Vec::new();
        }
        let pending = self.ssh_handler.channel_handler_mut().take_pending_data();
        let mut out: Vec<PendingChannelData> = Vec::new();
        let mut i: usize = 0;
        while i < pending.len()
            invariant
                i <= pending@.len(),
                data_view(out@) == for_bridges(data_view(pending@.subrange(0, i as int)), self.bridge_channels@),
            decreases pending@.len() - i,
        {
            let d = &pending[i];
            proof {
                let pre = pending@.subrange(0, i as int);
                let post = pending@.subrange(0, i + 1);
                assert(data_view(post).drop_last() =~= data_view(pre));
                assert(data_view(post).last() == (d.channel_id, d.data@));
            }
            if self.bridge_channels.contains(&d.channel_id) {
                let ghost before_out = out@;
                out.push(PendingChannelData { channel_id: d.channel_id, data: d.data.clone() });
                proof {
                    assert(data_view(out@) =~= data_view(before_out).push((d.channel_id, d.data@)));
                }
            }
            i = i + 1;
        }
        proof {
            assert(pending@.subrange(0, pending@.len() as int) =~= pending@);
        }
        out
    }

    /// Forgets a channel's bridge.
    pub fn remove_bridge(&mut self, channel_id: u32)
        ensures
            final(self).bridges() == old(self).bridges().remove(channel_id),
            final(self).handler() == old(self).handler(),
            final(self).guard() == old(self).guard(),
            final(self).started() == old(self).started(),
            final(self).initial_window() == old(self).initial_window(),
    {
        self.bridge_channels.remove(&channel_id);
    }

    /// Whether the channel has a bridge.
    pub fn has_bridge(&self, channel_id: u32) -> (r: bool)
        ensures
            r == self.bridges().contains(channel_id),
    {
        self.bridge_channels.contains(&channel_id)
    }

    /// Whether the session started.
    pub fn session_started(&self) -> (r: bool)
        ensures
            r == self.started(),
    {
        self.authenticated
    }

    /// How many channels have a bridge.
    pub fn bridge_count(&self) -> (n: usize)
        ensures
            n == self.bridges().len(),
    {
        self.bridge_channels.len()
    }

    /// The window each bridge starts with.
    pub fn initial_window_size(&self) -> (n: u32)
        ensures
            n == self.initial_window(),
    {
        self.initial_window_size
    }

    /// What a bridge's report calls for: data becomes the encoded message for the
    /// client (nothing for an empty one); EOF becomes an encoded EOF message with an
    /// empty body (nothing if it cannot be encoded); a finished or failed bridge is
    /// forgotten.
    pub fn on_bridge_message(&mut self, message: BridgeMessage) -> (r: Result<Option<Vec<u8>>, SshError>)
        ensures
            final(self).guard() == old(self).guard(),
            final(self).started() == old(self).started(),
            final(self).initial_window() == old(self).initial_window(),
            final(self).handler().channel_handler_view() == old(self).handler().channel_handler_view(),
            final(self).handler().transport_view().state_view() == old(self).handler().transport_view().state_view(),
            final(self).handler().transport_view().auth() == old(self).handler().transport_view().auth(),
            match message {
                BridgeMessage::Data { channel_id, msg } => final(self).bridges() == old(self).bridges() && if msg@.len()
                    == 0 {
                    r == Ok::<Option<Vec<u8>>, SshError>(None)
                } else if msg@.len() > usize::MAX - 32 {
                    r == Err::<Option<Vec<u8>>, SshError>(SshError::MessageTooLarge)
                } else {
                    (!old(self).handler().transport_view().encrypted() ==> r is Ok) && (r matches Ok(o) ==> (o matches Some(
                        f,
                    ) && encodes(old(self).handler().transport_view(), msg@[0], msg@.drop_first(), f@)))
                },
                BridgeMessage::Eof { channel_id } => final(self).bridges() == old(self).bridges() && match r {
                    Ok(Some(f)) => encodes(old(self).handler().transport_view(), SSH_MSG_CHANNEL_EOF, Seq::empty(), f@),
                    Ok(None) => true,
                    Err(_) => false,
                } && (!old(self).handler().transport_view().encrypted() ==> r is Ok && r->Ok_0 is Some),
                BridgeMessage::Close { channel_id } => r == Ok::<Option<Vec<u8>>, SshError>(None)
                    && final(self).bridges() == old(self).bridges().remove(channel_id) && final(self).handler()
                    == old(self).handler(),
                BridgeMessage::Error { channel_id, error } => r == Ok::<Option<Vec<u8>>, SshError>(None)
                    && final(self).bridges() == old(self).bridges().remove(channel_id) && final(self).handler()
                    == old(self).handler(),
            },
    {
        match message {
            BridgeMessage::Data { channel_id, msg } => {
                if msg.len() == 0 {
                    return Ok(None);
                }
                if msg.len() > usize::MAX - 32 {
                    return Err(SshError::MessageTooLarge);
                }
                let body: &[u8] = &msg.as_slice()[1..msg.len()];
                proof {
                    assert(body@ =~= msg@.drop_first());
                }
                match self.ssh_handler.transport_mut().encode_message(msg[0], body) {
                    Ok(enc) => Ok(Some(enc)),
                    Err(e) => Err(e),
                }
            },
            BridgeMessage::Eof { channel_id } => {
                let empty: [u8; 0] = [];
                proof {
                    assert(empty@ =~= Seq::<u8>::empty());
                }
                match self.ssh_handler.transport_mut().encode_message(SSH_MSG_CHANNEL_EOF, &empty) {
                    Ok(enc) => Ok(Some(enc)),
                    Err(_) => Ok(None),
                }
            },
            BridgeMessage::Close { channel_id } => {
                self.bridge_channels.remove(&channel_id);
                Ok(None)
            },
            BridgeMessage::Error { channel_id, error } => {
                self.bridge_channels.remove(&channel_id);
                Ok(None)
            },
        }
    }

    /// Ends the connection as dropping it does: the handler's channels are closed,
    /// the transport records the logout of its authenticated user, and then the session
    /// guard, if any, records its user's logout too.
    pub fn finish(self, cache: &mut AuthCache)
        ensures
            final(cache).users() == old(cache).users(),
            forall|k: Seq<char>| #[trigger] final(cache).tracker().logins(k) == logout_if(
                self.guard() matches Some(g) && g.is_active() && g.user() == k,
                logout_if(
                    self.handler().transport_view().auth() matches Some(a) && a.user_view() == Some(k),
                    old(cache).tracker().logins(k),
                ),
            ),
    {
        let mut handler = self.ssh_handler;
        handler.cleanup();
        handler.transport().cleanup(cache);
        match self.session_guard {
            Some(g) => g.finish(cache),
            None => {},
        }
    }
}

} // verus!
