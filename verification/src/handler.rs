//! One SSH connection end to end: the transport until the user is authenticated,
//! then the channel messages, answered through the transport's codec.
use vstd::prelude::*;
use std::sync::Arc;
use crate::error::SshError;
use crate::settings::Settings;
use crate::auth_cache::AuthCache;
use crate::host_key::HostKey;
use crate::transport::{SshTransport, TransportState, version_outcome, kex_phase_outcome, auth_phase_outcome, next_packet_outcome, encodes, packet_dec_after, enc_after, encode_refusal};
use crate::channel_handler::{
    ChannelHandler, ChannelOpenStep, PendingOpen, open_outcome, data_step, eof_outcome,
    close_outcome, adjust_outcome, request_outcome, open_completed, spec_channel_data, field,
};
use crate::wire::{put_slice, u32_be};

verus! {

/// What one channel message calls for: a reply (if any), or a target connection
/// before the reply to a channel open.
pub enum ChannelMessageStep {
    Reply(Option<Vec<u8>>),
    Connect(PendingOpen),
}

/// What a batch of client bytes calls for: bytes for the client (if any), or a target
/// connection (with the replies gathered before it); after the connection,
/// `finish_channel_open` answers the open and `process_data` with no bytes carries on.
pub enum HandlerStep {
    Respond(Option<Vec<u8>>),
    Connect { reply: Option<Vec<u8>>, open: PendingOpen },
}

/// The message type answering a channel open: confirmation (91) once the target was
/// reached, open failure (92) otherwise.
pub open spec fn open_reply_type(connected: bool) -> u8 {
    if connected {
        91
    } else {
        92
    }
}

/// The message type of the answer to a channel message type.
pub open spec fn reply_type(t: u8) -> u8 {
    if t == 94 {
        93
    } else if t == 98 {
        100
    } else {
        t
    }
}

/// The input holds a complete packet: the length field and that many bytes.
pub open spec fn has_complete_packet(b: Seq<u8>) -> bool {
    b.len() >= 4 && b.len() - 4 >= crate::wire::be_u32_at(b, 0)
}

/// The transport besides its codec and input is unchanged.
pub open spec fn transport_kept(pre: SshTransport, post: SshTransport) -> bool {
    &&& post.state_view() == pre.state_view()
    &&& post.auth() == pre.auth()
    &&& post.kex() == pre.kex()
    &&& post.encrypted() == pre.encrypted()
    &&& post.host_blob() == pre.host_blob()
    &&& post.host_der() == pre.host_der()
    &&& post.buffer() == pre.buffer()
}

/// The transport after answering with body `p`: unchanged when the body is too large
/// to frame, else the sending side moved on as `enc_after` says.
pub open spec fn sent_reply(pre: SshTransport, post: SshTransport, p: Seq<u8>) -> bool {
    if p.len() + 32 > usize::MAX {
        post == pre
    } else {
        enc_after(pre, post)
    }
}

/// What encoding body `p` as message `t` on the transport `tv` gave: the encoded
/// message, or `MessageTooLarge` for a body too large to frame, or else the
/// transport's refusal to encode it.
pub open spec fn encoded_or_refused(tv: SshTransport, t: u8, p: Seq<u8>, r: Result<Vec<u8>, SshError>) -> bool {
    match r {
        Ok(v) => p.len() + 32 <= usize::MAX && encodes(tv, t, p, v@),
        Err(e) => if p.len() + 32 > usize::MAX {
            e == SshError::MessageTooLarge
        } else {
            encode_refusal(tv, t, p, e)
        },
    }
}

/// An answer that carries body `p` encoded as message `t`, or the refusal to encode it.
pub open spec fn reply_encoded(tv: SshTransport, t: u8, p: Seq<u8>, r: Result<ChannelMessageStep, SshError>) -> bool {
    match r {
        Ok(ChannelMessageStep::Reply(Some(v))) => encoded_or_refused(tv, t, p, Ok(v)),
        Err(e) => encoded_or_refused(tv, t, p, Err(e)),
        _ => false,
    }
}

/// The reply carried by an answer, if it is one.
pub open spec fn reply_of(r: Result<ChannelMessageStep, SshError>) -> Option<Option<Vec<u8>>> {
    match r {
        Ok(ChannelMessageStep::Reply(x)) => Some(x),
        _ => None,
    }
}

/// One channel message, given what the channel handler answered (`res`).
pub open spec fn channel_msg_step(
    pre: SshHandler,
    post: SshHandler,
    t: u8,
    payload: Seq<u8>,
    res: Result<Option<Vec<u8>>, SshError>,
    r: Result<ChannelMessageStep, SshError>,
) -> bool {
    let ch = pre.channel_handler_view();
    let ch2 = post.channel_handler_view();
    &&& transport_kept(pre.transport_view(), post.transport_view())
    &&& t == 94 ==> data_step(ch, ch2, payload, res)
    &&& t == 96 ==> eof_outcome(ch, ch2, payload, res)
    &&& t == 97 ==> close_outcome(ch, ch2, payload, res)
    &&& t == 93 ==> adjust_outcome(ch, ch2, payload, res)
    &&& t == 98 ==> request_outcome(ch, ch2, payload, res)
    &&& res is Err ==> r == Err::<ChannelMessageStep, SshError>(res->Err_0)
    &&& res == Ok::<Option<Vec<u8>>, SshError>(None) ==> reply_of(r) == Some(None::<Vec<u8>>)
    &&& res matches Ok(Some(p)) ==> reply_encoded(pre.transport_view(), reply_type(t), p@, r)
    &&& res matches Ok(Some(p)) ==> sent_reply(pre.transport_view(), post.transport_view(), p@)
    &&& !(res matches Ok(Some(_))) ==> post.transport_view() == pre.transport_view()
}

/// A channel-open message, given what the channel handler answered (`res`).
pub open spec fn open_msg_step(
    pre: SshHandler,
    post: SshHandler,
    payload: Seq<u8>,
    res: Result<ChannelOpenStep, SshError>,
    r: Result<ChannelMessageStep, SshError>,
) -> bool {
    &&& open_outcome(pre.channel_handler_view(), payload, res)
    &&& post.channel_handler_view() == pre.channel_handler_view()
    &&& transport_kept(pre.transport_view(), post.transport_view())
    &&& res is Err ==> r == Err::<ChannelMessageStep, SshError>(res->Err_0)
    &&& res is Ok && res->Ok_0 is Connect ==> r == Ok::<ChannelMessageStep, SshError>(
        ChannelMessageStep::Connect(res->Ok_0->Connect_0),
    )
    &&& res matches Ok(ChannelOpenStep::Reply(p)) ==> reply_encoded(pre.transport_view(), 92, p@, r)
    &&& res matches Ok(ChannelOpenStep::Reply(p)) ==> sent_reply(pre.transport_view(), post.transport_view(), p@)
    &&& !(res matches Ok(ChannelOpenStep::Reply(_))) ==> post.transport_view() == pre.transport_view()
}

/// What one channel message does: channel open, data, EOF, close, window adjust
/// and requests go to the channel handler and its answer is encoded with the reply
/// type; everything else is ignored.
pub open spec fn channel_msg_outcome(
    pre: SshHandler,
    post: SshHandler,
    t: u8,
    payload: Seq<u8>,
    r: Result<ChannelMessageStep, SshError>,
) -> bool {
    if t == 90 {
        exists|res: Result<ChannelOpenStep, SshError>| #[trigger] open_msg_step(pre, post, payload, res, r)
    } else if t == 94 || t == 96 || t == 97 || t == 93 || t == 98 {
        exists|res: Result<Option<Vec<u8>>, SshError>| #[trigger] channel_msg_step(pre, post, t, payload, res, r)
    } else {
        reply_of(r) == Some(None::<Vec<u8>>) && post == pre
    }
}

/// What a channel message is answered with, where it is answered: channel data (94)
/// with a window adjust (93) giving the channel's remote ID and the bytes added back;
/// a close (97) with a close (97) naming the remote ID; a channel request (98) with a
/// channel failure (100) naming the channel; a channel open (90) that fails at once
/// with an open failure (92). No other channel message is answered.
pub proof fn lemma_channel_reply_types(pre: SshHandler, post: SshHandler, t: u8, payload: Seq<u8>, v: Vec<u8>)
    requires
        channel_msg_outcome(pre, post, t, payload, Ok(ChannelMessageStep::Reply(Some(v)))),
    ensures
        t == 90 || t == 94 || t == 97 || t == 98,
        t == 94 ==> spec_channel_data(payload) is Ok && pre.channel_handler_view().channel_map().contains_key(
            spec_channel_data(payload)->Ok_0.0,
        ) && exists|added: u32|
            #[trigger] encodes(
                pre.transport_view(),
                93u8,
                u32_be(pre.channel_handler_view().channel_map()[spec_channel_data(payload)->Ok_0.0].remote_id)
                    + u32_be(added),
                v@,
            ),
        t == 97 ==> pre.channel_handler_view().channel_map().contains_key(field(payload, 0)) && encodes(
            pre.transport_view(),
            97u8,
            u32_be(pre.channel_handler_view().channel_map()[field(payload, 0)].remote_id),
            v@,
        ),
        t == 98 ==> payload.len() >= 4 && encodes(pre.transport_view(), 100u8, payload.subrange(0, 4), v@),
        t == 90 ==> exists|p: Seq<u8>| #[trigger] encodes(pre.transport_view(), 92u8, p, v@),
{
    let r = Ok::<ChannelMessageStep, SshError>(ChannelMessageStep::Reply(Some(v)));
    if t == 90 {
        let res = choose|res: Result<ChannelOpenStep, SshError>| #[trigger] open_msg_step(pre, post, payload, res, r);
        assert(open_msg_step(pre, post, payload, res, r));
        let p = res->Ok_0->Reply_0@;
        assert(encodes(pre.transport_view(), 92u8, p, v@));
    } else if t == 94 || t == 96 || t == 97 || t == 93 || t == 98 {
        let res = choose|res: Result<Option<Vec<u8>>, SshError>| #[trigger] channel_msg_step(pre, post, t, payload, res, r);
        assert(channel_msg_step(pre, post, t, payload, res, r));
        assert(res matches Ok(Some(_)));
        let p = res->Ok_0->0@;
        assert(encodes(pre.transport_view(), reply_type(t), p, v@));
        let ch = pre.channel_handler_view();
        if t == 94 {
            let id = spec_channel_data(payload)->Ok_0.0;
            let d = spec_channel_data(payload)->Ok_0.1;
            let left = (ch.channel_map()[id].local_window - d.len()) as u32;
            let added = (ch.settings_view().initial_window_size - left) as u32;
            assert(encodes(pre.transport_view(), 93u8, u32_be(ch.channel_map()[id].remote_id) + u32_be(added), v@));
        }
    }
}

/// Taking the next packet off the handler's input with outcome `pkt`: the input and
/// the receiving codec change as `next_packet_outcome` says; the rest stays.
pub open spec fn take_packet(
    pre: SshHandler,
    post: SshHandler,
    pkt: Result<Option<(u8, Vec<u8>)>, SshError>,
) -> bool {
    let t = pre.transport_view();
    let t2 = post.transport_view();
    &&& next_packet_outcome(t.buffer(), t2.buffer(), t.encrypted(), t.codec_view().dec(), pkt)
    &&& t2.state_view() == t.state_view()
    &&& t2.auth() == t.auth()
    &&& t2.kex() == t.kex()
    &&& t2.encrypted() == t.encrypted()
    &&& t2.host_blob() == t.host_blob()
    &&& t2.host_der() == t.host_der()
    &&& t2.codec_view().enc() == t.codec_view().enc()
    &&& t2.codec_view().block() == t.codec_view().block()
    &&& packet_dec_after(t.buffer(), t.encrypted(), t.codec_view().dec(), t2.codec_view().dec())
    &&& post.channel_handler_view() == pre.channel_handler_view()
}

/// A packet of type `t` and body `p` was taken off the input.
pub open spec fn took_packet(pre: SshHandler, mid: SshHandler, t: u8, p: Seq<u8>) -> bool {
    exists|v: Vec<u8>| #[trigger] take_packet(pre, mid, Ok(Some((t, v)))) && v@ == p
}

/// One buffered packet taken and handled as a channel message with answer `r`.
pub open spec fn packet_step(pre: SshHandler, post: SshHandler, r: Result<ChannelMessageStep, SshError>) -> bool {
    exists|mid: SshHandler, t: u8, p: Seq<u8>|
        #![trigger took_packet(pre, mid, t, p), channel_msg_outcome(mid, post, t, p, r)]
        took_packet(pre, mid, t, p) && channel_msg_outcome(mid, post, t, p, r)
}

/// `hs` are the handler's states along packets answered with `outs`.
pub open spec fn reply_trace(hs: Seq<SshHandler>, outs: Seq<Option<Vec<u8>>>) -> bool {
    &&& hs.len() == outs.len() + 1
    &&& forall|i: int|
        0 <= i < outs.len() ==> packet_step(hs[i], hs[i + 1], Ok(ChannelMessageStep::Reply(#[trigger] outs[i])))
}

/// The bytes of the answers joined in order, or nothing when there were none.
pub open spec fn joined(outs: Seq<Option<Vec<u8>>>) -> Option<Seq<u8>>
    decreases outs.len(),
{
    if outs.len() == 0 {
        None
    } else {
        match (joined(outs.drop_last()), outs.last()) {
            (None, None) => None,
            (Some(a), None) => Some(a),
            (None, Some(b)) => Some(b@),
            (Some(a), Some(b)) => Some(a + b@),
        }
    }
}

/// The bytes of an optional answer.
pub open spec fn opt_bytes(o: Option<Vec<u8>>) -> Option<Seq<u8>> {
    match o {
        Some(v) => Some(v@),
        None => None,
    }
}

/// How handling the buffered packets ends, after the answered ones (`j` their joined
/// bytes): with no complete packet left, with a channel open that needs its target,
/// or with an error taking or handling the next packet.
pub open spec fn buffered_end(
    last: SshHandler,
    post: SshHandler,
    j: Option<Seq<u8>>,
    r: Result<HandlerStep, SshError>,
) -> bool {
    match r {
        Ok(HandlerStep::Respond(c)) => take_packet(last, post, Ok(None)) && opt_bytes(c) == j,
        Ok(HandlerStep::Connect { reply, open }) => opt_bytes(reply) == j && packet_step(
            last,
            post,
            Ok(ChannelMessageStep::Connect(open)),
        ),
        Err(e) => take_packet(last, post, Err(e)) || packet_step(last, post, Err(e)),
    }
}

/// What handling the buffered packets does: each complete packet in turn is taken
/// and handled as a channel message, the answers joined, until none is left, one
/// needs a target connection, or one fails.
pub open spec fn buffered_outcome(pre: SshHandler, post: SshHandler, r: Result<HandlerStep, SshError>) -> bool {
    exists|hs: Seq<SshHandler>, outs: Seq<Option<Vec<u8>>>|
        #![trigger reply_trace(hs, outs)]
        reply_trace(hs, outs) && hs[0] == pre && buffered_end(hs.last(), post, joined(outs), r)
}

/// `s0` is `pre` with `data` appended to the transport's input.
pub open spec fn appended(pre: SshHandler, s0: SshHandler, data: Seq<u8>) -> bool {
    let t = pre.transport_view();
    let t2 = s0.transport_view();
    &&& t2.buffer() == t.buffer() + data
    &&& t2.state_view() == t.state_view()
    &&& t2.auth() == t.auth()
    &&& t2.kex() == t.kex()
    &&& t2.encrypted() == t.encrypted()
    &&& t2.host_blob() == t.host_blob()
    &&& t2.host_der() == t.host_der()
    &&& t2.codec_view() == t.codec_view()
    &&& s0.channel_handler_view() == pre.channel_handler_view()
}

/// One SSH connection.
pub struct SshHandler {
    transport: SshTransport,
    channel_handler: ChannelHandler,
    settings: Settings,
}

impl SshHandler {
    /// The transport.
    pub closed spec fn transport_view(&self) -> SshTransport {
        self.transport
    }

    /// The channel handler.
    pub closed spec fn channel_handler_view(&self) -> ChannelHandler {
        self.channel_handler
    }

    /// A connection waiting for the client's version line.
    pub fn new(settings: Settings, host_key: Arc<HostKey>) -> (h: SshHandler)
        ensures
            h.transport_view().state_view() == TransportState::WaitingIdent,
            h.transport_view().buffer().len() == 0,
            h.transport_view().kex() is None,
            h.transport_view().auth() is None,
            !h.transport_view().encrypted(),
            h.transport_view().host_blob() == host_key.blob(),
            h.transport_view().host_der() == host_key.der(),
            h.channel_handler_view().settings_view() == settings,
            !h.channel_handler_view().is_auth(),
            h.channel_handler_view().channel_map() == Map::<u32, crate::channel::Channel>::empty(),
    {
        let copy = settings.clone();
        SshHandler {
            transport: SshTransport::new(host_key),
            channel_handler: ChannelHandler::new(settings),
            settings: copy,
        }
    }

    /// Handles bytes from the client: before the user is authenticated they go to the
    /// transport; after, they are buffered and every complete packet is handled as a
    /// channel message, the answers joined, until the buffer holds no complete packet
    /// or a channel open needs its target connection.
    pub fn process_data(&mut self, cache: &mut AuthCache, data: &[u8]) -> (r: Result<HandlerStep, SshError>)
        requires
            old(self).transport_view().garbage() + old(self).transport_view().buffer().len() + data@.len()
                <= usize::MAX,
        ensures
            old(self).transport_view().state_view() == TransportState::WaitingIdent ==> exists|
                x: Result<Option<Vec<u8>>, SshError>,
            |
                #![trigger version_outcome(old(self).transport_view(), final(self).transport_view(), old(self).transport_view().buffer() + data@, x)]
                version_outcome(
                    old(self).transport_view(),
                    final(self).transport_view(),
                    old(self).transport_view().buffer() + data@,
                    x,
                ) && respond_with(x, r),
            old(self).transport_view().state_view() == TransportState::KeyExchange ==> exists|
                x: Result<Option<Vec<u8>>, SshError>,
            |
                #![trigger kex_phase_outcome(old(self).transport_view(), final(self).transport_view(), data@, x)]
                kex_phase_outcome(old(self).transport_view(), final(self).transport_view(), data@, x)
                    && respond_with(x, r),
            old(self).transport_view().state_view() == TransportState::Authentication ==> exists|
                x: Result<Option<Vec<u8>>, SshError>,
            |
                #![trigger auth_phase_outcome(old(self).transport_view(), final(self).transport_view(), *old(cache), *final(cache), data@, x)]
                auth_phase_outcome(
                    old(self).transport_view(),
                    final(self).transport_view(),
                    *old(cache),
                    *final(cache),
                    data@,
                    x,
                ) && respond_with(x, r),
            old(self).transport_view().state_view() != TransportState::Ready ==> {
                let ch = old(self).channel_handler_view();
                let ch2 = final(self).channel_handler_view();
                &&& ch2.manager() == ch.manager()
                &&& ch2.settings_view() == ch.settings_view()
                &&& ch2.forwards() == ch.forwards()
                &&& ch2.pending() == ch.pending()
                &&& ch2.is_auth() == (ch.is_auth() || (r is Ok && final(self).transport_view().state_view()
                    == TransportState::Ready))
            },
            old(self).transport_view().state_view() == TransportState::Ready ==> (r matches Ok(HandlerStep::Respond(_))
                ==> !has_complete_packet(final(self).transport_view().buffer())),
            old(self).transport_view().state_view() == TransportState::Ready ==> exists|s0: SshHandler|
                #[trigger] appended(*old(self), s0, data@) && buffered_outcome(s0, *final(self), r),
            old(self).transport_view().state_view() == TransportState::Ready ==> *final(cache) == *old(cache),
    {
        match self.transport.state() {
            TransportState::WaitingIdent | TransportState::KeyExchange | TransportState::Authentication => {
                let ghost pre_t = self.transport;
                let response = self.transport.process_transport_data(cache, data);
                let ghost x = response;
                let ghost post_t = self.transport;
                let out = match response {
                    Ok(resp) => {
                        if self.transport.is_ready() && !self.channel_handler_authenticated() {
                            self.channel_handler.set_authenticated(true);
                        }
                        Ok(HandlerStep::Respond(resp))
                    },
                    Err(e) => Err(e),
                };
                proof {
                    assert(respond_with(x, out));
                    assert(self.transport == post_t);
                    assert(old(self).transport_view() == pre_t);
                    if pre_t.state_view() == TransportState::WaitingIdent {
                        assert(version_outcome(
                            old(self).transport_view(),
                            self.transport_view(),
                            old(self).transport_view().buffer() + data@,
                            x,
                        ));
                    }
                    if pre_t.state_view() == TransportState::KeyExchange {
                        assert(kex_phase_outcome(old(self).transport_view(), self.transport_view(), data@, x));
                    }
                    if pre_t.state_view() == TransportState::Authentication {
                        assert(auth_phase_outcome(
                            old(self).transport_view(),
                            self.transport_view(),
                            *old(cache),
                            *cache,
                            data@,
                            x,
                        ));
                    }
                }
                out
            },
            TransportState::Ready => {
                self.transport.append_to_buffer(data);
                let ghost s0 = *self;
                assert(appended(*old(self), s0, data@));
                self.process_buffered_channel_messages()
            },
        }
    }

    /// Handles every complete buffered packet as a channel message and joins the
    /// answers; stops early when a channel open needs its target connection.
    fn process_buffered_channel_messages(&mut self) -> (r: Result<HandlerStep, SshError>)
        ensures
            buffered_outcome(*old(self), *final(self), r),
    {
        let mut combined: Option<Vec<u8>> = None;
        let ghost mut hs: Seq<SshHandler> = seq![*self];
        let ghost mut outs: Seq<Option<Vec<u8>>> = Seq::empty();
        loop
            invariant
                reply_trace(hs, outs),
                hs[0] == *old(self),
                hs.last() == *self,
                opt_bytes(combined) == joined(outs),
            decreases self.transport.buffer().len(),
        {
            let ghost before = *self;
            let next = match self.transport.decode_next_packet() {
                Ok(n) => n,
                Err(e) => {
                    proof {
                        assert(take_packet(before, *self, Err(e)));
                        assert(buffered_end(hs.last(), *self, joined(outs), Err(e)));
                    }
                    return Err(e);
                },
            };
            let ghost pkt = next;
            match next {
                Some((msg_type, payload)) => {
                    let ghost mid = *self;
                    let ghost pv = payload@;
                    proof {
                        assert(take_packet(before, mid, Ok(pkt)));
                        assert(took_packet(before, mid, msg_type, pv));
                    }
                    let res = self.process_single_channel_message(msg_type, payload);
                    proof {
                        assert(took_packet(before, mid, msg_type, pv) && channel_msg_outcome(mid, *self, msg_type, pv, res));
                        assert(packet_step(before, *self, res));
                    }
                    let step = match res {
                        Ok(s) => s,
                        Err(e) => {
                            proof {
                                assert(buffered_end(hs.last(), *self, joined(outs), Err(e)));
                            }
                            return Err(e);
                        },
                    };
                    proof {
                        assert(self.transport.buffer().len() < before.transport.buffer().len());
                    }
                    match step {
                        ChannelMessageStep::Reply(o) => {
                            let ghost o_g = o;
                            let ghost old_outs = outs;
                            let ghost old_hs = hs;
                            combined = match o {
                                Some(resp) => match combined {
                                    Some(existing) => {
                                        let mut joined_bytes = existing;
                                        put_slice(&mut joined_bytes, resp.as_slice());
                                        Some(joined_bytes)
                                    },
                                    None => Some(resp),
                                },
                                None => combined,
                            };
                            proof {
                                outs = outs.push(o_g);
                                hs = hs.push(*self);
                                assert(outs.drop_last() =~= old_outs);
                                assert forall|i: int| 0 <= i < outs.len() implies packet_step(
                                    hs[i],
                                    hs[i + 1],
                                    Ok(ChannelMessageStep::Reply(#[trigger] outs[i])),
                                ) by {
                                    if i < old_outs.len() {
                                        assert(outs[i] == old_outs[i]);
                                        assert(hs[i] == old_hs[i]);
                                        assert(hs[i + 1] == old_hs[i + 1]);
                                    } else {
                                        assert(hs[i] == before);
                                        assert(hs[i + 1] == *self);
                                    }
                                }
                            }
                        },
                        ChannelMessageStep::Connect(open) => {
                            proof {
                                assert(buffered_end(hs.last(), *self, joined(outs), Ok(HandlerStep::Connect { reply: combined, open })));
                            }
                            return Ok(HandlerStep::Connect { reply: combined, open });
                        },
                    }
                },
                None => {
                    proof {
                        assert(take_packet(before, *self, Ok(pkt)));
                        assert(buffered_end(hs.last(), *self, joined(outs), Ok(HandlerStep::Respond(combined))));
                    }
                    return Ok(HandlerStep::Respond(combined));
                },
            }
        }
    }

    /// Encodes an answer, refusing one too large to frame.
    fn encode_reply(&mut self, msg_type: u8, payload: &[u8]) -> (r: Result<Vec<u8>, SshError>)
        ensures
            transport_kept(old(self).transport_view(), final(self).transport_view()),
            final(self).channel_handler_view() == old(self).channel_handler_view(),
            encoded_or_refused(old(self).transport_view(), msg_type, payload@, r),
            sent_reply(old(self).transport_view(), final(self).transport_view(), payload@),
    {
        if payload.len() > usize::MAX - 32 {
            return Err(SshError::MessageTooLarge);
        }
        self.transport.encode_message(msg_type, payload)
    }

    /// Handles one decoded channel message.
    fn process_single_channel_message(&mut self, msg_type: u8, payload: Vec<u8>) -> (r: Result<
        ChannelMessageStep,
        SshError,
    >)
        ensures
            channel_msg_outcome(*old(self), *final(self), msg_type, payload@, r),
    {
        let ghost pre = *self;
        if msg_type == 90 {
            let res = self.channel_handler.prepare_channel_open(payload.as_slice());
            let ghost g = res;
            match res {
                Ok(ChannelOpenStep::Reply(p)) => {
                    let out = match self.encode_reply(92, p.as_slice()) {
                        Ok(enc) => Ok(ChannelMessageStep::Reply(Some(enc))),
                        Err(e) => Err(e),
                    };
                    assert(open_msg_step(pre, *self, payload@, g, out));
                    out
                },
                Ok(ChannelOpenStep::Connect(o)) => {
                    let out = Ok(ChannelMessageStep::Connect(o));
                    assert(open_msg_step(pre, *self, payload@, g, out));
                    out
                },
                Err(e) => {
                    let out = Err(e);
                    assert(open_msg_step(pre, *self, payload@, g, out));
                    out
                },
            }
        } else if msg_type == 94 || msg_type == 96 || msg_type == 97 || msg_type == 93 || msg_type == 98 {
            let res = if msg_type == 94 {
                self.channel_handler.handle_channel_data(payload.as_slice())
            } else if msg_type == 96 {
                self.channel_handler.handle_channel_eof(payload.as_slice())
            } else if msg_type == 97 {
                self.channel_handler.handle_channel_close(payload.as_slice())
            } else if msg_type == 93 {
                self.channel_handler.handle_window_adjust(payload.as_slice())
            } else {
                self.channel_handler.handle_channel_request(payload.as_slice())
            };
            let ghost g = res;
            let ghost mid = *self;
            let out = match res {
                Ok(Some(p)) => {
                    let t: u8 = if msg_type == 94 {
                        93
                    } else if msg_type == 98 {
                        100
                    } else {
                        msg_type
                    };
                    match self.encode_reply(t, p.as_slice()) {
                        Ok(enc) => Ok(ChannelMessageStep::Reply(Some(enc))),
                        Err(e) => Err(e),
                    }
                },
                Ok(None) => Ok(ChannelMessageStep::Reply(None)),
                Err(e) => Err(e),
            };
            assert(channel_msg_step(pre, *self, msg_type, payload@, g, out));
            out
        } else {
            Ok(ChannelMessageStep::Reply(None))
        }
    }

    /// Answers a channel open once its target connection was tried: the confirmation
    /// body encoded as message 91, or the failure body as message 92.
    pub fn finish_channel_open(&mut self, open: PendingOpen, connected: bool) -> (r: Result<Option<Vec<u8>>, SshError>)
        ensures
            transport_kept(old(self).transport_view(), final(self).transport_view()),
            exists|body: Seq<u8>|
                #![trigger open_completed(old(self).channel_handler_view(), final(self).channel_handler_view(), open, connected, body)]
                open_completed(
                    old(self).channel_handler_view(),
                    final(self).channel_handler_view(),
                    open,
                    connected,
                    body,
                ) && match r {
                    Ok(Some(f)) => encoded_or_refused(old(self).transport_view(), open_reply_type(connected), body, Ok(f)),
                    Ok(None) => false,
                    Err(e) => encoded_or_refused(old(self).transport_view(), open_reply_type(connected), body, Err(e)),
                }
                    && (!old(self).transport_view().encrypted() && body.len() + 32 <= usize::MAX ==> r is Ok)
                    && sent_reply(old(self).transport_view(), final(self).transport_view(), body),
    {
        let ghost pre_open = open;
        let payload = self.channel_handler.complete_channel_open(open, connected);
        let ghost body = payload@;
        let t: u8 = if connected {
            91
        } else {
            92
        };
        let out = match self.encode_reply(t, payload.as_slice()) {
            Ok(enc) => Ok(Some(enc)),
            Err(e) => Err(e),
        };
        assert(open_completed(old(self).channel_handler_view(), self.channel_handler_view(), pre_open, connected, body));
        out
    }

    /// Whether the user is authenticated.
    pub fn is_authenticated(&self) -> (r: bool)
        ensures
            r == (self.transport_view().auth() matches Some(a) && a.state_view()
                == crate::auth_handler::AuthState::Success),
    {
        self.transport.is_authenticated()
    }

    /// The authenticated user's name.
    pub fn username(&self) -> (r: Option<&str>)
        ensures
            match self.transport_view().auth() {
                Some(a) => match a.user_view() {
                    Some(u) => r matches Some(s) && s@ == u,
                    None => r is None,
                },
                None => r is None,
            },
    {
        self.transport.username()
    }

    /// The channel handler, for change.
    pub fn channel_handler_mut(&mut self) -> (r: &mut ChannelHandler)
        ensures
            *r == old(self).channel_handler_view(),
            final(self).channel_handler_view() == *final(r),
            final(self).transport_view() == old(self).transport_view(),
    {
        &mut self.channel_handler
    }

    /// The transport.
    pub fn transport(&self) -> (r: &SshTransport)
        ensures
            *r == self.transport_view(),
    {
        &self.transport
    }

    /// The transport, for change.
    pub fn transport_mut(&mut self) -> (r: &mut SshTransport)
        ensures
            *r == old(self).transport_view(),
            final(self).transport_view() == *final(r),
            final(self).channel_handler_view() == old(self).channel_handler_view(),
    {
        &mut self.transport
    }

    /// Whether the channel handler already allows channel opens.
    fn channel_handler_authenticated(&self) -> (r: bool)
        ensures
            r == self.channel_handler_view().is_auth(),
    {
        self.channel_handler.is_authenticated()
    }

    /// Closes all channels; to be called when the connection ends.
    pub fn cleanup(&mut self)
        ensures
            final(self).transport_view() == old(self).transport_view(),
            final(self).channel_handler_view().forwards() == Map::<u32, crate::channel_handler::PendingForward>::empty(),
            final(self).channel_handler_view().channel_map().dom() == old(self).channel_handler_view().channel_map().dom(),
            forall|k: u32| #[trigger]
                old(self).channel_handler_view().channel_map().contains_key(k)
                    ==> final(self).channel_handler_view().channel_map()[k] == (crate::channel::Channel {
                    state: crate::channel::ChannelState::Closed,
                    ..old(self).channel_handler_view().channel_map()[k]
                }),
            final(self).channel_handler_view().manager().next_id() == old(self).channel_handler_view().manager().next_id(),
            final(self).channel_handler_view().settings_view() == old(self).channel_handler_view().settings_view(),
            final(self).channel_handler_view().is_auth() == old(self).channel_handler_view().is_auth(),
            final(self).channel_handler_view().pending() == old(self).channel_handler_view().pending(),
    {
        self.channel_handler.close_all();
    }
}

/// The handler's answer mirrors the transport's: its bytes, or its error.
pub open spec fn respond_with(x: Result<Option<Vec<u8>>, SshError>, r: Result<HandlerStep, SshError>) -> bool {
    match x {
        Ok(o) => r matches Ok(HandlerStep::Respond(o2)) && o2 == o,
        Err(e) => r == Err::<HandlerStep, SshError>(e),
    }
}

} // verus!
