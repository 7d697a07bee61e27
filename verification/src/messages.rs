//! Bodies of the connection-protocol and authentication messages the server sends,
//! and the parse of a channel-open request.
use vstd::prelude::*;
use vstd::utf8::*;
use crate::error::SshError;
use crate::text::{string_from_utf8, str_eq};
use crate::wire::{
    u32_be, be_u32_at, ssh_string, spec_read_string, join_commas, names_bytes, put_u32,
    write_ssh_string, write_name_list, get_u32_at, parse_ssh_string,
};

verus! {

/// Channel-open refusal: the administrator forbids it.
pub const OPEN_FAILURE_ADMINISTRATIVELY_PROHIBITED: u32 = 1;
/// Channel-open refusal: the target could not be reached.
pub const OPEN_FAILURE_CONNECT_FAILED: u32 = 2;
/// Channel-open refusal: the channel type is not served.
pub const OPEN_FAILURE_UNKNOWN_CHANNEL_TYPE: u32 = 3;
/// Channel-open refusal: out of resources.
pub const OPEN_FAILURE_RESOURCE_SHORTAGE: u32 = 4;

/// Disconnect reason: host not allowed to connect.
pub const DISCONNECT_HOST_NOT_ALLOWED_TO_CONNECT: u32 = 1;
/// Disconnect reason: protocol error.
pub const DISCONNECT_PROTOCOL_ERROR: u32 = 2;
/// Disconnect reason: key exchange failed.
pub const DISCONNECT_KEY_EXCHANGE_FAILED: u32 = 3;
/// Disconnect reason: reserved.
pub const DISCONNECT_RESERVED: u32 = 4;
/// Disconnect reason: MAC error.
pub const DISCONNECT_MAC_ERROR: u32 = 5;
/// Disconnect reason: compression error.
pub const DISCONNECT_COMPRESSION_ERROR: u32 = 6;
/// Disconnect reason: service not available.
pub const DISCONNECT_SERVICE_NOT_AVAILABLE: u32 = 7;
/// Disconnect reason: protocol version not supported.
pub const DISCONNECT_PROTOCOL_VERSION_NOT_SUPPORTED: u32 = 8;
/// Disconnect reason: host key not verifiable.
pub const DISCONNECT_HOST_KEY_NOT_VERIFIABLE: u32 = 9;
/// Disconnect reason: connection lost.
pub const DISCONNECT_CONNECTION_LOST: u32 = 10;
/// Disconnect reason: by application.
pub const DISCONNECT_BY_APPLICATION: u32 = 11;
/// Disconnect reason: too many connections.
pub const DISCONNECT_TOO_MANY_CONNECTIONS: u32 = 12;
/// Disconnect reason: authentication cancelled by user.
pub const DISCONNECT_AUTH_CANCELLED_BY_USER: u32 = 13;
/// Disconnect reason: no more authentication methods available.
pub const DISCONNECT_NO_MORE_AUTH_METHODS_AVAILABLE: u32 = 14;
/// Disconnect reason: illegal user name.
pub const DISCONNECT_ILLEGAL_USER_NAME: u32 = 15;

/// Body of a channel-open confirmation.
pub fn build_channel_open_confirmation(
    recipient_channel: u32,
    sender_channel: u32,
    initial_window: u32,
    max_packet_size: u32,
) -> (r: Vec<u8>)
    ensures
        r@ == u32_be(recipient_channel) + u32_be(sender_channel) + u32_be(initial_window) + u32_be(
            max_packet_size,
        ),
{
    let mut buf: Vec<u8> = Vec::new();
    put_u32(&mut buf, recipient_channel);
    put_u32(&mut buf, sender_channel);
    put_u32(&mut buf, initial_window);
    put_u32(&mut buf, max_packet_size);
    assert(buf@ =~= u32_be(recipient_channel) + u32_be(sender_channel) + u32_be(initial_window)
        + u32_be(max_packet_size));
    buf
}

/// Body of a channel-open failure: recipient, reason, description and an empty language tag.
pub fn build_channel_open_failure(recipient_channel: u32, reason_code: u32, description: &str) -> (r:
    Vec<u8>)
    ensures
        r@ == u32_be(recipient_channel) + u32_be(reason_code) + ssh_string(encode_utf8(description@))
            + ssh_string(Seq::empty()),
{
    let mut buf: Vec<u8> = Vec::new();
    put_u32(&mut buf, recipient_channel);
    put_u32(&mut buf, reason_code);
    write_ssh_string(&mut buf, description.as_bytes());
    let empty: Vec<u8> = Vec::new();
    write_ssh_string(&mut buf, empty.as_slice());
    assert(buf@ =~= u32_be(recipient_channel) + u32_be(reason_code) + ssh_string(
        encode_utf8(description@),
    ) + ssh_string(Seq::empty()));
    buf
}

/// Body of a userauth success: empty.
pub fn build_userauth_success() -> (r: Vec<u8>)
    ensures
        r@ == Seq::<u8>::empty(),
{
    Vec::new()
}

/// Body of a userauth failure: the methods that may continue, then the partial-success flag.
pub fn build_userauth_failure(methods: &[&str], partial_success: bool) -> (r: Vec<u8>)
    ensures
        r@ == ssh_string(join_commas(names_bytes(methods@))) + seq![
            if partial_success {
                1u8
            } else {
                0u8
            },
        ],
{
    let mut buf: Vec<u8> = Vec::new();
    write_name_list(&mut buf, methods);
    buf.push(if partial_success { 1u8 } else { 0u8 });
    assert(buf@ =~= ssh_string(join_commas(names_bytes(methods@))) + seq![
        if partial_success {
            1u8
        } else {
            0u8
        },
    ]);
    buf
}

/// Body of a service accept: the service name.
pub fn build_service_accept(service: &str) -> (r: Vec<u8>)
    ensures
        r@ == ssh_string(encode_utf8(service@)),
{
    let mut buf: Vec<u8> = Vec::new();
    write_ssh_string(&mut buf, service.as_bytes());
    assert(buf@ =~= ssh_string(encode_utf8(service@)));
    buf
}

/// Body of a disconnect: reason code, description and an empty language tag.
pub fn build_disconnect(reason_code: u32, description: &str) -> (r: Vec<u8>)
    ensures
        r@ == u32_be(reason_code) + ssh_string(encode_utf8(description@)) + ssh_string(
            Seq::empty(),
        ),
{
    let mut buf: Vec<u8> = Vec::new();
    put_u32(&mut buf, reason_code);
    write_ssh_string(&mut buf, description.as_bytes());
    let empty: Vec<u8> = Vec::new();
    write_ssh_string(&mut buf, empty.as_slice());
    assert(buf@ =~= u32_be(reason_code) + ssh_string(encode_utf8(description@)) + ssh_string(
        Seq::empty(),
    ));
    buf
}

/// A channel-open request from the client.
pub struct ChannelOpenRequest {
    pub channel_type: String,
    pub sender_channel: u32,
    pub initial_window: u32,
    pub max_packet_size: u32,
    pub host: Option<String>,
    pub port: Option<u32>,
}

/// The channel type served: forwarding to a TCP target.
pub open spec fn direct_tcpip() -> Seq<char> {
    "direct-tcpip"@
}

/// A channel-open body on which the parse runs out of bytes while reading a fixed
/// four-byte field; reading such a field would panic, so `parse` requires that the body
/// is not one of these.
pub open spec fn channel_open_aborts(s: Seq<u8>) -> bool {
    match spec_read_string(s) {
        Err(_) => false,
        Ok((ty, r1)) => if !valid_utf8(ty) {
            false
        } else if r1.len() < 12 {
            true
        } else if decode_utf8(ty) != direct_tcpip() {
            false
        } else {
            let r2 = r1.subrange(12, r1.len() as int);
            match spec_read_string(r2) {
                Err(_) => false,
                Ok((host, r3)) => if !valid_utf8(host) {
                    false
                } else if r3.len() < 4 {
                    true
                } else {
                    match spec_read_string(r3.subrange(4, r3.len() as int)) {
                        Err(_) => false,
                        Ok((_, r5)) => r5.len() < 4,
                    }
                },
            }
        },
    }
}

/// What a channel-open body parses to when the parse does not abort: the type's bytes,
/// sender channel, initial window, maximum packet size, and for direct-tcpip the
/// target host's bytes and port.
pub open spec fn spec_channel_open(s: Seq<u8>) -> Result<
    (Seq<u8>, u32, u32, u32, Option<(Seq<u8>, u32)>),
    SshError,
> {
    match spec_read_string(s) {
        Err(e) => Err(e),
        Ok((ty, r1)) => if !valid_utf8(ty) {
            Err(SshError::InvalidUtf8)
        } else {
            let fixed = (be_u32_at(r1, 0), be_u32_at(r1, 4), be_u32_at(r1, 8));
            if decode_utf8(ty) != direct_tcpip() {
                Ok((ty, fixed.0, fixed.1, fixed.2, None))
            } else {
                let r2 = r1.subrange(12, r1.len() as int);
                match spec_read_string(r2) {
                    Err(e) => Err(e),
                    Ok((host, r3)) => if !valid_utf8(host) {
                        Err(SshError::InvalidUtf8)
                    } else {
                        let port = be_u32_at(r3, 0);
                        match spec_read_string(r3.subrange(4, r3.len() as int)) {
                            Err(e) => Err(e),
                            Ok(_) => Ok((ty, fixed.0, fixed.1, fixed.2, Some((host, port)))),
                        }
                    },
                }
            }
        },
    }
}

/// Whether parsing a channel-open body would run out of bytes in a fixed field.
pub fn channel_open_would_abort(data: &[u8]) -> (r: bool)
    ensures
        r == channel_open_aborts(data@),
{
    let (ty, r1) = match parse_ssh_string(data) {
        Ok(x) => x,
        Err(_) => {
            return false;
        },
    };
    let channel_type = match string_from_utf8(ty) {
        Some(s) => s,
        None => {
            return false;
        },
    };
    if r1.len() < 12 {
        return true;
    }
    if !str_eq(channel_type.as_str(), "direct-tcpip") {
        return false;
    }
    let r2 = &r1[12..r1.len()];
    let (hb, r3) = match parse_ssh_string(r2) {
        Ok(x) => x,
        Err(_) => {
            return false;
        },
    };
    match string_from_utf8(hb) {
        Some(_) => {},
        None => {
            return false;
        },
    }
    if r3.len() < 4 {
        return true;
    }
    let r4 = &r3[4..r3.len()];
    match parse_ssh_string(r4) {
        Ok((_, r5)) => r5.len() < 4,
        Err(_) => false,
    }
}

impl ChannelOpenRequest {
    /// Parses a channel-open body.
    pub fn parse(data: &[u8]) -> (r: Result<ChannelOpenRequest, SshError>)
        requires
            !channel_open_aborts(data@),
        ensures
            match spec_channel_open(data@) {
                Err(e) => r matches Err(e2) && e2 == e,
                Ok((ty, sender, window, max_packet, target)) => r matches Ok(req) && req.channel_type@
                    == decode_utf8(ty) && req.sender_channel == sender && req.initial_window
                    == window && req.max_packet_size == max_packet && match target {
                    None => req.host is None && req.port is None,
                    Some((h, p)) => req.host matches Some(hs) && hs@ == decode_utf8(h)
                        && req.port == Some(p),
                },
            },
    {
        let (ty, r1) = match parse_ssh_string(data) {
            Ok(x) => x,
            Err(e) => {
                return Err(e);
            },
        };
        let channel_type = match string_from_utf8(ty) {
            Some(s) => s,
            None => {
                return Err(SshError::InvalidUtf8);
            },
        };
        let sender_channel = get_u32_at(r1, 0);
        let initial_window = get_u32_at(r1, 4);
        let max_packet_size = get_u32_at(r1, 8);
        let r2 = &r1[12..r1.len()];
        if str_eq(channel_type.as_str(), "direct-tcpip") {
            let (hb, r3) = match parse_ssh_string(r2) {
                Ok(x) => x,
                Err(e) => {
                    return Err(e);
                },
            };
            let host = match string_from_utf8(hb) {
                Some(s) => s,
                None => {
                    return Err(SshError::InvalidUtf8);
                },
            };
            let port = get_u32_at(r3, 0);
            let r4 = &r3[4..r3.len()];
            let (_originator_ip, r5) = match parse_ssh_string(r4) {
                Ok(x) => x,
                Err(e) => {
                    return Err(e);
                },
            };
            let _originator_port = get_u32_at(r5, 0);
            Ok(
                ChannelOpenRequest {
                    channel_type,
                    sender_channel,
                    initial_window,
                    max_packet_size,
                    host: Some(host),
                    port: Some(port),
                },
            )
        } else {
            Ok(
                ChannelOpenRequest {
                    channel_type,
                    sender_channel,
                    initial_window,
                    max_packet_size,
                    host: None,
                    port: None,
                },
            )
        }
    }

    /// Whether the request is for the one channel type served, direct-tcpip.
    pub fn is_supported(&self) -> (r: bool)
        ensures
            r == (self.channel_type@ == direct_tcpip()),
    {
        str_eq(self.channel_type.as_str(), "direct-tcpip")
    }
}

} // verus!
