//! The state of one channel's forwarding to its TCP target: flow control toward the
//! client, adaptive buffering, end-of-stream flags, and the messages it sends.
use vstd::prelude::*;
use vstd::utf8::encode_utf8;
use crate::error::SshError;
use crate::wire::{u32_be, put_u32, put_slice};
use crate::text::{concat, decimal, decimal_digits};
use crate::window::WindowController;
use crate::buffer::{AdaptiveBufferManager, BufferMode, after_measure};

verus! {

/// Message type of channel data.
pub const SSH_MSG_CHANNEL_DATA: u8 = 94;
/// Message type of channel EOF.
pub const SSH_MSG_CHANNEL_EOF: u8 = 96;
/// Message type of channel close.
pub const SSH_MSG_CHANNEL_CLOSE: u8 = 97;

/// Forwarding state between an SSH channel and its TCP target.
pub struct BidirectionalBridge {
    local_channel_id: u32,
    remote_channel_id: u32,
    target_addr: String,
    buffer_manager: AdaptiveBufferManager,
    window_controller: WindowController,
    ssh_close_received: bool,
    target_closed: bool,
    ssh_eof_sent: bool,
    target_eof_received: bool,
}

/// The flags of a bridge: close from SSH, target closed, our EOF sent, EOF from the
/// target.
pub struct BridgeFlags {
    pub ssh_close_received: bool,
    pub target_closed: bool,
    pub ssh_eof_sent: bool,
    pub target_eof_received: bool,
}

impl BidirectionalBridge {
    /// Our channel ID.
    pub closed spec fn local_id(&self) -> u32 {
        self.local_channel_id
    }

    /// The client's channel ID.
    pub closed spec fn remote_id(&self) -> u32 {
        self.remote_channel_id
    }

    /// The target address `host:port`.
    pub closed spec fn addr(&self) -> Seq<char> {
        self.target_addr@
    }

    /// The flow-control window toward the client.
    pub closed spec fn window(&self) -> WindowController {
        self.window_controller
    }

    /// The adaptive buffering state.
    pub closed spec fn buffers(&self) -> AdaptiveBufferManager {
        self.buffer_manager
    }

    /// The end-of-stream flags.
    pub closed spec fn flags(&self) -> BridgeFlags {
        BridgeFlags {
            ssh_close_received: self.ssh_close_received,
            target_closed: self.target_closed,
            ssh_eof_sent: self.ssh_eof_sent,
            target_eof_received: self.target_eof_received,
        }
    }

    /// A bridge for a channel and its target, window at `initial_window` (refilled at
    /// half), buffering switching at 1 MB/s, no end of stream yet.
    pub fn new(
        local_channel_id: u32,
        remote_channel_id: u32,
        target_host: String,
        target_port: u32,
        initial_window: u32,
    ) -> (b: BidirectionalBridge)
        ensures
            b.local_id() == local_channel_id,
            b.remote_id() == remote_channel_id,
            encode_utf8(b.addr()) == encode_utf8(target_host@) + seq![58u8] + decimal_digits(target_port as u64),
            b.window().initial() == initial_window,
            b.window().current() == initial_window,
            b.window().threshold() == 50,
            b.buffers().mode() == BufferMode::Standard,
            b.buffers().transferred() == 0,
            b.buffers().threshold() == 1_000_000,
            b.flags() == (BridgeFlags {
                ssh_close_received: false,
                target_closed: false,
                ssh_eof_sent: false,
                target_eof_received: false,
            }),
    {
        let with_colon = concat(target_host.as_str(), ":");
        let port = decimal(target_port as u64);
        let target_addr = concat(with_colon.as_str(), port.as_str());
        proof {
            reveal_strlit(":");
            vstd::utf8::is_ascii_chars_encode_utf8(":"@);
            assert(encode_utf8(":"@) =~= seq![58u8]);
        }
        BidirectionalBridge {
            local_channel_id,
            remote_channel_id,
            target_addr,
            buffer_manager: AdaptiveBufferManager::new(1_000_000),
            window_controller: WindowController::new(initial_window, 50),
            ssh_close_received: false,
            target_closed: false,
            ssh_eof_sent: false,
            target_eof_received: false,
        }
    }

    /// The target address to connect to.
    pub fn target_addr(&self) -> (r: &str)
        ensures
            r@ == self.addr(),
    {
        self.target_addr.as_str()
    }

    /// The buffering mode for the next read from the target.
    pub fn current_mode(&self) -> (m: BufferMode)
        ensures
            m == self.buffers().mode(),
    {
        self.buffer_manager.current_mode()
    }

    /// Records that connecting to the target failed.
    pub fn connect_failed(&mut self)
        ensures
            final(self).flags() == (BridgeFlags { target_closed: true, ..old(self).flags() }),
            final(self).window() == old(self).window(),
            final(self).buffers() == old(self).buffers(),
            final(self).remote_id() == old(self).remote_id(),
    {
        self.target_closed = true;
    }

    /// After writing client data to the target: a successful write of `bytes` is
    /// counted toward the throughput (the answer is the new buffering mode if it
    /// switched); a failed write closes the target side.
    pub fn after_target_write(&mut self, written: bool, bytes: u32) -> (r: Option<BufferMode>)
        requires
            old(self).buffers().transferred() + bytes <= u64::MAX,
        ensures
            final(self).window() == old(self).window(),
            final(self).remote_id() == old(self).remote_id(),
            written ==> final(self).flags() == old(self).flags() && after_measure(
                old(self).buffers().transferred() + bytes,
                old(self).buffers(),
                final(self).buffers(),
            ) && (r matches Some(m) ==> m == final(self).buffers().mode() && m != old(self).buffers().mode())
                && (r is None ==> final(self).buffers().mode() == old(self).buffers().mode()),
            !written ==> r is None && final(self).flags() == (BridgeFlags {
                target_closed: true,
                ..old(self).flags()
            }) && final(self).buffers() == old(self).buffers(),
    {
        if written {
            self.buffer_manager.record_transfer(bytes);
            self.buffer_manager.should_switch_mode()
        } else {
            self.target_closed = true;
            None
        }
    }

    /// After a read from the target: EOF (no bytes) is recorded; bytes are charged to
    /// the client's window (refused when it is too small), refilled at the threshold,
    /// counted toward the throughput, and become a channel-data message; a failed read
    /// closes the target side.
    pub fn on_target_read(&mut self, read: Result<Vec<u8>, SshError>) -> (r: Result<Option<Vec<u8>>, SshError>)
        requires
            old(self).window().initial() * old(self).window().threshold() <= u32::MAX,
            read matches Ok(d) ==> d@.len() <= u32::MAX && old(self).buffers().transferred() + d@.len() <= u64::MAX,
        ensures
            final(self).remote_id() == old(self).remote_id(),
            match read {
                Err(e) => r == Err::<Option<Vec<u8>>, SshError>(e) && final(self).flags() == (BridgeFlags {
                    target_closed: true,
                    ..old(self).flags()
                }) && final(self).window() == old(self).window(),
                Ok(d) => if d@.len() == 0 {
                    r == Ok::<Option<Vec<u8>>, SshError>(None) && final(self).flags() == (BridgeFlags {
                        target_eof_received: true,
                        ..old(self).flags()
                    }) && final(self).window() == old(self).window()
                } else if d@.len() > old(self).window().current() {
                    r == Err::<Option<Vec<u8>>, SshError>(SshError::WindowOverflow) && final(self).flags()
                        == old(self).flags() && final(self).window() == old(self).window()
                        && final(self).buffers() == old(self).buffers()
                } else {
                    &&& r matches Ok(Some(m)) && m@ == channel_data_msg(old(self).remote_id(), d@)
                    &&& final(self).flags() == old(self).flags()
                    &&& charged(old(self).window(), d@.len(), final(self).window())
                    &&& after_measure(
                        old(self).buffers().transferred() + d@.len(),
                        old(self).buffers(),
                        final(self).buffers(),
                    )
                },
            },
    {
        match read {
            Err(e) => {
                self.target_closed = true;
                Err(e)
            },
            Ok(data) => {
                if data.len() == 0 {
                    self.target_eof_received = true;
                    return Ok(None);
                }
                let n = data.len() as u32;
                match self.window_controller.consume(n) {
                    Ok(()) => {},
                    Err(e) => {
                        return Err(e);
                    },
                }
                let msg = self.build_channel_data(data.as_slice());
                let _refill = self.window_controller.check_refill();
                self.buffer_manager.record_transfer(n);
                let _switched = self.buffer_manager.should_switch_mode();
                Ok(Some(msg))
            },
        }
    }

    /// Records that the client closed its side.
    pub fn handle_ssh_close(&mut self) -> (r: Result<(), SshError>)
        ensures
            r is Ok,
            final(self).flags() == (BridgeFlags { ssh_close_received: true, ..old(self).flags() }),
            final(self).window() == old(self).window(),
            final(self).buffers() == old(self).buffers(),
            final(self).remote_id() == old(self).remote_id(),
    {
        self.ssh_close_received = true;
        Ok(())
    }

    /// A channel-data message (type, client's channel, length, data).
    pub fn build_channel_data(&self, data: &[u8]) -> (r: Vec<u8>)
        ensures
            r@ == channel_data_msg(self.remote_id(), data@),
    {
        let mut msg: Vec<u8> = Vec::new();
        msg.push(SSH_MSG_CHANNEL_DATA);
        put_u32(&mut msg, self.remote_channel_id);
        put_u32(&mut msg, data.len() as u32);
        put_slice(&mut msg, data);
        assert(msg@ =~= channel_data_msg(self.remote_id(), data@));
        msg
    }

    /// A channel-EOF message.
    pub fn build_channel_eof(&self) -> (r: Vec<u8>)
        ensures
            r@ == seq![SSH_MSG_CHANNEL_EOF] + u32_be(self.remote_id()),
    {
        let mut msg: Vec<u8> = Vec::new();
        msg.push(SSH_MSG_CHANNEL_EOF);
        put_u32(&mut msg, self.remote_channel_id);
        assert(msg@ =~= seq![SSH_MSG_CHANNEL_EOF] + u32_be(self.remote_id()));
        msg
    }

    /// A channel-close message.
    pub fn build_channel_close(&self) -> (r: Vec<u8>)
        ensures
            r@ == seq![SSH_MSG_CHANNEL_CLOSE] + u32_be(self.remote_id()),
    {
        let mut msg: Vec<u8> = Vec::new();
        msg.push(SSH_MSG_CHANNEL_CLOSE);
        put_u32(&mut msg, self.remote_channel_id);
        assert(msg@ =~= seq![SSH_MSG_CHANNEL_CLOSE] + u32_be(self.remote_id()));
        msg
    }

    /// Whether our EOF was sent.
    pub fn ssh_eof_sent(&self) -> (r: bool)
        ensures
            r == self.flags().ssh_eof_sent,
    {
        self.ssh_eof_sent
    }

    /// Records that our EOF was sent.
    pub fn mark_ssh_eof_sent(&mut self)
        ensures
            final(self).flags() == (BridgeFlags { ssh_eof_sent: true, ..old(self).flags() }),
            final(self).window() == old(self).window(),
            final(self).buffers() == old(self).buffers(),
            final(self).remote_id() == old(self).remote_id(),
    {
        self.ssh_eof_sent = true;
    }

    /// Whether the target side is finished: closed or at EOF.
    pub fn target_closed(&self) -> (r: bool)
        ensures
            r == (self.flags().target_closed || self.flags().target_eof_received),
    {
        self.target_closed || self.target_eof_received
    }

    /// Whether both directions are finished.
    pub fn is_fully_closed(&self) -> (r: bool)
        ensures
            r == ((self.flags().ssh_close_received || self.flags().ssh_eof_sent) && (
            self.flags().target_closed || self.flags().target_eof_received)),
    {
        (self.ssh_close_received || self.ssh_eof_sent) && (self.target_closed || self.target_eof_received)
    }

    /// Whether `on_target_read` can take a read of `len` bytes: the window's refill
    /// level is computable, the length fits in 32 bits and the throughput count in 64.
    pub fn read_fits(&self, len: usize) -> (r: bool)
        ensures
            r == (self.window().initial() * self.window().threshold() <= u32::MAX && len <= u32::MAX
                && self.buffers().transferred() + len <= u64::MAX),
    {
        if !self.window_controller.refill_level_fits() {
            return false;
        }
        if len > u32::MAX as usize {
            return false;
        }
        self.buffer_manager.can_record(len as u64)
    }

    /// Whether `after_target_write` can count a write of `bytes` bytes.
    pub fn write_fits(&self, bytes: u32) -> (r: bool)
        ensures
            r == (self.buffers().transferred() + bytes <= u64::MAX),
    {
        self.buffer_manager.can_record(bytes as u64)
    }

    /// The client's current window.
    pub fn window_size(&self) -> (n: u32)
        ensures
            n == self.window().current(),
    {
        self.window_controller.current_size()
    }
}

/// A channel-data message: type 94, the channel, the data's length and the data.
pub open spec fn channel_data_msg(remote: u32, data: Seq<u8>) -> Seq<u8> {
    seq![SSH_MSG_CHANNEL_DATA] + u32_be(remote) + u32_be(data.len() as u32) + data
}

/// The window `post` after `n` bytes were charged to `pre` and the refill check ran:
/// it is refilled to the initial size when it fell to the refill level with
/// something taken.
pub open spec fn charged(pre: WindowController, n: nat, post: WindowController) -> bool {
    let current = pre.current() - n;
    let taken = pre.taken() + n;
    &&& post.initial() == pre.initial()
    &&& post.threshold() == pre.threshold()
    &&& if current <= pre.refill_level() && taken > 0 {
        post.current() == pre.initial() && post.taken() == 0
    } else {
        post.current() == current && post.taken() == taken
    }
}

} // verus!
