//! Settings of the forwarding engine, and the socket paths derived from them.
use vstd::prelude::*;
use vstd::utf8::encode_utf8;
use crate::text::{concat, decimal, decimal_digits};

verus! {

/// Global settings of the engine. Durations are in seconds.
#[derive(Debug, Clone)]
pub struct Settings {
    pub db_path: String,
    pub socket_dir: String,
    pub admin_socket: String,
    pub traffic_socket_prefix: String,
    pub host_key_path: String,
    pub banner: String,
    pub max_handshake_bytes: usize,
    pub handshake_timeout: u64,
    pub idle_timeout: u64,
    pub target_connect_timeout: u64,
    pub standard_buffer_size: usize,
    pub high_throughput_buffer_size: usize,
    pub throughput_threshold: u64,
    pub initial_window_size: u32,
    pub max_packet_size: u32,
    pub window_refill_threshold: u32,
    pub worker_threads: Option<usize>,
}

impl Default for Settings {
    fn default() -> (s: Settings)
        ensures
            s.db_path@ == "/var/lib/ssh-forwarder/users.db"@,
            s.socket_dir@ == "/var/run/ssh-forwarder"@,
            s.admin_socket@ == "admin.sock"@,
            s.traffic_socket_prefix@ == "traffic"@,
            s.host_key_path@ == "/etc/ssh-forwarder/host_key"@,
            s.banner@ == "SSH-2.0-SSH_Forwarder_0.1"@,
            s.max_handshake_bytes == 8192,
            s.handshake_timeout == 30,
            s.idle_timeout == 300,
            s.target_connect_timeout == 10,
            s.standard_buffer_size == 16384,
            s.high_throughput_buffer_size == 65536,
            s.throughput_threshold == 1_000_000,
            s.initial_window_size == 2_097_152,
            s.max_packet_size == 32768,
            s.window_refill_threshold == 50,
            s.worker_threads is None,
    {
        Settings {
            db_path: "/var/lib/ssh-forwarder/users.db".to_owned(),
            socket_dir: "/var/run/ssh-forwarder".to_owned(),
            admin_socket: "admin.sock".to_owned(),
            traffic_socket_prefix: "traffic".to_owned(),
            host_key_path: "/etc/ssh-forwarder/host_key".to_owned(),
            banner: "SSH-2.0-SSH_Forwarder_0.1".to_owned(),
            max_handshake_bytes: 8192,
            handshake_timeout: 30,
            idle_timeout: 300,
            target_connect_timeout: 10,
            standard_buffer_size: 16384,
            high_throughput_buffer_size: 65536,
            throughput_threshold: 1_000_000,
            initial_window_size: 2_097_152,
            max_packet_size: 32768,
            window_refill_threshold: 50,
            worker_threads: None,
        }
    }
}

/// A path with a name joined on, as `PathBuf::push` does on Unix: an absolute name
/// replaces the path, an empty path gives the name, otherwise one `/` separates them.
pub open spec fn path_join(dir: Seq<u8>, name: Seq<u8>) -> Seq<u8> {
    if name.len() > 0 && name[0] == 47 {
        name
    } else if dir.len() == 0 {
        name
    } else if dir.last() == 47 {
        dir + name
    } else {
        dir + seq![47u8] + name
    }
}

/// Joins `name` onto `dir`.
fn join_path(dir: &str, name: &str) -> (r: String)
    ensures
        encode_utf8(r@) == path_join(encode_utf8(dir@), encode_utf8(name@)),
{
    let d = dir.as_bytes();
    let n = name.as_bytes();
    if n.len() > 0 && n[0] == 47 {
        name.to_owned()
    } else if d.len() == 0 {
        name.to_owned()
    } else if d[d.len() - 1] == 47 {
        concat(dir, name)
    } else {
        let with_sep = concat(dir, "/");
        proof {
            reveal_strlit("/");
            vstd::utf8::is_ascii_chars_encode_utf8("/"@);
            assert(encode_utf8("/"@) =~= seq![47u8]);
        }
        concat(with_sep.as_str(), name)
    }
}

impl Settings {
    /// The number of workers: the configured count, else `available` (the machine's
    /// parallelism).
    pub fn worker_count(&self, available: usize) -> (n: usize)
        ensures
            n == match self.worker_threads {
                Some(w) => w,
                None => available,
            },
    {
        match self.worker_threads {
            Some(w) => w,
            None => available,
        }
    }

    /// The traffic socket of a worker: `<prefix>-<id>.sock` in the socket directory.
    pub fn traffic_socket_path(&self, worker_id: usize) -> (p: String)
        ensures
            encode_utf8(p@) == path_join(
                encode_utf8(self.socket_dir@),
                encode_utf8(self.traffic_socket_prefix@) + seq![45u8] + decimal_digits(worker_id as u64)
                    + seq![46u8, 115, 111, 99, 107],
            ),
    {
        let with_dash = concat(self.traffic_socket_prefix.as_str(), "-");
        let id = decimal(worker_id as u64);
        let with_id = concat(with_dash.as_str(), id.as_str());
        let file = concat(with_id.as_str(), ".sock");
        proof {
            reveal_strlit("-");
            reveal_strlit(".sock");
            vstd::utf8::is_ascii_chars_encode_utf8("-"@);
            vstd::utf8::is_ascii_chars_encode_utf8(".sock"@);
            assert(encode_utf8("-"@) =~= seq![45u8]);
            assert(encode_utf8(".sock"@) =~= seq![46u8, 115, 111, 99, 107]);
        }
        join_path(self.socket_dir.as_str(), file.as_str())
    }

    /// The admin socket: its name in the socket directory.
    pub fn admin_socket_path(&self) -> (p: String)
        ensures
            encode_utf8(p@) == path_join(encode_utf8(self.socket_dir@), encode_utf8(self.admin_socket@)),
    {
        join_path(self.socket_dir.as_str(), self.admin_socket.as_str())
    }
}

} // verus!
