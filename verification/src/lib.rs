//! A direct-tcpip SSH forwarding engine: the wire format, the transport and
//! authentication state machines, channel bookkeeping and flow control.
#![allow(unused_imports)]

pub mod error;
pub mod text;
pub mod wire;
pub mod messages;
pub mod channel;
pub mod window;
pub mod buffer;
pub mod cipher_type;
pub mod mac_type;
pub mod crypto;
pub mod cipher_state;
pub mod packet_codec;
pub mod algorithms;
pub mod session_keys;
pub mod dh_group;
pub mod entropy;
pub mod kex;
pub mod host_key;
pub mod kex_handler;
pub mod assoc;
pub mod sessions;
pub mod auth_cache;
pub mod auth_handler;
pub mod transport;
pub mod settings;
pub mod channel_handler;
pub mod handler;
pub mod bridge;
pub mod admin;
pub mod guard;
pub mod connection;
pub mod buffer_pool;
pub mod passwords;
