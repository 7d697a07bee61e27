# ssh_forwarder

An SSH server that only forwards `direct-tcpip` channels to TCP targets, with
password logins checked against a SQLite user table.

## Layout

- `src/` is the verified library. Every function has a contract that Verus proves:
  - wire format: `wire`, `messages`, `text`
  - packet protection: `cipher_type`, `mac_type`, `crypto`, `cipher_state`, `packet_codec`
  - key exchange: `algorithms`, `kex`, `dh_group`, `entropy`, `session_keys`, `host_key`,
    `kex_handler`
  - authentication: `assoc`, `sessions`, `auth_cache`, `auth_handler`, `passwords`, `guard`
  - connection: `transport`, `channel`, `channel_handler`, `handler`, `connection`
  - forwarding: `window`, `buffer`, `bridge`, `buffer_pool`, `settings`
  - administration: `admin`
  Calls into the cryptography, big-number, random, RSA, base64 and time crates go
  through small wrappers whose contracts are trusted; their doc comments say what
  each one claims.
- `app/` is the program around the library: worker threads with io_uring runtimes,
  the Unix sockets, target TCP connections, the SQLite database, the host key file
  and the JSON admin protocol.
- `tests/` runs the library on concrete inputs.
