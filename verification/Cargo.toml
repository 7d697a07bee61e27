[package]
name = "ssh_forwarder"
version = "0.1.0"
edition = "2021"
publish = false

[dependencies]
aes = "0.8"
anyhow = "1"
base64 = "0.22"
bytes = "1"
chacha20poly1305 = "0.10"
chrono = "0.4"
ctr = "0.9"
hmac = "0.12"
monoio = "0.2"
num-bigint = "0.4"
parking_lot = "0.12"
rand = "0.8"
rand_core = { version = "0.6", features = ["getrandom"] }
rsa = { version = "0.9", features = ["sha2"] }
rusqlite = "0.31"
serde = { version = "1", features = ["derive"] }
serde_json = "1"
sha1 = "0.10"
sha2 = "0.10"
thiserror = "1"
tracing = "0.1"
tracing-subscriber = { version = "0.3", features = ["env-filter"] }
x25519-dalek = "2"
