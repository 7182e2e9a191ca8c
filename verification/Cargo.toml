[package]
name = "wg"
version = "0.1.0"
edition = "2021"
publish = false

[dependencies]
blake2 = "=0.10.6"
chacha20poly1305 = "=0.10.1"
x25519-dalek = { version = "=2.0.1", features = ["static_secrets"] }
anyhow = "1"
log = "0.4"
env_logger = "=0.10.2"
libc = "0.2"
nix = { version = "=0.29.0", features = ["fs", "poll", "uio"] }
tun-tap = "=0.1.4"
