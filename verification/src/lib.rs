//! Userspace WireGuard protocol engine: wire-message codec, cookie/MAC
//! anti-DoS machinery, Noise_IKpsk2 handshake transcript, transport
//! key-pair lifecycle with sliding-window replay protection, and the
//! bounded peer registry, with machine-checked contracts.
//!
//! All I/O (UDP sockets, the TUN interface, the control socket, clocks
//! and randomness) lives outside this crate: the engine consumes plain
//! byte buffers, injected times and injected fresh key material, and
//! hands back plain values, so every decision it makes is verified.

use vstd::prelude::*;

pub mod byteops;
pub mod checksum;
pub mod cookie;
pub mod device;
pub mod crypto;
pub mod handshake;
pub mod message;
pub mod offload;
pub mod peer;
pub mod replay;

verus! {

// Wire and algorithm sizes (bytes).
pub const WIREGUARD_TAI64N_LEN: usize = 12;
pub const WIREGUARD_AUTHTAG_LEN: usize = 16;
pub const WIREGUARD_HASH_LEN: usize = 32;
pub const WIREGUARD_PUBLIC_KEY_LEN: usize = 32;
pub const WIREGUARD_PRIVATE_KEY_LEN: usize = 32;
pub const WIREGUARD_SESSION_KEY_LEN: usize = 32;
pub const WIREGUARD_COOKIE_LEN: usize = 16;
pub const COOKIE_NONCE_LEN: usize = 24;

// Timers and limits (times in seconds, counts in messages).
pub const COOKIE_SECRET_MAX_AGE: u64 = 2 * 60;
pub const REKEY_AFTER_MESSAGES: u64 = 1u64 << 60;
pub const REJECT_AFTER_MESSAGES: u64 = 0xFFFF_FFFF_FFFF_FFFF - (1u64 << 13);
pub const REKEY_AFTER_TIME: u64 = 120;
pub const REJECT_AFTER_TIME: u64 = 180;
pub const REKEY_TIMEOUT: u64 = 5;
pub const KEEPALIVE_TIMEOUT: u64 = 10;

// Bounded capacities: peers and allowed source addresses are arena-style
// tables sized at configuration time; these are the defaults.
pub const WIREGUARD_MAX_PEERS: usize = 1;
pub const WIREGUARD_MAX_SRC_IPS: usize = 2;

// Per-source threshold on accepted handshake initiations, per second.
pub const MAX_INITIATIONS_PER_SECOND: u64 = 2;

// Width of the sliding anti-replay window, in counters.
pub const REPLAY_WINDOW_SIZE: u64 = 2048;

/// Errors surfaced by the protocol engine.
///
/// Packet-path failures are reported to the host so it can drop the
/// offending datagram; only configuration-path failures are meant to
/// reach an operator.
#[derive(Clone, Copy, Debug, PartialEq, Eq, Structural)]
pub enum WgError {
    /// The buffer does not parse as any wire message.
    MalformedMessage,
    /// A MAC or an AEAD opening failed.
    AuthenticationFailed,
    /// A transport counter was already accepted or fell behind the window.
    ReplayedOrInvalid,
    /// A decrypted static key does not belong to a configured peer.
    UnknownPeer,
    /// The bounded peer table is full.
    CapacityExceeded,
    /// Handshake initiations from this source are being throttled.
    RateLimited,
    /// The output buffer is shorter than the encoded message.
    BufferTooSmall,
    /// The key-pair is past its sending limit and must be replaced.
    RekeyRequired,
}

/// Verbosity selector handed to the host's logging setup.
#[derive(Clone, Copy, Debug, PartialEq, Eq, Structural)]
pub enum LogLevel {
    Silent,
    Error,
    Verbose,
}

/// Network-interface state changes reported by the host's TUN layer.
#[derive(Clone, Copy, Debug, PartialEq, Eq, Structural)]
pub enum Event {
    Up,
    Down,
    MTUUpdate,
}

impl Event {
    /// The interface-event bit assigned to this variant.
    pub fn mask(&self) -> (r: i32)
        ensures
            r == (match *self {
                Event::Up => 1i32,
                Event::Down => 2i32,
                Event::MTUUpdate => 4i32,
            }),
    {
        match *self {
            Event::Up => 1,
            Event::Down => 2,
            Event::MTUUpdate => 4,
        }
    }
}

/// Process-wide protocol constants computed once at startup: the
/// BLAKE2s digests of the construction and identifier strings that seed
/// every handshake transcript.
pub struct WireguardCtx {
    pub construction_hash: Vec<u8>,
    pub identifier_hash: Vec<u8>,
}

impl WireguardCtx {
    /// Computes both digests from the fixed protocol strings.
    pub fn init() -> (r: WireguardCtx)
        ensures
            r.construction_hash@ == crate::crypto::blake2s_of(crate::crypto::construction()),
            r.identifier_hash@ == crate::crypto::blake2s_of(crate::crypto::identifier()),
            r.construction_hash@.len() == 32,
            r.identifier_hash@.len() == 32,
    {
        let c = crate::crypto::construction_bytes();
        let construction_hash = crate::crypto::blake2s_hash(c.as_slice());
        let ident = crate::crypto::identifier_bytes();
        let identifier_hash = crate::crypto::blake2s_hash(ident.as_slice());
        WireguardCtx { construction_hash, identifier_hash }
    }
}

} // verus!
