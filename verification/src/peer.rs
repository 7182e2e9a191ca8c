//! One remote identity: its key material, endpoint, allowed source
//! addresses, the three-generation key-pair ring, the embedded handshake
//! transcript, and the per-peer timers driven by the periodic tick.

use vstd::prelude::*;
use crate::byteops::{bytes_lt, bytes_of, spec_lex_lt};
use crate::crypto::{
    chacha_open, chacha_seal, chacha_seal_of, cookie_key, counter_nonce, mac1_key,
    spec_cookie_key, spec_counter_nonce, spec_mac1_key,
};
use crate::handshake::Handshake;
use crate::message::TransportData;
use crate::replay::ReplayWindow;
use crate::{
    REJECT_AFTER_MESSAGES, REJECT_AFTER_TIME, REKEY_AFTER_MESSAGES, REKEY_AFTER_TIME,
    REKEY_TIMEOUT, WIREGUARD_MAX_SRC_IPS, WgError,
};

verus! {

// ---------------------------------------------------------------------
// Key pairs.
// ---------------------------------------------------------------------

/// One generation of symmetric transport keys with its replay state.
pub struct KeyPair {
    /// Whether this generation exists at all.
    pub valid: bool,
    /// Whether this side initiated the handshake that derived it.
    pub initiator: bool,
    /// When the generation was installed, in seconds.
    pub birth: u64,
    pub sending_key: Vec<u8>,
    pub sending_valid: bool,
    pub receiving_key: Vec<u8>,
    pub receiving_valid: bool,
    pub last_tx: u64,
    pub last_rx: u64,
    /// Sliding-window state over received counters.
    pub replay: ReplayWindow,
    /// The next counter to assign on send; never reused for this key.
    pub send_counter: u64,
    /// The index this side assigned (routes inbound packets here).
    pub local_index: u32,
    /// The index the peer assigned on its side.
    pub remote_index: u32,
}

impl KeyPair {
    pub open spec fn wf(&self) -> bool {
        &&& self.replay.wf()
        &&& self.valid ==> self.sending_key@.len() == 32 && self.receiving_key@.len() == 32
    }

    /// An empty slot holding no generation.
    pub fn empty() -> (r: KeyPair)
        ensures
            r.wf(),
            !r.valid,
    {
        KeyPair {
            valid: false,
            initiator: false,
            birth: 0,
            sending_key: Vec::new(),
            sending_valid: false,
            receiving_key: Vec::new(),
            receiving_valid: false,
            last_tx: 0,
            last_rx: 0,
            replay: ReplayWindow::new(),
            send_counter: 0,
            local_index: 0,
            remote_index: 0,
        }
    }

    /// A freshly derived generation, with a fresh replay window and its
    /// counter at zero.
    pub fn new(
        initiator: bool,
        sending_key: Vec<u8>,
        receiving_key: Vec<u8>,
        local_index: u32,
        remote_index: u32,
        now: u64,
    ) -> (r: KeyPair)
        requires
            sending_key@.len() == 32,
            receiving_key@.len() == 32,
        ensures
            r.wf(),
            r.valid,
            r.initiator == initiator,
            r.birth == now,
            r.sending_key@ == sending_key@,
            r.sending_valid,
            r.receiving_key@ == receiving_key@,
            r.receiving_valid,
            r.replay@.is_fresh(),
            r.send_counter == 0,
            r.local_index == local_index,
            r.remote_index == remote_index,
    {
        KeyPair {
            valid: true,
            initiator,
            birth: now,
            sending_key,
            sending_valid: true,
            receiving_key,
            receiving_valid: true,
            last_tx: now,
            last_rx: now,
            replay: ReplayWindow::new(),
            send_counter: 0,
            local_index,
            remote_index,
        }
    }

    /// Seals an outbound payload under the sending key, assigning the
    /// next counter. Once the counter reaches the protocol ceiling the
    /// key-pair refuses to send — it never wraps — and the caller must
    /// rekey; a generation whose sending key was retired refuses too.
    pub fn encrypt(&mut self, plaintext: &[u8]) -> (r: Result<TransportData, WgError>)
        requires
            old(self).wf(),
            plaintext@.len() < 0x4000_0000,
        ensures
            final(self).wf(),
            r is Ok <==> (old(self).valid && old(self).sending_valid && old(self).send_counter
                < REJECT_AFTER_MESSAGES),
            r matches Ok(td) ==> {
                &&& td.receiver == old(self).remote_index
                &&& td.counter == old(self).send_counter
                &&& td.enc_packet@ == chacha_seal_of(
                    old(self).sending_key@,
                    spec_counter_nonce(old(self).send_counter),
                    Seq::<u8>::empty(),
                    plaintext@,
                )
                &&& td.enc_packet@.len() == plaintext@.len() + 16
                &&& td.wf()
                &&& *final(self) == (KeyPair {
                    send_counter: (old(self).send_counter + 1) as u64,
                    ..*old(self)
                })
            },
            r matches Err(e) ==> e == WgError::RekeyRequired && *final(self) == *old(self),
    {
        if !self.valid || !self.sending_valid {
            return Err(WgError::RekeyRequired);
        }
        if self.send_counter >= REJECT_AFTER_MESSAGES {
            return Err(WgError::RekeyRequired);
        }
        let counter = self.send_counter;
        let nonce = counter_nonce(counter);
        let aad: Vec<u8> = Vec::new();
        proof {
            assert(aad@ =~= Seq::<u8>::empty());
        }
        let enc_packet = chacha_seal(
            self.sending_key.as_slice(),
            nonce.as_slice(),
            aad.as_slice(),
            plaintext,
        );
        self.send_counter = counter + 1;
        Ok(TransportData { receiver: self.remote_index, counter, enc_packet })
    }

    /// Opens an inbound packet: the counter is screened against the
    /// replay window first, the payload opened under the receiving key,
    /// and the counter marked only after the opening succeeds.
    pub fn decrypt(&mut self, counter: u64, enc_packet: &[u8]) -> (r: Result<Vec<u8>, WgError>)
        requires
            old(self).wf(),
        ensures
            final(self).wf(),
            r matches Ok(p) ==> {
                &&& old(self).valid && old(self).receiving_valid
                &&& old(self).replay@.accepts(counter)
                &&& enc_packet@ == chacha_seal_of(
                    old(self).receiving_key@,
                    spec_counter_nonce(counter),
                    Seq::<u8>::empty(),
                    p@,
                )
                &&& *final(self) == (KeyPair { replay: final(self).replay, ..*old(self) })
                &&& final(self).replay@ == old(self).replay@.accept(counter)
            },
            r matches Err(e) ==> {
                &&& *final(self) == *old(self)
                &&& (e == WgError::ReplayedOrInvalid || e == WgError::AuthenticationFailed)
                &&& (e == WgError::ReplayedOrInvalid <==> !(old(self).valid && old(
                    self,
                ).receiving_valid && old(self).replay@.accepts(counter)))
            },
            forall|p: Seq<u8>|
                (old(self).valid && old(self).receiving_valid && old(self).replay@.accepts(counter)
                    && enc_packet@ == #[trigger] chacha_seal_of(
                    old(self).receiving_key@,
                    spec_counter_nonce(counter),
                    Seq::<u8>::empty(),
                    p,
                )) ==> r is Ok,
    {
        if !self.valid || !self.receiving_valid {
            return Err(WgError::ReplayedOrInvalid);
        }
        if !self.replay.would_accept(counter) {
            return Err(WgError::ReplayedOrInvalid);
        }
        let nonce = counter_nonce(counter);
        let aad: Vec<u8> = Vec::new();
        proof {
            assert(aad@ =~= Seq::<u8>::empty());
        }
        let opened = chacha_open(
            self.receiving_key.as_slice(),
            nonce.as_slice(),
            aad.as_slice(),
            enc_packet,
        );
        match opened {
            Some(p) => {
                let accepted = self.replay.check_and_update(counter);
                proof {
                    assert(accepted);
                }
                Ok(p)
            },
            None => Err(WgError::AuthenticationFailed),
        }
    }
}

// ---------------------------------------------------------------------
// Endpoints and allowed source addresses.
// ---------------------------------------------------------------------

/// The peer's remote socket address, as plain bytes and a port; absent
/// until configured or learned from authenticated traffic.
pub struct Endpoint {
    pub present: bool,
    pub ip: Vec<u8>,
    pub port: u16,
}

impl Endpoint {
    /// No address known.
    pub fn empty() -> (r: Endpoint)
        ensures
            !r.present,
    {
        Endpoint { present: false, ip: Vec::new(), port: 0 }
    }
}

/// One allowed source range: an address and a mask of equal length.
pub struct AllowedIp {
    pub valid: bool,
    pub ip: Vec<u8>,
    pub mask: Vec<u8>,
}

impl AllowedIp {
    /// Whether `addr` falls in this range: the entry is live, the
    /// lengths agree, and the masked bytes coincide.
    pub open spec fn spec_allows(&self, addr: Seq<u8>) -> bool {
        &&& self.valid
        &&& self.ip@.len() == addr.len()
        &&& self.mask@.len() == addr.len()
        &&& forall|j: int|
            0 <= j < addr.len() ==> (addr[j] & self.mask@[j]) == (self.ip@[j] & self.mask@[j])
    }

    /// Tests `addr` against this range.
    #[verifier::loop_isolation(false)]
    pub fn allows(&self, addr: &[u8]) -> (r: bool)
        ensures
            r == self.spec_allows(addr@),
    {
        if !self.valid {
            return false;
        }
        if self.ip.len() != addr.len() || self.mask.len() != addr.len() {
            return false;
        }
        let n = addr.len();
        let mut i: usize = 0;
        while i < n
            invariant
                0 <= i <= n == addr@.len(),
                forall|j: int|
                    0 <= j < i ==> (addr@[j] & self.mask@[j]) == (self.ip@[j] & self.mask@[j]),
            decreases n - i,
        {
            if (addr[i] & self.mask[i]) != (self.ip[i] & self.mask[i]) {
                return false;
            }
            i = i + 1;
        }
        true
    }
}

// ---------------------------------------------------------------------
// The peer itself.
// ---------------------------------------------------------------------

/// What the periodic tick asks the host to do for a peer.
#[derive(Clone, Copy, Debug, PartialEq, Eq, Structural)]
pub enum PeerAction {
    /// Nothing due.
    Idle,
    /// Begin a new handshake (no usable key-pair, rekey due, or one was
    /// explicitly requested), provided the retry interval has elapsed.
    SendInitiation,
    /// Send an empty keepalive packet on the current key-pair.
    SendKeepalive,
}

/// One configured remote identity and everything owned per peer.
pub struct Peer {
    /// Whether this slot holds a configured peer.
    pub valid: bool,
    /// Whether traffic should flow (a disabled peer keeps its config).
    pub active: bool,
    /// Remote socket address, if known.
    pub ep: Endpoint,
    /// Keepalive interval in seconds; zero disables keepalives.
    pub keepalive_interval: u16,
    /// Bounded set of source ranges accepted from this peer.
    pub allowed_source_ips: Vec<AllowedIp>,
    /// The peer's static public key (32 bytes).
    pub public_key: Vec<u8>,
    /// The preshared key mixed into the handshake (32 bytes).
    pub preshared_key: Vec<u8>,
    /// DH(device static secret, peer static public), computed once.
    pub public_key_dh: Vec<u8>,
    /// Current transport generation.
    pub curr_keypair: KeyPair,
    /// Previous generation, kept for late inbound packets.
    pub prev_keypair: KeyPair,
    /// A staged generation from a simultaneous-initiation race.
    pub next_keypair: KeyPair,
    /// Greatest handshake timestamp accepted from this peer (12 bytes).
    pub greatest_timestamp: Vec<u8>,
    /// The in-flight handshake transcript.
    pub handshake: Handshake,
    /// Whether `cookie` holds a cookie from a CookieReply.
    pub cookie_set: bool,
    /// The decrypted cookie (16 bytes when set), keying our mac2.
    pub cookie: Vec<u8>,
    /// When the cookie was received, in seconds.
    pub cookie_birth: u64,
    /// Whether `handshake_mac1` holds the mac1 of our last initiation.
    pub handshake_mac1_valid: bool,
    /// mac1 of the last initiation we sent (16 bytes when valid);
    /// CookieReplies are bound to it.
    pub handshake_mac1: Vec<u8>,
    /// BLAKE2s(cookie label || peer public key): opens CookieReplies
    /// this peer sends us.
    pub label_cookie_key: Vec<u8>,
    /// BLAKE2s(mac1 label || peer public key), keying our outgoing mac1.
    pub label_mac1_key: Vec<u8>,
    /// When we last accepted an initiation from this peer, in seconds.
    pub last_initiation_rx: u64,
    /// When we last sent an initiation to this peer, in seconds.
    pub last_initiation_tx: u64,
    pub last_tx: u64,
    pub last_rx: u64,
    /// Set when traffic decides a fresh handshake is wanted.
    pub send_handshake: bool,
}

impl Peer {
    pub open spec fn wf(&self) -> bool {
        &&& self.curr_keypair.wf()
        &&& self.prev_keypair.wf()
        &&& self.next_keypair.wf()
        &&& self.handshake.wf()
        &&& self.allowed_source_ips@.len() <= WIREGUARD_MAX_SRC_IPS
        &&& self.valid ==> {
            &&& self.public_key@.len() == 32
            &&& self.preshared_key@.len() == 32
            &&& self.public_key_dh@.len() == 32
            &&& self.label_cookie_key@.len() == 32
            &&& self.label_mac1_key@.len() == 32
            &&& self.greatest_timestamp@.len() == 12
            &&& (self.cookie_set ==> self.cookie@.len() == 16)
            &&& (self.handshake_mac1_valid ==> self.handshake_mac1@.len() == 16)
        }
    }

    /// Configures a peer slot: key material, the precomputed
    /// static-static shared secret, and both label keys derived from
    /// the peer's public key.
    pub fn new(
        public_key: Vec<u8>,
        preshared_key: Vec<u8>,
        public_key_dh: Vec<u8>,
        keepalive_interval: u16,
    ) -> (r: Peer)
        requires
            public_key@.len() == 32,
            preshared_key@.len() == 32,
            public_key_dh@.len() == 32,
        ensures
            r.wf(),
            r.valid,
            r.active,
            r.public_key@ == public_key@,
            r.preshared_key@ == preshared_key@,
            r.public_key_dh@ == public_key_dh@,
            r.keepalive_interval == keepalive_interval,
            r.label_mac1_key@ == spec_mac1_key(public_key@),
            r.label_cookie_key@ == spec_cookie_key(public_key@),
            !r.curr_keypair.valid,
            !r.prev_keypair.valid,
            !r.next_keypair.valid,
            !r.handshake.valid,
            !r.ep.present,
            !r.cookie_set,
            !r.send_handshake,
            r.last_initiation_tx == 0,
            r.greatest_timestamp@ == crate::byteops::spec_zero_bytes(12),
            r.allowed_source_ips@.len() == 0,
    {
        let label_mac1_key = mac1_key(public_key.as_slice());
        let label_cookie_key = cookie_key(public_key.as_slice());
        Peer {
            valid: true,
            active: true,
            ep: Endpoint::empty(),
            keepalive_interval,
            allowed_source_ips: Vec::new(),
            public_key,
            preshared_key,
            public_key_dh,
            curr_keypair: KeyPair::empty(),
            prev_keypair: KeyPair::empty(),
            next_keypair: KeyPair::empty(),
            greatest_timestamp: crate::byteops::zero_vec(12),
            handshake: Handshake::empty(),
            cookie_set: false,
            cookie: Vec::new(),
            cookie_birth: 0,
            handshake_mac1_valid: false,
            handshake_mac1: Vec::new(),
            label_cookie_key,
            label_mac1_key,
            last_initiation_rx: 0,
            last_initiation_tx: 0,
            last_tx: 0,
            last_rx: 0,
            send_handshake: false,
        }
    }

    /// Whether `addr` falls in one of the allowed source ranges.
    pub fn allows_source_ip(&self, addr: &[u8]) -> (r: bool)
        ensures
            r == exists|j: int|
                0 <= j < self.allowed_source_ips@.len()
                    && self.allowed_source_ips@[j].spec_allows(addr@),
    {
        let n = self.allowed_source_ips.len();
        let mut i: usize = 0;
        while i < n
            invariant
                0 <= i <= n == self.allowed_source_ips@.len(),
                forall|j: int| 0 <= j < i ==> !self.allowed_source_ips@[j].spec_allows(addr@),
            decreases n - i,
        {
            if self.allowed_source_ips[i].allows(addr) {
                return true;
            }
            i = i + 1;
        }
        false
    }

    /// Adds a source range to the bounded allowed set; fails with the
    /// capacity error exactly when the set is full.
    pub fn add_allowed_ip(&mut self, entry: AllowedIp) -> (r: Result<(), WgError>)
        requires
            old(self).wf(),
        ensures
            final(self).wf(),
            r is Ok <==> old(self).allowed_source_ips@.len() < WIREGUARD_MAX_SRC_IPS,
            r is Ok ==> final(self).allowed_source_ips@ == old(self).allowed_source_ips@.push(
                entry,
            ) && *final(self) == (Peer {
                allowed_source_ips: final(self).allowed_source_ips,
                ..*old(self)
            }),
            r matches Err(e) ==> e == WgError::CapacityExceeded && *final(self) == *old(self),
    {
        if self.allowed_source_ips.len() >= WIREGUARD_MAX_SRC_IPS {
            return Err(WgError::CapacityExceeded);
        }
        self.allowed_source_ips.push(entry);
        Ok(())
    }

    /// Empties the allowed set, so a configuration change can rebuild it.
    pub fn clear_allowed_ips(&mut self)
        requires
            old(self).wf(),
        ensures
            final(self).wf(),
            final(self).allowed_source_ips@.len() == 0,
            *final(self) == (Peer {
                allowed_source_ips: final(self).allowed_source_ips,
                ..*old(self)
            }),
    {
        self.allowed_source_ips.clear();
    }

    /// Records the remote address a packet authenticated from; an
    /// endpoint is updated opportunistically but never cleared here.
    pub fn set_endpoint(&mut self, ip: Vec<u8>, port: u16)
        ensures
            final(self).ep.present,
            final(self).ep.ip@ == ip@,
            final(self).ep.port == port,
            *final(self) == (Peer { ep: final(self).ep, ..*old(self) }),
    {
        self.ep = Endpoint { present: true, ip, port };
    }

    /// Whether `ts` is strictly newer than the greatest handshake
    /// timestamp accepted so far (anti-replay on initiations).
    pub fn timestamp_is_newer(&self, ts: &[u8]) -> (r: bool)
        ensures
            r == spec_lex_lt(self.greatest_timestamp@, ts@),
    {
        bytes_lt(self.greatest_timestamp.as_slice(), ts)
    }

    // -----------------------------------------------------------------
    // Key-pair slot rotation.
    // -----------------------------------------------------------------

    /// Installs a freshly derived generation. The old current slides to
    /// previous (dropping anything older). Normally the new generation
    /// becomes current; when a generation from a simultaneous-initiation
    /// race is already staged, the tie is broken deterministically — the
    /// generation whose initiator role corresponds to the numerically
    /// lower static public key wins as current, and the loser stays
    /// staged — so both ends converge on the same generation.
    pub fn install_keypair(&mut self, new_kp: KeyPair, device_public: &Vec<u8>)
        requires
            old(self).wf(),
            new_kp.wf(),
            new_kp.valid,
        ensures
            final(self).wf(),
            final(self).prev_keypair == old(self).curr_keypair,
            !old(self).next_keypair.valid ==> final(self).curr_keypair == new_kp
                && final(self).next_keypair == old(self).next_keypair,
            old(self).next_keypair.valid ==> {
                let we_win_initiating = spec_lex_lt(device_public@, old(self).public_key@);
                if new_kp.initiator == we_win_initiating {
                    &&& final(self).curr_keypair == new_kp
                    &&& final(self).next_keypair == old(self).next_keypair
                } else {
                    &&& final(self).curr_keypair == old(self).next_keypair
                    &&& final(self).next_keypair == new_kp
                }
            },
            *final(self) == (Peer {
                curr_keypair: final(self).curr_keypair,
                prev_keypair: final(self).prev_keypair,
                next_keypair: final(self).next_keypair,
                ..*old(self)
            }),
    {
        if !self.next_keypair.valid {
            core::mem::swap(&mut self.prev_keypair, &mut self.curr_keypair);
            self.curr_keypair = new_kp;
            return ;
        }
        let we_win_initiating = bytes_lt(device_public.as_slice(), self.public_key.as_slice());
        if new_kp.initiator == we_win_initiating {
            core::mem::swap(&mut self.prev_keypair, &mut self.curr_keypair);
            self.curr_keypair = new_kp;
        } else {
            core::mem::swap(&mut self.prev_keypair, &mut self.curr_keypair);
            core::mem::swap(&mut self.curr_keypair, &mut self.next_keypair);
            self.next_keypair = new_kp;
        }
    }

    // -----------------------------------------------------------------
    // The periodic tick.
    // -----------------------------------------------------------------

    /// The peer after the tick's expiry pass: a current generation past
    /// the hard age stops sending (it still receives until superseded),
    /// and a previous generation past the hard age is purged.
    pub open spec fn spec_after_expiry(self, now: u64) -> Peer {
        if !self.valid || !self.active {
            self
        } else {
            let c = if self.curr_keypair.valid && now >= self.curr_keypair.birth
                + REJECT_AFTER_TIME {
                KeyPair { sending_valid: false, ..self.curr_keypair }
            } else {
                self.curr_keypair
            };
            let pv = if self.prev_keypair.valid && now >= self.prev_keypair.birth
                + REJECT_AFTER_TIME {
                KeyPair { valid: false, receiving_valid: false, ..self.prev_keypair }
            } else {
                self.prev_keypair
            };
            Peer { curr_keypair: c, prev_keypair: pv, ..self }
        }
    }

    /// Whether a new handshake is due at `now`: the peer is live, some
    /// condition calls for fresh keys, and the retry interval since the
    /// last initiation has elapsed.
    pub open spec fn spec_wants_initiation(&self, now: u64) -> bool {
        &&& self.valid
        &&& self.active
        &&& {
            ||| !self.curr_keypair.valid
            ||| !self.curr_keypair.sending_valid
            ||| now >= self.curr_keypair.birth + REKEY_AFTER_TIME
            ||| self.curr_keypair.send_counter >= REKEY_AFTER_MESSAGES
            ||| self.send_handshake
        }
        &&& now >= self.last_initiation_tx + REKEY_TIMEOUT
    }

    /// Whether a keepalive is due at `now`: no handshake due, a usable
    /// key-pair, a configured interval, and silence since the last send.
    pub open spec fn spec_wants_keepalive(&self, now: u64) -> bool {
        &&& self.valid
        &&& self.active
        &&& !self.spec_wants_initiation(now)
        &&& self.curr_keypair.valid
        &&& self.curr_keypair.sending_valid
        &&& self.keepalive_interval > 0
        &&& now >= self.last_tx + self.keepalive_interval
    }

    /// One periodic evaluation of this peer's timers: the expiry pass
    /// first, then the decision. Emitting an initiation intent stamps
    /// the retry clock at `now`, so an immediate second tick is idle;
    /// emitting a keepalive intent stamps the send clock likewise.
    pub fn tick(&mut self, now: u64) -> (r: PeerAction)
        requires
            old(self).wf(),
        ensures
            final(self).wf(),
            r == ({
                let e = old(self).spec_after_expiry(now);
                if e.spec_wants_initiation(now) {
                    PeerAction::SendInitiation
                } else if e.spec_wants_keepalive(now) {
                    PeerAction::SendKeepalive
                } else {
                    PeerAction::Idle
                }
            }),
            r == PeerAction::SendInitiation ==> *final(self) == (Peer {
                last_initiation_tx: now,
                send_handshake: false,
                ..old(self).spec_after_expiry(now)
            }),
            r == PeerAction::SendKeepalive ==> *final(self) == (Peer {
                last_tx: now,
                ..old(self).spec_after_expiry(now)
            }),
            r == PeerAction::Idle ==> *final(self) == old(self).spec_after_expiry(now),
    {
        if !self.valid || !self.active {
            return PeerAction::Idle;
        }
        if self.curr_keypair.valid && now >= REJECT_AFTER_TIME && self.curr_keypair.birth <= now
            - REJECT_AFTER_TIME {
            self.curr_keypair.sending_valid = false;
        }
        if self.prev_keypair.valid && now >= REJECT_AFTER_TIME && self.prev_keypair.birth <= now
            - REJECT_AFTER_TIME {
            self.prev_keypair.valid = false;
            self.prev_keypair.receiving_valid = false;
        }
        let needs_rekey = !self.curr_keypair.valid || !self.curr_keypair.sending_valid || (now
            >= REKEY_AFTER_TIME && self.curr_keypair.birth <= now - REKEY_AFTER_TIME)
            || self.curr_keypair.send_counter >= REKEY_AFTER_MESSAGES || self.send_handshake;
        if needs_rekey && now >= REKEY_TIMEOUT && self.last_initiation_tx <= now - REKEY_TIMEOUT {
            self.last_initiation_tx = now;
            self.send_handshake = false;
            return PeerAction::SendInitiation;
        }
        if !needs_rekey || now < REKEY_TIMEOUT || self.last_initiation_tx > now - REKEY_TIMEOUT {
            if self.curr_keypair.valid && self.curr_keypair.sending_valid
                && self.keepalive_interval > 0 {
                let interval = self.keepalive_interval as u64;
                if now >= interval && self.last_tx <= now - interval {
                    self.last_tx = now;
                    return PeerAction::SendKeepalive;
                }
            }
        }
        PeerAction::Idle
    }
}

/// Law: the tick is idempotent over rekeying. A tick that emits an
/// initiation intent leaves the peer in a state where an immediate
/// second tick at the same instant — expiry pass included — emits none.
pub proof fn lemma_tick_idempotent(p: Peer, now: u64)
    requires
        p.spec_after_expiry(now).spec_wants_initiation(now),
    ensures
        !(Peer {
            last_initiation_tx: now,
            send_handshake: false,
            ..p.spec_after_expiry(now)
        }).spec_after_expiry(now).spec_wants_initiation(now),
{
    assert(REKEY_TIMEOUT > 0);
}

} // verus!
