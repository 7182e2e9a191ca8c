//! The device context: process-wide identity, precomputed label keys,
//! the rotating cookie secret, the bounded peer table, and the entry
//! points that route wire messages through the engine.

use vstd::prelude::*;
use crate::byteops::{bytes_eq, bytes_of, write_at, zero_vec};
use crate::cookie::{
    compute_msg_mac, cookie_value, create_cookie_reply, spec_cookie_value, spec_msg_mac,
    verify_msg_mac, CookieSecret, RateLimiter,
};
use crate::crypto::{
    chacha_seal_of, cookie_key, dh_of, mac1_key, pub_key_of, spec_cookie_key, spec_counter_nonce,
    spec_mac1_key, x25519_dh, x25519_public_key,
};
use crate::handshake::{
    consume_initiation, consume_response, create_initiation, create_response, spec_final_ck,
    spec_key_to_initiator, spec_key_to_responder,
};
use crate::message::{
    encode_to_vec, lemma_parseable_prefix, lemma_serialize_len, CookieReply, HandshakeInitiation,
    HandshakeResponse, Message, TransportData, MSG_COOKIE_REPLY_LEN, MSG_INITIATION_LEN,
    MSG_INITIATION_MAC1_COVER, MSG_INITIATION_MAC2_COVER, MSG_RESPONSE_LEN,
    MSG_RESPONSE_MAC1_COVER, MSG_RESPONSE_MAC2_COVER,
};
use crate::peer::{KeyPair, Peer, PeerAction};
use crate::{COOKIE_SECRET_MAX_AGE, WgError};

verus! {

/// Process-wide protocol state: the static identity, both label keys
/// precomputed from it, the rotating cookie secret, the per-source rate
/// limiter and the bounded peer table.
pub struct Device {
    /// Whether the device has been configured.
    pub valid: bool,
    /// The device's static public key (32 bytes).
    pub public_key: Vec<u8>,
    /// The device's static secret (32 bytes).
    pub private_key: Vec<u8>,
    /// The rotating secret behind the cookies this device hands out.
    pub cookie_secret: CookieSecret,
    /// BLAKE2s(cookie label || our public key): seals cookie replies we
    /// send; peers open them with the same value.
    pub label_cookie_key: Vec<u8>,
    /// BLAKE2s(mac1 label || our public key): verifies the mac1 of
    /// every handshake message addressed to us.
    pub label_mac1_key: Vec<u8>,
    /// One slot per configured remote identity, bounded by `capacity`.
    pub peers: Vec<Peer>,
    /// The fixed peer-table capacity.
    pub capacity: usize,
    /// The next local index to hand to a handshake or key-pair.
    pub next_index: u32,
    /// Per-source initiation counters.
    pub rate_limiter: RateLimiter,
}

impl Device {
    /// Every live index of `p` — its transcript's and its key-pair
    /// slots' — lies below `bound`.
    pub open spec fn spec_peer_indices_below(p: Peer, bound: u32) -> bool {
        &&& (p.handshake.valid ==> p.handshake.local_index < bound)
        &&& (p.curr_keypair.valid ==> p.curr_keypair.local_index < bound)
        &&& (p.prev_keypair.valid ==> p.prev_keypair.local_index < bound)
        &&& (p.next_keypair.valid ==> p.next_keypair.local_index < bound)
    }

    /// No two live slots of `p` share an index.
    pub open spec fn spec_peer_indices_distinct(p: Peer) -> bool {
        &&& (p.handshake.valid && p.curr_keypair.valid ==> p.handshake.local_index
            != p.curr_keypair.local_index)
        &&& (p.handshake.valid && p.prev_keypair.valid ==> p.handshake.local_index
            != p.prev_keypair.local_index)
        &&& (p.handshake.valid && p.next_keypair.valid ==> p.handshake.local_index
            != p.next_keypair.local_index)
        &&& (p.curr_keypair.valid && p.prev_keypair.valid ==> p.curr_keypair.local_index
            != p.prev_keypair.local_index)
        &&& (p.curr_keypair.valid && p.next_keypair.valid ==> p.curr_keypair.local_index
            != p.next_keypair.local_index)
        &&& (p.prev_keypair.valid && p.next_keypair.valid ==> p.prev_keypair.local_index
            != p.next_keypair.local_index)
    }

    pub open spec fn wf(&self) -> bool {
        &&& self.public_key@.len() == 32
        &&& self.private_key@.len() == 32
        &&& self.cookie_secret.wf()
        &&& self.label_cookie_key@.len() == 32
        &&& self.label_mac1_key@.len() == 32
        &&& self.peers@.len() <= self.capacity
        &&& forall|i: int| 0 <= i < self.peers@.len() ==> (#[trigger] self.peers@[i]).wf()
        &&& forall|i: int|
            0 <= i < self.peers@.len() && (#[trigger] self.peers@[i]).valid ==> {
                &&& self.peers@[i].label_mac1_key@ == spec_mac1_key(self.peers@[i].public_key@)
                &&& self.peers@[i].label_cookie_key@ == spec_cookie_key(
                    self.peers@[i].public_key@,
                )
            }
        &&& forall|i: int|
            0 <= i < self.peers@.len() ==> Self::spec_peer_indices_below(
                #[trigger] self.peers@[i],
                self.next_index,
            ) && Self::spec_peer_indices_distinct(self.peers@[i])
        &&& forall|j1: int, j2: int, idx: u32|
            #![trigger Self::spec_owns_index(self.peers@[j1], idx), Self::spec_owns_index(self.peers@[j2], idx)]
            (0 <= j1 < self.peers@.len() && 0 <= j2 < self.peers@.len() && j1 != j2
                && Self::spec_owns_index(self.peers@[j1], idx)) ==> !Self::spec_owns_index(
                self.peers@[j2],
                idx,
            )
        &&& self.rate_limiter.wf()
    }

    /// Updating one peer slot keeps the index invariants, provided the
    /// slot's live indices stay among its old ones or take fresh values
    /// in `[pre_bound, post_bound)`, stay below `post_bound`, and stay
    /// pairwise distinct.
    proof fn lemma_index_invariants_update(
        pre: Seq<Peer>,
        post: Seq<Peer>,
        i: int,
        pre_bound: u32,
        post_bound: u32,
    )
        requires
            pre.len() == post.len(),
            0 <= i < pre.len(),
            pre_bound <= post_bound,
            forall|j: int| 0 <= j < pre.len() && j != i ==> post[j] == pre[j],
            forall|idx: u32|
                #[trigger] Self::spec_owns_index(post[i], idx) ==> Self::spec_owns_index(
                    pre[i],
                    idx,
                ) || (pre_bound <= idx < post_bound),
            Self::spec_peer_indices_below(post[i], post_bound),
            Self::spec_peer_indices_distinct(post[i]),
            forall|j: int|
                0 <= j < pre.len() ==> Self::spec_peer_indices_below(#[trigger] pre[j], pre_bound)
                    && Self::spec_peer_indices_distinct(pre[j]),
            forall|j1: int, j2: int, idx: u32|
                #![trigger Self::spec_owns_index(pre[j1], idx), Self::spec_owns_index(pre[j2], idx)]
                (0 <= j1 < pre.len() && 0 <= j2 < pre.len() && j1 != j2 && Self::spec_owns_index(
                    pre[j1],
                    idx,
                )) ==> !Self::spec_owns_index(pre[j2], idx),
        ensures
            forall|j: int|
                0 <= j < post.len() ==> Self::spec_peer_indices_below(
                    #[trigger] post[j],
                    post_bound,
                ) && Self::spec_peer_indices_distinct(post[j]),
            forall|j1: int, j2: int, idx: u32|
                #![trigger Self::spec_owns_index(post[j1], idx), Self::spec_owns_index(post[j2], idx)]
                (0 <= j1 < post.len() && 0 <= j2 < post.len() && j1 != j2 && Self::spec_owns_index(
                    post[j1],
                    idx,
                )) ==> !Self::spec_owns_index(post[j2], idx),
    {
        assert forall|j: int|
            0 <= j < post.len() implies Self::spec_peer_indices_below(#[trigger] post[j], post_bound)
            && Self::spec_peer_indices_distinct(post[j]) by {
            if j != i {
                assert(post[j] == pre[j]);
                assert(Self::spec_peer_indices_below(pre[j], pre_bound));
                assert(Self::spec_peer_indices_distinct(pre[j]));
            }
        }
        assert forall|j1: int, j2: int, idx: u32|
            (0 <= j1 < post.len() && 0 <= j2 < post.len() && j1 != j2 && Self::spec_owns_index(
                post[j1],
                idx,
            )) implies !Self::spec_owns_index(post[j2], idx) by {
            if Self::spec_owns_index(post[j2], idx) {
                if j1 != i && j2 != i {
                    assert(post[j1] == pre[j1]);
                    assert(post[j2] == pre[j2]);
                    assert(Self::spec_owns_index(pre[j1], idx));
                    assert(Self::spec_owns_index(pre[j2], idx));
                } else if j1 == i {
                    assert(post[j2] == pre[j2]);
                    assert(Self::spec_owns_index(pre[j2], idx));
                    if Self::spec_owns_index(pre[i], idx) {
                        assert(false);
                    } else {
                        assert(pre_bound <= idx);
                        assert(Self::spec_peer_indices_below(pre[j2], pre_bound));
                        assert(idx < pre_bound);
                    }
                } else {
                    assert(post[j1] == pre[j1]);
                    assert(Self::spec_owns_index(pre[j1], idx));
                    if Self::spec_owns_index(pre[i], idx) {
                        assert(false);
                    } else {
                        assert(pre_bound <= idx);
                        assert(Self::spec_peer_indices_below(pre[j1], pre_bound));
                        assert(idx < pre_bound);
                    }
                }
            }
        }
    }

    /// Configures a device: derives the public key and both label keys
    /// from the static secret and installs the first cookie secret.
    pub fn new(
        private_key: Vec<u8>,
        capacity: usize,
        rate_capacity: usize,
        initial_cookie_secret: Vec<u8>,
        now: u64,
    ) -> (r: Device)
        requires
            private_key@.len() == 32,
            initial_cookie_secret@.len() == 32,
        ensures
            r.wf(),
            r.valid,
            r.public_key@ == pub_key_of(private_key@),
            r.private_key@ == private_key@,
            r.label_mac1_key@ == spec_mac1_key(pub_key_of(private_key@)),
            r.label_cookie_key@ == spec_cookie_key(pub_key_of(private_key@)),
            r.capacity == capacity,
            r.peers@.len() == 0,
            r.next_index == 1,
            r.cookie_secret.secret@ == initial_cookie_secret@,
            r.cookie_secret.generation == 0,
    {
        let public_key = x25519_public_key(private_key.as_slice());
        let label_mac1_key = mac1_key(public_key.as_slice());
        let label_cookie_key = cookie_key(public_key.as_slice());
        Device {
            valid: true,
            public_key,
            private_key,
            cookie_secret: CookieSecret::new(initial_cookie_secret, now),
            label_cookie_key,
            label_mac1_key,
            peers: Vec::new(),
            capacity,
            next_index: 1,
            rate_limiter: RateLimiter::new(rate_capacity),
        }
    }

    /// Replaces the cookie secret with `fresh` once it is older than the
    /// maximum age; the host calls this from its periodic tick with
    /// fresh randomness in hand.
    pub fn rotate_cookie_secret(&mut self, fresh: &Vec<u8>, now: u64) -> (r: bool)
        requires
            old(self).wf(),
            fresh@.len() == 32,
            old(self).cookie_secret.generation < 0xFFFF_FFFF_FFFF_FFFFu64,
        ensures
            final(self).wf(),
            r == (now >= old(self).cookie_secret.birth + COOKIE_SECRET_MAX_AGE),
            r ==> final(self).cookie_secret.secret@ == fresh@,
            r ==> final(self).cookie_secret.generation == old(self).cookie_secret.generation + 1,
            !r ==> final(self).cookie_secret.secret@ == old(self).cookie_secret.secret@,
            *final(self) == (Device { cookie_secret: final(self).cookie_secret, ..*old(self) }),
    {
        self.cookie_secret.maybe_rotate(fresh, now)
    }

    /// Adds a remote identity, precomputing the static-static shared
    /// secret and the peer's label keys. The first removed slot is
    /// re-initialized when one exists; otherwise a slot is taken at the
    /// end of the table. Fails with the capacity error exactly when
    /// every slot up to capacity holds a live peer; the table is then
    /// unchanged.
    #[verifier::loop_isolation(false)]
    pub fn add_peer(
        &mut self,
        peer_public_key: Vec<u8>,
        preshared_key: Vec<u8>,
        keepalive_interval: u16,
    ) -> (r: Result<usize, WgError>)
        requires
            old(self).wf(),
            peer_public_key@.len() == 32,
            preshared_key@.len() == 32,
        ensures
            final(self).wf(),
            r is Ok <==> ((exists|j: int|
                0 <= j < old(self).peers@.len() && !(#[trigger] old(self).peers@[j]).valid)
                || old(self).peers@.len() < old(self).capacity),
            r matches Err(e) ==> e == WgError::CapacityExceeded && *final(self) == *old(self),
            r matches Ok(i) ==> {
                &&& i <= old(self).peers@.len()
                &&& (i < old(self).peers@.len() ==> !old(self).peers@[i as int].valid
                    && final(self).peers@.len() == old(self).peers@.len())
                &&& (i == old(self).peers@.len() ==> final(self).peers@.len()
                    == old(self).peers@.len() + 1)
                &&& final(self).peers@[i as int].valid
                &&& final(self).peers@[i as int].active
                &&& final(self).peers@[i as int].public_key@ == peer_public_key@
                &&& final(self).peers@[i as int].preshared_key@ == preshared_key@
                &&& final(self).peers@[i as int].public_key_dh@ == dh_of(
                    old(self).private_key@,
                    peer_public_key@,
                )
                &&& !final(self).peers@[i as int].curr_keypair.valid
                &&& !final(self).peers@[i as int].handshake.valid
                &&& forall|j: int|
                    0 <= j < old(self).peers@.len() && j != i ==> final(self).peers@[j]
                        == old(self).peers@[j]
                &&& *final(self) == (Device { peers: final(self).peers, ..*old(self) })
            },
    {
        let shared = x25519_dh(self.private_key.as_slice(), peer_public_key.as_slice());
        let peer = Peer::new(peer_public_key, preshared_key, shared, keepalive_interval);
        let n = self.peers.len();
        let mut k: usize = 0;
        while k < n
            invariant
                0 <= k <= n == self.peers@.len(),
                *self == *old(self),
                forall|j: int| 0 <= j < k ==> (#[trigger] self.peers@[j]).valid,
            decreases n - k,
        {
            if !self.peers[k].valid {
                self.peers.set(k, peer);
                return Ok(k);
            }
            k = k + 1;
        }
        if self.peers.len() >= self.capacity {
            return Err(WgError::CapacityExceeded);
        }
        let i = self.peers.len();
        self.peers.push(peer);
        Ok(i)
    }

    /// Marks a peer slot as removed. The slot keeps its place, so
    /// indices into the table stay stable, and the next add may
    /// re-initialize it.
    pub fn remove_peer(&mut self, i: usize)
        requires
            old(self).wf(),
            i < old(self).peers@.len(),
        ensures
            final(self).wf(),
            final(self).peers@.len() == old(self).peers@.len(),
            !final(self).peers@[i as int].valid,
            !final(self).peers@[i as int].active,
            forall|j: int|
                0 <= j < old(self).peers@.len() && j != i ==> final(self).peers@[j] == old(self).peers@[j],
            *final(self) == (Device { peers: final(self).peers, ..*old(self) }),
    {
        let p = &mut self.peers[i];
        p.valid = false;
        p.active = false;
    }

    /// The first peer slot holding `key` as a live identity.
    pub fn find_peer_by_pubkey(&self, key: &[u8]) -> (r: Option<usize>)
        ensures
            r matches Some(i) ==> {
                &&& i < self.peers@.len()
                &&& self.peers@[i as int].valid
                &&& self.peers@[i as int].public_key@ == key@
                &&& forall|j: int|
                    0 <= j < i ==> !((#[trigger] self.peers@[j]).valid
                        && self.peers@[j].public_key@ == key@)
            },
            r is None ==> forall|j: int|
                0 <= j < self.peers@.len() ==> !((#[trigger] self.peers@[j]).valid
                    && self.peers@[j].public_key@ == key@),
    {
        let n = self.peers.len();
        let mut i: usize = 0;
        while i < n
            invariant
                0 <= i <= n == self.peers@.len(),
                forall|j: int|
                    0 <= j < i ==> !((#[trigger] self.peers@[j]).valid
                        && self.peers@[j].public_key@ == key@),
            decreases n - i,
        {
            if self.peers[i].valid && bytes_eq(self.peers[i].public_key.as_slice(), key) {
                return Some(i);
            }
            i = i + 1;
        }
        None
    }

    /// Whether some live handshake or key-pair of `p` answers to local
    /// index `idx`.
    pub open spec fn spec_owns_index(p: Peer, idx: u32) -> bool {
        &&& p.valid
        &&& {
            ||| (p.handshake.valid && p.handshake.local_index == idx)
            ||| (p.curr_keypair.valid && p.curr_keypair.local_index == idx)
            ||| (p.prev_keypair.valid && p.prev_keypair.local_index == idx)
            ||| (p.next_keypair.valid && p.next_keypair.local_index == idx)
        }
    }

    /// The first peer slot answering to local index `idx`.
    pub fn find_peer_by_index(&self, idx: u32) -> (r: Option<usize>)
        ensures
            r matches Some(i) ==> {
                &&& i < self.peers@.len()
                &&& Self::spec_owns_index(self.peers@[i as int], idx)
                &&& forall|j: int|
                    0 <= j < i ==> !Self::spec_owns_index(#[trigger] self.peers@[j], idx)
            },
            r is None ==> forall|j: int|
                0 <= j < self.peers@.len() ==> !Self::spec_owns_index(
                    #[trigger] self.peers@[j],
                    idx,
                ),
    {
        let n = self.peers.len();
        let mut i: usize = 0;
        while i < n
            invariant
                0 <= i <= n == self.peers@.len(),
                forall|j: int|
                    0 <= j < i ==> !Self::spec_owns_index(#[trigger] self.peers@[j], idx),
            decreases n - i,
        {
            let p = &self.peers[i];
            if p.valid {
                if (p.handshake.valid && p.handshake.local_index == idx) || (p.curr_keypair.valid
                    && p.curr_keypair.local_index == idx) || (p.prev_keypair.valid
                    && p.prev_keypair.local_index == idx) || (p.next_keypair.valid
                    && p.next_keypair.local_index == idx) {
                    return Some(i);
                }
            }
            i = i + 1;
        }
        None
    }
}

/// The inner source address of a decrypted IP payload: the four source
/// bytes of an IPv4 header, or the sixteen of an IPv6 header, by the
/// version nibble; anything else carries no address.
pub open spec fn spec_inner_source(payload: Seq<u8>) -> Option<Seq<u8>> {
    if payload.len() >= 20 && payload[0] / 16 == 4 {
        Some(payload.subrange(12, 16))
    } else if payload.len() >= 40 && payload[0] / 16 == 6 {
        Some(payload.subrange(8, 24))
    } else {
        None
    }
}

/// Extracts the source address of a decrypted IP payload, for the host
/// to hold against the owning peer's allowed ranges before delivery.
pub fn inner_source_addr(payload: &[u8]) -> (r: Option<Vec<u8>>)
    ensures
        r is Some <==> spec_inner_source(payload@) is Some,
        r matches Some(a) ==> spec_inner_source(payload@) matches Some(s) && a@ == s,
{
    if payload.len() >= 20 && payload[0] / 16 == 4 {
        Some(crate::byteops::sub_bytes(payload, 12, 16))
    } else if payload.len() >= 40 && payload[0] / 16 == 6 {
        Some(crate::byteops::sub_bytes(payload, 8, 24))
    } else {
        None
    }
}

/// Writes mac1 (and mac2, when a cookie is in hand) into an encoded
/// handshake message: mac1 keyed by the receiver's mac1 label key over
/// everything before it, mac2 keyed by the cookie over everything before
/// it (mac1 included); without a cookie the mac2 field stays zero.
pub fn attach_handshake_macs(
    bytes: &mut Vec<u8>,
    mac1_label_key: &Vec<u8>,
    cookie_set: bool,
    cookie: &Vec<u8>,
    cover1: usize,
    cover2: usize,
) -> (mac1: Vec<u8>)
    requires
        old(bytes)@.len() == cover2 + 16,
        cover1 + 16 == cover2,
        mac1_label_key@.len() == 32,
        cookie_set ==> cookie@.len() == 16,
    ensures
        final(bytes)@.len() == old(bytes)@.len(),
        final(bytes)@.subrange(0, cover1 as int) == old(bytes)@.subrange(0, cover1 as int),
        final(bytes)@.subrange(cover1 as int, cover2 as int) == spec_msg_mac(
            mac1_label_key@,
            old(bytes)@,
            cover1 as int,
        ),
        mac1@ == spec_msg_mac(mac1_label_key@, old(bytes)@, cover1 as int),
        cookie_set ==> final(bytes)@.skip(cover2 as int) == spec_msg_mac(
            cookie@,
            final(bytes)@,
            cover2 as int,
        ),
        !cookie_set ==> final(bytes)@.skip(cover2 as int) == old(bytes)@.skip(cover2 as int),
{
    let m1 = compute_msg_mac(mac1_label_key.as_slice(), bytes.as_slice(), cover1);
    write_at(bytes, cover1, m1.as_slice());
    proof {
        assert(bytes@.subrange(0, cover1 as int) =~= old(bytes)@.subrange(0, cover1 as int));
        assert(bytes@.subrange(cover1 as int, cover2 as int) =~= m1@);
        assert(bytes@.skip(cover2 as int) =~= old(bytes)@.skip(cover2 as int));
    }
    if cookie_set {
        let ghost mid = bytes@;
        let m2 = compute_msg_mac(cookie.as_slice(), bytes.as_slice(), cover2);
        write_at(bytes, cover2, m2.as_slice());
        proof {
            assert(bytes@.subrange(0, cover1 as int) =~= mid.subrange(0, cover1 as int));
            assert(bytes@.subrange(cover1 as int, cover2 as int) =~= mid.subrange(
                cover1 as int,
                cover2 as int,
            ));
            assert(bytes@.skip(cover2 as int) =~= m2@);
            assert(bytes@.subrange(0, cover2 as int) =~= mid.subrange(0, cover2 as int));
        }
    }
    m1
}

// ---------------------------------------------------------------------
// Outbound handshakes.
// ---------------------------------------------------------------------

impl Device {
    /// Starts a handshake with peer `i`: builds the initiation with a
    /// fresh local index, attaches mac1 (and mac2 when a fresh cookie is
    /// in hand), and records the transcript and the mac1 that a cookie
    /// reply would be bound to.
    pub fn begin_handshake(
        &mut self,
        i: usize,
        timestamp: &Vec<u8>,
        eph_secret: &Vec<u8>,
        now: u64,
    ) -> (r: Result<Vec<u8>, WgError>)
        requires
            old(self).wf(),
            i < old(self).peers@.len(),
            timestamp@.len() == 12,
            eph_secret@.len() == 32,
            old(self).next_index < 0xFFFF_FFFFu32,
        ensures
            final(self).wf(),
            r is Ok <==> (old(self).peers@[i as int].valid && old(self).peers@[i as int].active),
            r matches Err(e) ==> e == WgError::UnknownPeer && *final(self) == *old(self),
            r matches Ok(d) ==> {
                &&& d@.len() == MSG_INITIATION_LEN
                &&& crate::message::spec_parseable(d@)
                &&& d@.subrange(116, 132) == spec_msg_mac(
                    spec_mac1_key(old(self).peers@[i as int].public_key@),
                    d@,
                    116,
                )
                &&& final(self).peers@[i as int].handshake.valid
                &&& final(self).peers@[i as int].handshake.initiator
                &&& final(self).peers@[i as int].handshake.local_index == old(self).next_index
                &&& final(self).peers@[i as int].handshake_mac1_valid
                &&& final(self).peers@[i as int].handshake_mac1@ == d@.subrange(116, 132)
                &&& final(self).peers@[i as int].last_initiation_tx == now
                &&& final(self).next_index == old(self).next_index + 1
            },
    {
        if !self.peers[i].valid || !self.peers[i].active {
            return Err(WgError::UnknownPeer);
        }
        let private_key = bytes_of(self.private_key.as_slice());
        let public_key = bytes_of(self.public_key.as_slice());
        let peer_static = bytes_of(self.peers[i].public_key.as_slice());
        let idx = self.next_index;
        self.next_index = idx + 1;
        let (hs, init_msg) = create_initiation(
            &private_key,
            &public_key,
            &peer_static,
            timestamp,
            eph_secret,
            idx,
        );
        let m = Message::HandshakeInitiation(init_msg);
        proof {
            lemma_serialize_len(m);
        }
        let mut bytes = encode_to_vec(&m);
        let ghost pre = bytes@;
        let cookie_fresh = self.peers[i].cookie_set && now >= self.peers[i].cookie_birth && now
            - self.peers[i].cookie_birth < COOKIE_SECRET_MAX_AGE;
        let peer_mac1_label = bytes_of(self.peers[i].label_mac1_key.as_slice());
        let peer_cookie = bytes_of(self.peers[i].cookie.as_slice());
        let mac1 = attach_handshake_macs(
            &mut bytes,
            &peer_mac1_label,
            cookie_fresh,
            &peer_cookie,
            MSG_INITIATION_MAC1_COVER,
            MSG_INITIATION_MAC2_COVER,
        );
        proof {
            lemma_parseable_prefix(pre, bytes@, 116);
            assert(bytes@.subrange(0, 116) =~= pre.subrange(0, 116));
            assert(spec_msg_mac(peer_mac1_label@, bytes@, 116) == spec_msg_mac(
                peer_mac1_label@,
                pre,
                116,
            ));
        }
        let p = &mut self.peers[i];
        p.handshake = hs;
        p.handshake_mac1 = mac1;
        p.handshake_mac1_valid = true;
        p.last_initiation_tx = now;
        proof {
            let i = i as int;
            assert(Self::spec_peer_indices_below(old(self).peers@[i], old(self).next_index));
            assert(Self::spec_peer_indices_distinct(old(self).peers@[i]));
            assert forall|idx: u32| #[trigger] Self::spec_owns_index(self.peers@[i], idx)
                implies Self::spec_owns_index(old(self).peers@[i], idx) || (old(self).next_index
                <= idx < self.next_index) by {}
            assert(Self::spec_peer_indices_below(self.peers@[i], self.next_index));
            assert(Self::spec_peer_indices_distinct(self.peers@[i]));
            Self::lemma_index_invariants_update(
                old(self).peers@,
                self.peers@,
                i,
                old(self).next_index,
                self.next_index,
            );
        }
        Ok(bytes)
    }

    // -----------------------------------------------------------------
    // Inbound handshake messages.
    // -----------------------------------------------------------------

    /// The responder path for a received HandshakeInitiation. The mac1
    /// is checked before anything is decrypted; a throttled source
    /// without a valid mac2 gets a stateless CookieReply; otherwise the
    /// transcript is consumed, the sender looked up by its decrypted
    /// static key, its timestamp checked, the HandshakeResponse built,
    /// and the responder's key-pair installed in one round trip.
    pub fn handle_initiation(
        &mut self,
        msg: &HandshakeInitiation,
        msg_bytes: &[u8],
        source: &[u8],
        resp_eph_secret: &Vec<u8>,
        reply_nonce: &Vec<u8>,
        now: u64,
    ) -> (r: Result<Vec<u8>, WgError>)
        requires
            old(self).wf(),
            msg.wf(),
            msg_bytes@ == Message::HandshakeInitiation(*msg).spec_serialize(),
            resp_eph_secret@.len() == 32,
            reply_nonce@.len() == 24,
            old(self).next_index < 0xFFFF_FFFFu32,
        ensures
            final(self).wf(),
            msg.mac1@ != spec_msg_mac(old(self).label_mac1_key@, msg_bytes@, 116) ==> (r matches
                Err(e) && e == WgError::AuthenticationFailed),
            r matches Ok(d) ==> crate::message::spec_parseable(d@) && (d@.len() == MSG_RESPONSE_LEN
                || d@.len() == MSG_COOKIE_REPLY_LEN),
            (msg.mac1@ == spec_msg_mac(old(self).label_mac1_key@, msg_bytes@, 116) && !old(
                self,
            ).rate_limiter.spec_allows(source@, now) && msg.mac2@ != spec_msg_mac(
                spec_cookie_value(old(self).cookie_secret.secret@, source@),
                msg_bytes@,
                132,
            )) ==> (r matches Ok(d) && d@.len() == MSG_COOKIE_REPLY_LEN),
            forall|spub: Seq<u8>, ts: Seq<u8>, i: int|
                #![trigger crate::handshake::spec_initiation_opens(
                    old(self).private_key@,
                    old(self).public_key@,
                    msg.ephemeral@,
                    msg.enc_static@,
                    msg.enc_timestamp@,
                    spub,
                    ts,
                ), old(self).peers@[i]]
                (msg.mac1@ == spec_msg_mac(old(self).label_mac1_key@, msg_bytes@, 116) && (old(
                    self,
                ).rate_limiter.spec_allows(source@, now) || msg.mac2@ == spec_msg_mac(
                    spec_cookie_value(old(self).cookie_secret.secret@, source@),
                    msg_bytes@,
                    132,
                )) && crate::handshake::spec_initiation_opens(
                    old(self).private_key@,
                    old(self).public_key@,
                    msg.ephemeral@,
                    msg.enc_static@,
                    msg.enc_timestamp@,
                    spub,
                    ts,
                ) && spub != crate::byteops::spec_zero_bytes(32) && 0 <= i < old(
                    self,
                ).peers@.len() && old(self).peers@[i].valid && old(self).peers@[i].public_key@
                    == spub && (forall|j: int|
                    0 <= j < i ==> !(old(self).peers@[j].valid && old(self).peers@[j].public_key@
                        == spub)) && old(self).peers@[i].active && crate::byteops::spec_lex_lt(
                    old(self).peers@[i].greatest_timestamp@,
                    ts,
                )) ==> (r matches Ok(d) && d@.len() == MSG_RESPONSE_LEN && {
                    let ckf = spec_final_ck(
                        crate::handshake::spec_responder_ck_after_init(
                            old(self).private_key@,
                            msg.ephemeral@,
                            spub,
                        ),
                        pub_key_of(resp_eph_secret@),
                        dh_of(resp_eph_secret@, msg.ephemeral@),
                        dh_of(resp_eph_secret@, spub),
                        old(self).peers@[i].preshared_key@,
                    );
                    let cp = final(self).peers@[i].curr_keypair;
                    let np = final(self).peers@[i].next_keypair;
                    &&& final(self).peers@[i].greatest_timestamp@ == ts
                    &&& final(self).peers@[i].last_initiation_rx == now
                    &&& {
                        ||| (cp.valid && !cp.initiator && cp.local_index == old(self).next_index
                            && cp.remote_index == msg.sender && cp.sending_key@
                            == spec_key_to_initiator(ckf) && cp.receiving_key@
                            == spec_key_to_responder(ckf))
                        ||| (np.valid && !np.initiator && np.local_index == old(self).next_index
                            && np.remote_index == msg.sender && np.sending_key@
                            == spec_key_to_initiator(ckf) && np.receiving_key@
                            == spec_key_to_responder(ckf))
                    }
                }),
            r matches Ok(d) ==> d@.len() == MSG_COOKIE_REPLY_LEN ==> {
                &&& d@.subrange(8, 32) == reply_nonce@
                &&& d@.skip(32) == crate::crypto::xchacha_seal_of(
                    old(self).label_cookie_key@,
                    reply_nonce@,
                    msg.mac1@,
                    spec_cookie_value(old(self).cookie_secret.secret@, source@),
                )
            },
            r matches Err(e) ==> (e == WgError::AuthenticationFailed || e == WgError::UnknownPeer
                || e == WgError::ReplayedOrInvalid),
    {
        proof {
            lemma_serialize_len(Message::HandshakeInitiation(*msg));
        }
        if !verify_msg_mac(
            self.label_mac1_key.as_slice(),
            msg_bytes,
            MSG_INITIATION_MAC1_COVER,
            msg.mac1.as_slice(),
        ) {
            return Err(WgError::AuthenticationFailed);
        }
        let allowed = self.rate_limiter.check(source, now);
        if !allowed {
            let cookie = cookie_value(&self.cookie_secret, source);
            let mac2_ok = verify_msg_mac(
                cookie.as_slice(),
                msg_bytes,
                MSG_INITIATION_MAC2_COVER,
                msg.mac2.as_slice(),
            );
            if !mac2_ok {
                let reply = create_cookie_reply(
                    &self.label_cookie_key,
                    &self.cookie_secret,
                    source,
                    msg.sender,
                    reply_nonce,
                    &msg.mac1,
                );
                let rm = Message::CookieReply(reply);
                proof {
                    lemma_serialize_len(rm);
                }
                let out = encode_to_vec(&rm);
                proof {
                    assert(out@.subrange(8, 32) =~= rm.spec_serialize().subrange(8, 32));
                    assert(out@.subrange(8, 32) =~= reply_nonce@);
                    assert(out@.skip(32) =~= rm.spec_serialize().skip(32));
                }
                return Ok(out);
            }
        }
        let private_key = bytes_of(self.private_key.as_slice());
        let public_key = bytes_of(self.public_key.as_slice());
        let consumed = match consume_initiation(&private_key, &public_key, msg) {
            Ok(t) => t,
            Err(e) => {
                return Err(e);
            },
        };
        let (hs, initiator_static, ts) = consumed;
        let zero = zero_vec(32);
        if bytes_eq(initiator_static.as_slice(), zero.as_slice()) {
            return Err(WgError::UnknownPeer);
        }
        let pi = match self.find_peer_by_pubkey(initiator_static.as_slice()) {
            Some(j) => j,
            None => {
                return Err(WgError::UnknownPeer);
            },
        };
        if !self.peers[pi].active {
            return Err(WgError::UnknownPeer);
        }
        if !self.peers[pi].timestamp_is_newer(ts.as_slice()) {
            return Err(WgError::ReplayedOrInvalid);
        }
        let idx = self.next_index;
        self.next_index = idx + 1;
        let peer_psk = bytes_of(self.peers[pi].preshared_key.as_slice());
        let (resp, send_key, recv_key) = create_response(
            &hs,
            &initiator_static,
            &peer_psk,
            resp_eph_secret,
            idx,
        );
        let rm = Message::HandshakeResponse(resp);
        proof {
            lemma_serialize_len(rm);
        }
        let mut bytes = encode_to_vec(&rm);
        let ghost pre = bytes@;
        let cookie_fresh = self.peers[pi].cookie_set && now >= self.peers[pi].cookie_birth && now
            - self.peers[pi].cookie_birth < COOKIE_SECRET_MAX_AGE;
        let peer_mac1_label = bytes_of(self.peers[pi].label_mac1_key.as_slice());
        let peer_cookie = bytes_of(self.peers[pi].cookie.as_slice());
        let _mac1 = attach_handshake_macs(
            &mut bytes,
            &peer_mac1_label,
            cookie_fresh,
            &peer_cookie,
            MSG_RESPONSE_MAC1_COVER,
            MSG_RESPONSE_MAC2_COVER,
        );
        proof {
            lemma_parseable_prefix(pre, bytes@, 44);
        }
        let kp = KeyPair::new(false, send_key, recv_key, idx, msg.sender, now);
        let public_key_copy = bytes_of(self.public_key.as_slice());
        let p = &mut self.peers[pi];
        p.greatest_timestamp = ts;
        p.last_initiation_rx = now;
        p.install_keypair(kp, &public_key_copy);
        proof {
            let i = pi as int;
            assert(Self::spec_peer_indices_below(old(self).peers@[i], old(self).next_index));
            assert(Self::spec_peer_indices_distinct(old(self).peers@[i]));
            assert forall|idx: u32| #[trigger] Self::spec_owns_index(self.peers@[i], idx)
                implies Self::spec_owns_index(old(self).peers@[i], idx) || (old(self).next_index
                <= idx < self.next_index) by {}
            assert(Self::spec_peer_indices_below(self.peers@[i], self.next_index));
            assert(Self::spec_peer_indices_distinct(self.peers@[i]));
            Self::lemma_index_invariants_update(
                old(self).peers@,
                self.peers@,
                i,
                old(self).next_index,
                self.next_index,
            );
        }
        Ok(bytes)
    }

    /// Whether `p` holds the live initiator-side transcript for `idx`.
    pub open spec fn spec_is_initiator_handshake(p: Peer, idx: u32) -> bool {
        &&& p.valid
        &&& p.handshake.valid
        &&& p.handshake.initiator
        &&& p.handshake.local_index == idx
    }

    /// The first peer slot holding the live initiator-side transcript
    /// that answers to local index `idx`.
    pub fn find_initiator_handshake(&self, idx: u32) -> (r: Option<usize>)
        ensures
            r matches Some(i) ==> {
                &&& i < self.peers@.len()
                &&& Self::spec_is_initiator_handshake(self.peers@[i as int], idx)
                &&& forall|j: int|
                    0 <= j < i ==> !Self::spec_is_initiator_handshake(
                        #[trigger] self.peers@[j],
                        idx,
                    )
            },
            r is None ==> forall|j: int|
                0 <= j < self.peers@.len() ==> !Self::spec_is_initiator_handshake(
                    #[trigger] self.peers@[j],
                    idx,
                ),
    {
        let n = self.peers.len();
        let mut i: usize = 0;
        while i < n
            invariant
                0 <= i <= n == self.peers@.len(),
                forall|j: int|
                    0 <= j < i ==> !Self::spec_is_initiator_handshake(
                        #[trigger] self.peers@[j],
                        idx,
                    ),
            decreases n - i,
        {
            let p = &self.peers[i];
            if p.valid && p.handshake.valid && p.handshake.initiator && p.handshake.local_index
                == idx {
                return Some(i);
            }
            i = i + 1;
        }
        None
    }

    /// The initiator's completion: a received HandshakeResponse is
    /// mac1-checked, routed to the pending transcript by its receiver
    /// index, and the derived key-pair installed; the transcript is
    /// consumed. An unexpected receiver index is reported so the host
    /// can drop the datagram silently.
    pub fn handle_response(
        &mut self,
        msg: &HandshakeResponse,
        msg_bytes: &[u8],
        now: u64,
    ) -> (r: Result<usize, WgError>)
        requires
            old(self).wf(),
            msg.wf(),
            msg_bytes@ == Message::HandshakeResponse(*msg).spec_serialize(),
        ensures
            final(self).wf(),
            msg.mac1@ != spec_msg_mac(old(self).label_mac1_key@, msg_bytes@, 44) ==> (r matches
                Err(e) && e == WgError::AuthenticationFailed),
            (msg.mac1@ == spec_msg_mac(old(self).label_mac1_key@, msg_bytes@, 44) && exists|j: int|
                0 <= j < old(self).peers@.len() && Self::spec_is_initiator_handshake(
                    #[trigger] old(self).peers@[j],
                    msg.receiver,
                )) ==> r is Ok,
            r matches Err(e) ==> (e == WgError::AuthenticationFailed || e == WgError::UnknownPeer)
                && *final(self) == *old(self),
            r matches Ok(i) ==> {
                let hs = old(self).peers@[i as int].handshake;
                let ckf = spec_final_ck(
                    hs.chaining_key@,
                    msg.ephemeral@,
                    dh_of(hs.ephemeral_private@, msg.ephemeral@),
                    dh_of(old(self).private_key@, msg.ephemeral@),
                    old(self).peers@[i as int].preshared_key@,
                );
                let cp = final(self).peers@[i as int].curr_keypair;
                let np = final(self).peers@[i as int].next_keypair;
                &&& 0 <= i < old(self).peers@.len()
                &&& hs.valid && hs.initiator && hs.local_index == msg.receiver
                &&& !final(self).peers@[i as int].handshake.valid
                &&& {
                    ||| (cp.valid && cp.initiator && cp.local_index == msg.receiver
                        && cp.remote_index == msg.sender && cp.sending_key@
                        == spec_key_to_responder(ckf) && cp.receiving_key@ == spec_key_to_initiator(
                        ckf,
                    ))
                    ||| (np.valid && np.initiator && np.local_index == msg.receiver
                        && np.remote_index == msg.sender && np.sending_key@
                        == spec_key_to_responder(ckf) && np.receiving_key@ == spec_key_to_initiator(
                        ckf,
                    ))
                }
            },
    {
        proof {
            lemma_serialize_len(Message::HandshakeResponse(*msg));
        }
        if !verify_msg_mac(
            self.label_mac1_key.as_slice(),
            msg_bytes,
            MSG_RESPONSE_MAC1_COVER,
            msg.mac1.as_slice(),
        ) {
            return Err(WgError::AuthenticationFailed);
        }
        let pi = match self.find_initiator_handshake(msg.receiver) {
            Some(j) => j,
            None => {
                return Err(WgError::UnknownPeer);
            },
        };
        let private_key = bytes_of(self.private_key.as_slice());
        let psk = bytes_of(self.peers[pi].preshared_key.as_slice());
        let public_key_copy = bytes_of(self.public_key.as_slice());
        let p = &mut self.peers[pi];
        let (send_key, recv_key) = consume_response(&p.handshake, &private_key, &psk, msg);
        let kp = KeyPair::new(true, send_key, recv_key, p.handshake.local_index, msg.sender, now);
        p.install_keypair(kp, &public_key_copy);
        p.handshake.valid = false;
        proof {
            let i = pi as int;
            assert(Self::spec_peer_indices_below(old(self).peers@[i], old(self).next_index));
            assert(Self::spec_peer_indices_distinct(old(self).peers@[i]));
            assert forall|idx: u32| #[trigger] Self::spec_owns_index(self.peers@[i], idx)
                implies Self::spec_owns_index(old(self).peers@[i], idx) || (old(self).next_index
                <= idx < self.next_index) by {}
            assert(Self::spec_peer_indices_below(self.peers@[i], self.next_index));
            assert(Self::spec_peer_indices_distinct(self.peers@[i]));
            Self::lemma_index_invariants_update(
                old(self).peers@,
                self.peers@,
                i,
                old(self).next_index,
                self.next_index,
            );
        }
        Ok(pi)
    }
}

// ---------------------------------------------------------------------
// Cookie replies, transport data, and the periodic tick.
// ---------------------------------------------------------------------

impl Device {
    /// Whether `p` awaits a CookieReply for `idx`: it holds a live
    /// transcript under that index and the mac1 of the initiation it
    /// sent (the value the reply is bound to).
    pub open spec fn spec_is_cookie_waiter(p: Peer, idx: u32) -> bool {
        &&& p.valid
        &&& p.handshake.valid
        &&& p.handshake.local_index == idx
        &&& p.handshake_mac1_valid
    }

    /// The first peer slot awaiting a CookieReply for `idx`.
    pub fn find_cookie_waiter(&self, idx: u32) -> (r: Option<usize>)
        ensures
            r matches Some(i) ==> {
                &&& i < self.peers@.len()
                &&& Self::spec_is_cookie_waiter(self.peers@[i as int], idx)
                &&& forall|j: int|
                    0 <= j < i ==> !Self::spec_is_cookie_waiter(#[trigger] self.peers@[j], idx)
            },
            r is None ==> forall|j: int|
                0 <= j < self.peers@.len() ==> !Self::spec_is_cookie_waiter(
                    #[trigger] self.peers@[j],
                    idx,
                ),
    {
        let n = self.peers.len();
        let mut i: usize = 0;
        while i < n
            invariant
                0 <= i <= n == self.peers@.len(),
                forall|j: int|
                    0 <= j < i ==> !Self::spec_is_cookie_waiter(#[trigger] self.peers@[j], idx),
            decreases n - i,
        {
            let p = &self.peers[i];
            if p.valid && p.handshake.valid && p.handshake.local_index == idx
                && p.handshake_mac1_valid {
                return Some(i);
            }
            i = i + 1;
        }
        None
    }

    /// Consumes a CookieReply for a pending handshake: the sealed cookie
    /// is opened under the peer's cookie label key, bound to the mac1 of
    /// the initiation we sent, and stored for the next retry's mac2.
    pub fn handle_cookie_reply(&mut self, msg: &CookieReply, now: u64) -> (r: Result<
        usize,
        WgError,
    >)
        requires
            old(self).wf(),
            msg.wf(),
        ensures
            final(self).wf(),
            r matches Err(e) ==> (e == WgError::UnknownPeer || e == WgError::AuthenticationFailed)
                && *final(self) == *old(self),
            forall|i: int, c: Seq<u8>|
                (0 <= i < old(self).peers@.len() && Self::spec_is_cookie_waiter(
                    old(self).peers@[i],
                    msg.receiver,
                ) && (forall|j: int|
                    0 <= j < i ==> !Self::spec_is_cookie_waiter(old(self).peers@[j], msg.receiver))
                    && msg.enc_cookie@ == #[trigger] crate::crypto::xchacha_seal_of(
                    old(self).peers@[i].label_cookie_key@,
                    msg.nonce@,
                    old(self).peers@[i].handshake_mac1@,
                    c,
                )) ==> r is Ok,
            r matches Ok(i) ==> {
                &&& 0 <= i < old(self).peers@.len()
                &&& old(self).peers@[i as int].handshake.valid
                &&& old(self).peers@[i as int].handshake.local_index == msg.receiver
                &&& final(self).peers@[i as int].cookie_set
                &&& final(self).peers@[i as int].cookie_birth == now
                &&& msg.enc_cookie@ == crate::crypto::xchacha_seal_of(
                    old(self).peers@[i as int].label_cookie_key@,
                    msg.nonce@,
                    old(self).peers@[i as int].handshake_mac1@,
                    final(self).peers@[i as int].cookie@,
                )
            },
    {
        let pi = match self.find_cookie_waiter(msg.receiver) {
            Some(j) => j,
            None => {
                return Err(WgError::UnknownPeer);
            },
        };
        let label = bytes_of(self.peers[pi].label_cookie_key.as_slice());
        let mac1 = bytes_of(self.peers[pi].handshake_mac1.as_slice());
        match crate::cookie::consume_cookie_reply(&label, &mac1, msg) {
            Some(c) => {
                let p = &mut self.peers[pi];
                p.cookie = c;
                p.cookie_set = true;
                p.cookie_birth = now;
        proof {
            let i = pi as int;
            assert(Self::spec_peer_indices_below(old(self).peers@[i], old(self).next_index));
            assert(Self::spec_peer_indices_distinct(old(self).peers@[i]));
            assert forall|idx: u32| #[trigger] Self::spec_owns_index(self.peers@[i], idx)
                implies Self::spec_owns_index(old(self).peers@[i], idx) || (old(self).next_index
                <= idx < self.next_index) by {}
            assert(Self::spec_peer_indices_below(self.peers@[i], self.next_index));
            assert(Self::spec_peer_indices_distinct(self.peers@[i]));
            Self::lemma_index_invariants_update(
                old(self).peers@,
                self.peers@,
                i,
                old(self).next_index,
                self.next_index,
            );
        }
                Ok(pi)
            },
            None => Err(WgError::AuthenticationFailed),
        }
    }

    /// Whether a key-pair slot answers to `idx` and opens `enc` at
    /// `counter` to `plain`.
    pub open spec fn spec_slot_opens(
        kp: KeyPair,
        idx: u32,
        counter: u64,
        enc: Seq<u8>,
        plain: Seq<u8>,
    ) -> bool {
        &&& kp.valid
        &&& kp.receiving_valid
        &&& kp.local_index == idx
        &&& enc == chacha_seal_of(
            kp.receiving_key@,
            spec_counter_nonce(counter),
            Seq::<u8>::empty(),
            plain,
        )
    }

    /// The key-pair slot of `p` that an inbound packet for `idx` is
    /// routed to: the current generation first, then the previous, then
    /// the staged one.
    pub open spec fn spec_routed_slot(p: Peer, idx: u32) -> KeyPair {
        if p.curr_keypair.valid && p.curr_keypair.local_index == idx {
            p.curr_keypair
        } else if p.prev_keypair.valid && p.prev_keypair.local_index == idx {
            p.prev_keypair
        } else {
            p.next_keypair
        }
    }

    /// Routes an inbound TransportData to the key-pair its receiver
    /// index names, screens the counter against that key-pair's replay
    /// window, and opens the payload.
    pub fn handle_transport(&mut self, msg: &TransportData, now: u64) -> (r: Result<
        (usize, Vec<u8>),
        WgError,
    >)
        requires
            old(self).wf(),
            msg.wf(),
        ensures
            final(self).wf(),
            r matches Err(e) ==> (e == WgError::UnknownPeer || e == WgError::ReplayedOrInvalid
                || e == WgError::AuthenticationFailed),
            forall|i: int, p: Seq<u8>|
                #![trigger chacha_seal_of(
                    Self::spec_routed_slot(old(self).peers@[i], msg.receiver).receiving_key@,
                    spec_counter_nonce(msg.counter),
                    Seq::<u8>::empty(),
                    p,
                )]
                (0 <= i < old(self).peers@.len() && Self::spec_owns_index(
                    old(self).peers@[i],
                    msg.receiver,
                ) && (forall|j: int|
                    0 <= j < i ==> !Self::spec_owns_index(old(self).peers@[j], msg.receiver)) && ({
                    let kp = Self::spec_routed_slot(old(self).peers@[i], msg.receiver);
                    &&& kp.valid
                    &&& kp.local_index == msg.receiver
                    &&& kp.receiving_valid
                    &&& kp.replay@.accepts(msg.counter)
                    &&& msg.enc_packet@ == chacha_seal_of(
                        kp.receiving_key@,
                        spec_counter_nonce(msg.counter),
                        Seq::<u8>::empty(),
                        p,
                    )
                })) ==> r is Ok,
            r matches Ok(t) ==> {
                &&& 0 <= t.0 < old(self).peers@.len()
                &&& {
                    ||| Self::spec_slot_opens(
                        old(self).peers@[t.0 as int].curr_keypair,
                        msg.receiver,
                        msg.counter,
                        msg.enc_packet@,
                        t.1@,
                    )
                    ||| Self::spec_slot_opens(
                        old(self).peers@[t.0 as int].prev_keypair,
                        msg.receiver,
                        msg.counter,
                        msg.enc_packet@,
                        t.1@,
                    )
                    ||| Self::spec_slot_opens(
                        old(self).peers@[t.0 as int].next_keypair,
                        msg.receiver,
                        msg.counter,
                        msg.enc_packet@,
                        t.1@,
                    )
                }
                &&& final(self).peers@[t.0 as int].last_rx == now
            },
    {
        let pi = match self.find_peer_by_index(msg.receiver) {
            Some(j) => j,
            None => {
                return Err(WgError::UnknownPeer);
            },
        };
        let p = &mut self.peers[pi];
        if p.curr_keypair.valid && p.curr_keypair.local_index == msg.receiver {
            let plain = match p.curr_keypair.decrypt(msg.counter, msg.enc_packet.as_slice()) {
                Ok(pt) => pt,
                Err(e) => {
                    return Err(e);
                },
            };
            p.last_rx = now;
        proof {
            let i = pi as int;
            assert(Self::spec_peer_indices_below(old(self).peers@[i], old(self).next_index));
            assert(Self::spec_peer_indices_distinct(old(self).peers@[i]));
            assert forall|idx: u32| #[trigger] Self::spec_owns_index(self.peers@[i], idx)
                implies Self::spec_owns_index(old(self).peers@[i], idx) || (old(self).next_index
                <= idx < self.next_index) by {}
            assert(Self::spec_peer_indices_below(self.peers@[i], self.next_index));
            assert(Self::spec_peer_indices_distinct(self.peers@[i]));
            Self::lemma_index_invariants_update(
                old(self).peers@,
                self.peers@,
                i,
                old(self).next_index,
                self.next_index,
            );
        }
            return Ok((pi, plain));
        }
        if p.prev_keypair.valid && p.prev_keypair.local_index == msg.receiver {
            let plain = match p.prev_keypair.decrypt(msg.counter, msg.enc_packet.as_slice()) {
                Ok(pt) => pt,
                Err(e) => {
                    return Err(e);
                },
            };
            p.last_rx = now;
        proof {
            let i = pi as int;
            assert(Self::spec_peer_indices_below(old(self).peers@[i], old(self).next_index));
            assert(Self::spec_peer_indices_distinct(old(self).peers@[i]));
            assert forall|idx: u32| #[trigger] Self::spec_owns_index(self.peers@[i], idx)
                implies Self::spec_owns_index(old(self).peers@[i], idx) || (old(self).next_index
                <= idx < self.next_index) by {}
            assert(Self::spec_peer_indices_below(self.peers@[i], self.next_index));
            assert(Self::spec_peer_indices_distinct(self.peers@[i]));
            Self::lemma_index_invariants_update(
                old(self).peers@,
                self.peers@,
                i,
                old(self).next_index,
                self.next_index,
            );
        }
            return Ok((pi, plain));
        }
        if p.next_keypair.valid && p.next_keypair.local_index == msg.receiver {
            let plain = match p.next_keypair.decrypt(msg.counter, msg.enc_packet.as_slice()) {
                Ok(pt) => pt,
                Err(e) => {
                    return Err(e);
                },
            };
            p.last_rx = now;
        proof {
            let i = pi as int;
            assert(Self::spec_peer_indices_below(old(self).peers@[i], old(self).next_index));
            assert(Self::spec_peer_indices_distinct(old(self).peers@[i]));
            assert forall|idx: u32| #[trigger] Self::spec_owns_index(self.peers@[i], idx)
                implies Self::spec_owns_index(old(self).peers@[i], idx) || (old(self).next_index
                <= idx < self.next_index) by {}
            assert(Self::spec_peer_indices_below(self.peers@[i], self.next_index));
            assert(Self::spec_peer_indices_distinct(self.peers@[i]));
            Self::lemma_index_invariants_update(
                old(self).peers@,
                self.peers@,
                i,
                old(self).next_index,
                self.next_index,
            );
        }
            return Ok((pi, plain));
        }
        Err(WgError::UnknownPeer)
    }

    /// Seals an outbound payload for peer `i` on its current key-pair
    /// and frames it as TransportData. A send past the counter ceiling,
    /// or without a usable sending key, reports the rekey-required state
    /// and flags the peer for a fresh handshake instead of wrapping.
    pub fn send_transport(&mut self, i: usize, payload: &[u8], now: u64) -> (r: Result<
        Vec<u8>,
        WgError,
    >)
        requires
            old(self).wf(),
            i < old(self).peers@.len(),
            payload@.len() < 0x4000_0000,
        ensures
            final(self).wf(),
            r is Ok <==> {
                let kp = old(self).peers@[i as int].curr_keypair;
                old(self).peers@[i as int].valid && kp.valid && kp.sending_valid
                    && kp.send_counter < crate::REJECT_AFTER_MESSAGES
            },
            r matches Ok(d) ==> {
                let kp = old(self).peers@[i as int].curr_keypair;
                &&& crate::message::spec_parseable(d@)
                &&& d@.len() == 32 + payload@.len()
                &&& d@.skip(16) == chacha_seal_of(
                    kp.sending_key@,
                    spec_counter_nonce(kp.send_counter),
                    Seq::<u8>::empty(),
                    payload@,
                )
                &&& final(self).peers@[i as int].curr_keypair.send_counter == kp.send_counter + 1
                &&& final(self).peers@[i as int].last_tx == now
            },
            r matches Err(e) ==> {
                &&& (!old(self).peers@[i as int].valid ==> e == WgError::UnknownPeer)
                &&& (old(self).peers@[i as int].valid ==> e == WgError::RekeyRequired
                    && final(self).peers@[i as int].send_handshake)
            },
    {
        if !self.peers[i].valid {
            return Err(WgError::UnknownPeer);
        }
        let p = &mut self.peers[i];
        match p.curr_keypair.encrypt(payload) {
            Ok(td) => {
                p.last_tx = now;
                let m = Message::TransportData(td);
                proof {
                    lemma_serialize_len(m);
                }
                let out = encode_to_vec(&m);
                proof {
                    assert(out@.skip(16) =~= m.spec_serialize().skip(16));
                }
        proof {
            let i = i as int;
            assert(Self::spec_peer_indices_below(old(self).peers@[i], old(self).next_index));
            assert(Self::spec_peer_indices_distinct(old(self).peers@[i]));
            assert forall|idx: u32| #[trigger] Self::spec_owns_index(self.peers@[i], idx)
                implies Self::spec_owns_index(old(self).peers@[i], idx) || (old(self).next_index
                <= idx < self.next_index) by {}
            assert(Self::spec_peer_indices_below(self.peers@[i], self.next_index));
            assert(Self::spec_peer_indices_distinct(self.peers@[i]));
            Self::lemma_index_invariants_update(
                old(self).peers@,
                self.peers@,
                i,
                old(self).next_index,
                self.next_index,
            );
        }
                Ok(out)
            },
            Err(e) => {
                p.send_handshake = true;
        proof {
            let i = i as int;
            assert(Self::spec_peer_indices_below(old(self).peers@[i], old(self).next_index));
            assert(Self::spec_peer_indices_distinct(old(self).peers@[i]));
            assert forall|idx: u32| #[trigger] Self::spec_owns_index(self.peers@[i], idx)
                implies Self::spec_owns_index(old(self).peers@[i], idx) || (old(self).next_index
                <= idx < self.next_index) by {}
            assert(Self::spec_peer_indices_below(self.peers@[i], self.next_index));
            assert(Self::spec_peer_indices_distinct(self.peers@[i]));
            Self::lemma_index_invariants_update(
                old(self).peers@,
                self.peers@,
                i,
                old(self).next_index,
                self.next_index,
            );
        }
                Err(e)
            },
        }
    }

    /// One periodic evaluation of peer `i`'s timers; see the peer-level
    /// tick for the conditions and the idempotence law.
    pub fn tick_peer(&mut self, i: usize, now: u64) -> (r: PeerAction)
        requires
            old(self).wf(),
            i < old(self).peers@.len(),
        ensures
            final(self).wf(),
            r == ({
                let e = old(self).peers@[i as int].spec_after_expiry(now);
                if e.spec_wants_initiation(now) {
                    PeerAction::SendInitiation
                } else if e.spec_wants_keepalive(now) {
                    PeerAction::SendKeepalive
                } else {
                    PeerAction::Idle
                }
            }),
            r == PeerAction::SendInitiation ==> final(self).peers@[i as int] == (Peer {
                last_initiation_tx: now,
                send_handshake: false,
                ..old(self).peers@[i as int].spec_after_expiry(now)
            }),
            r == PeerAction::SendKeepalive ==> final(self).peers@[i as int] == (Peer {
                last_tx: now,
                ..old(self).peers@[i as int].spec_after_expiry(now)
            }),
            r == PeerAction::Idle ==> final(self).peers@[i as int] == old(
                self,
            ).peers@[i as int].spec_after_expiry(now),
            forall|j: int|
                0 <= j < old(self).peers@.len() && j != i ==> final(self).peers@[j] == old(self).peers@[j],
            *final(self) == (Device { peers: final(self).peers, ..*old(self) }),
    {
        let p = &mut self.peers[i];
        let r = p.tick(now);
        proof {
            let i = i as int;
            assert(Self::spec_peer_indices_below(old(self).peers@[i], old(self).next_index));
            assert(Self::spec_peer_indices_distinct(old(self).peers@[i]));
            assert forall|idx: u32| #[trigger] Self::spec_owns_index(self.peers@[i], idx)
                implies Self::spec_owns_index(old(self).peers@[i], idx) || (old(self).next_index
                <= idx < self.next_index) by {}
            assert(Self::spec_peer_indices_below(self.peers@[i], self.next_index));
            assert(Self::spec_peer_indices_distinct(self.peers@[i]));
            Self::lemma_index_invariants_update(
                old(self).peers@,
                self.peers@,
                i,
                old(self).next_index,
                self.next_index,
            );
        }
        r
    }
}

} // verus!
