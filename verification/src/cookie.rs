//! Cookie/MAC engine: mac1 over every handshake message, the rotating
//! device cookie secret, stateless cookie replies, mac2 under a received
//! cookie, and the per-source initiation rate limiter.

use vstd::prelude::*;
use crate::byteops::bytes_of;
use crate::crypto::{blake2s_mac, blake2s_mac_of, xchacha_open, xchacha_seal, xchacha_seal_of};
use crate::message::CookieReply;
use crate::{COOKIE_SECRET_MAX_AGE, MAX_INITIATIONS_PER_SECOND};

verus! {

// ---------------------------------------------------------------------
// mac1 / mac2.
// ---------------------------------------------------------------------

/// mac1 (or mac2) of an encoded handshake message: the keyed MAC of its
/// first `cover` bytes.
pub open spec fn spec_msg_mac(key: Seq<u8>, msg: Seq<u8>, cover: int) -> Seq<u8> {
    blake2s_mac_of(key, msg.subrange(0, cover))
}

/// Computes the MAC of the first `cover` bytes of `msg` under `key`
/// (the mac1 label key, or a 16-byte cookie for mac2).
pub fn compute_msg_mac(key: &[u8], msg: &[u8], cover: usize) -> (r: Vec<u8>)
    requires
        1 <= key@.len() <= 32,
        cover <= msg@.len(),
    ensures
        r@ == spec_msg_mac(key@, msg@, cover as int),
        r@.len() == 16,
{
    let prefix = crate::byteops::sub_bytes(msg, 0, cover);
    blake2s_mac(key, prefix.as_slice())
}

/// Recomputes the MAC of the first `cover` bytes of `msg` and compares
/// it with the received `mac`, in constant time. A message whose mac is
/// not the genuine one is rejected here, before any decryption.
pub fn verify_msg_mac(key: &[u8], msg: &[u8], cover: usize, mac: &[u8]) -> (r: bool)
    requires
        1 <= key@.len() <= 32,
        cover <= msg@.len(),
    ensures
        r == (mac@ == spec_msg_mac(key@, msg@, cover as int)),
{
    let expected = compute_msg_mac(key, msg, cover);
    crate::byteops::bytes_eq(mac, expected.as_slice())
}

// ---------------------------------------------------------------------
// The rotating cookie secret and the cookie itself.
// ---------------------------------------------------------------------

/// The device-wide cookie secret: a 32-byte random value replaced
/// wholesale at least once per maximum age, with a generation counter
/// so states of different generations never verify each other's mac2.
pub struct CookieSecret {
    /// The current secret (32 bytes).
    pub secret: Vec<u8>,
    /// When the current secret was installed, in seconds.
    pub birth: u64,
    /// How many times the secret has been replaced.
    pub generation: u64,
}

impl CookieSecret {
    pub open spec fn wf(&self) -> bool {
        self.secret@.len() == 32
    }

    /// Installs the first secret.
    pub fn new(initial_secret: Vec<u8>, now: u64) -> (r: CookieSecret)
        requires
            initial_secret@.len() == 32,
        ensures
            r.wf(),
            r.secret@ == initial_secret@,
            r.birth == now,
            r.generation == 0,
    {
        CookieSecret { secret: initial_secret, birth: now, generation: 0 }
    }

    /// Replaces the secret with `fresh` once it has reached its maximum
    /// age; returns whether it rotated.
    pub fn maybe_rotate(&mut self, fresh: &Vec<u8>, now: u64) -> (r: bool)
        requires
            old(self).wf(),
            fresh@.len() == 32,
            old(self).generation < 0xFFFF_FFFF_FFFF_FFFFu64,
        ensures
            final(self).wf(),
            r == (now >= old(self).birth + COOKIE_SECRET_MAX_AGE),
            r ==> final(self).secret@ == fresh@,
            r ==> final(self).birth == now,
            r ==> final(self).generation == old(self).generation + 1,
            !r ==> final(self).secret@ == old(self).secret@,
            !r ==> final(self).birth == old(self).birth,
            !r ==> final(self).generation == old(self).generation,
    {
        if now >= self.birth && now - self.birth >= COOKIE_SECRET_MAX_AGE {
            self.secret = bytes_of(fresh.as_slice());
            self.birth = now;
            self.generation = self.generation + 1;
            true
        } else {
            false
        }
    }
}

/// The 16-byte cookie the device hands a source: the keyed MAC of the
/// source's address bytes under the current secret.
pub open spec fn spec_cookie_value(secret: Seq<u8>, source: Seq<u8>) -> Seq<u8> {
    blake2s_mac_of(secret, source)
}

/// Computes the cookie owed to `source` under the current secret.
pub fn cookie_value(secret: &CookieSecret, source: &[u8]) -> (r: Vec<u8>)
    requires
        secret.wf(),
    ensures
        r@ == spec_cookie_value(secret.secret@, source@),
        r@.len() == 16,
{
    blake2s_mac(secret.secret.as_slice(), source)
}

// ---------------------------------------------------------------------
// Cookie replies.
// ---------------------------------------------------------------------

/// Builds the stateless CookieReply for a throttled initiation: the
/// cookie owed to `source`, sealed under the replying device's own
/// cookie label key (the one derived from its public key, which the
/// initiator also holds) with a fresh 24-byte nonce, bound to the
/// initiation's mac1.
pub fn create_cookie_reply(
    peer_cookie_key: &Vec<u8>,
    secret: &CookieSecret,
    source: &[u8],
    receiver: u32,
    nonce: &Vec<u8>,
    msg_mac1: &Vec<u8>,
) -> (r: CookieReply)
    requires
        peer_cookie_key@.len() == 32,
        secret.wf(),
        nonce@.len() == 24,
    ensures
        r.wf(),
        r.receiver == receiver,
        r.nonce@ == nonce@,
        r.enc_cookie@ == xchacha_seal_of(
            peer_cookie_key@,
            nonce@,
            msg_mac1@,
            spec_cookie_value(secret.secret@, source@),
        ),
{
    let cookie = cookie_value(secret, source);
    let enc_cookie = xchacha_seal(
        peer_cookie_key.as_slice(),
        nonce.as_slice(),
        msg_mac1.as_slice(),
        cookie.as_slice(),
    );
    CookieReply { receiver, nonce: bytes_of(nonce.as_slice()), enc_cookie }
}

/// Opens a received CookieReply with the cookie label key derived from
/// the sender's public key, bound to the mac1 of the initiation we last
/// sent. Succeeds exactly on genuine sealings, returning the 16-byte
/// cookie to use as the next mac2 key.
pub fn consume_cookie_reply(
    peer_cookie_key: &Vec<u8>,
    last_mac1: &Vec<u8>,
    reply: &CookieReply,
) -> (r: Option<Vec<u8>>)
    requires
        peer_cookie_key@.len() == 32,
        reply.wf(),
    ensures
        r matches Some(c) ==> {
            &&& reply.enc_cookie@ == xchacha_seal_of(peer_cookie_key@, reply.nonce@, last_mac1@, c@)
            &&& c@.len() == 16
        },
        forall|c: Seq<u8>|
            reply.enc_cookie@ == xchacha_seal_of(peer_cookie_key@, reply.nonce@, last_mac1@, c)
                ==> r is Some && r.unwrap()@ == c,
{
    xchacha_open(
        peer_cookie_key.as_slice(),
        reply.nonce.as_slice(),
        last_mac1.as_slice(),
        reply.enc_cookie.as_slice(),
    )
}

// ---------------------------------------------------------------------
// Per-source rate limiting.
// ---------------------------------------------------------------------

/// One tracked source: its address bytes, the one-second window it was
/// last seen in, and how many initiations it has offered in that window.
pub struct SourceRate {
    pub addr: Vec<u8>,
    pub window: u64,
    pub count: u64,
}

/// Fixed-window counter of handshake initiations per source address,
/// over a bounded table.
pub struct RateLimiter {
    pub entries: Vec<SourceRate>,
    pub capacity: usize,
}

/// The position of `addr` in `entries`, or the sequence's length.
pub open spec fn spec_rate_index(entries: Seq<SourceRate>, addr: Seq<u8>) -> int
    decreases entries.len(),
{
    if entries.len() == 0 {
        0
    } else if entries[0].addr@ == addr {
        0
    } else {
        1 + spec_rate_index(entries.skip(1), addr)
    }
}

proof fn lemma_rate_index_bounds(entries: Seq<SourceRate>, addr: Seq<u8>)
    ensures
        0 <= spec_rate_index(entries, addr) <= entries.len(),
        spec_rate_index(entries, addr) < entries.len()
            ==> entries[spec_rate_index(entries, addr)].addr@ == addr,
        forall|j: int|
            0 <= j < spec_rate_index(entries, addr) ==> entries[j].addr@ != addr,
    decreases entries.len(),
{
    if entries.len() > 0 && entries[0].addr@ != addr {
        lemma_rate_index_bounds(entries.skip(1), addr);
        assert forall|j: int| 0 <= j < spec_rate_index(entries, addr) implies entries[j].addr@
            != addr by {
            if j > 0 {
                assert(entries.skip(1)[j - 1] == entries[j]);
            }
        }
    }
}

impl RateLimiter {
    pub open spec fn wf(&self) -> bool {
        self.entries@.len() <= self.capacity
    }

    /// How many initiations `addr` has offered in the window `now`.
    pub open spec fn spec_current_count(&self, addr: Seq<u8>, now: u64) -> u64 {
        let i = spec_rate_index(self.entries@, addr);
        if i < self.entries@.len() && self.entries@[i].window == now {
            self.entries@[i].count
        } else {
            0
        }
    }

    /// Whether a new source can be tracked at time `now`: a free slot,
    /// or a slot whose window has lapsed.
    pub open spec fn spec_can_track(&self, now: u64) -> bool {
        ||| self.entries@.len() < self.capacity
        ||| exists|j: int| 0 <= j < self.entries@.len() && self.entries@[j].window != now
    }

    /// Whether one more initiation from `addr` in the second `now`
    /// stays within the per-source threshold and can be accounted for.
    pub open spec fn spec_allows(&self, addr: Seq<u8>, now: u64) -> bool {
        &&& self.spec_current_count(addr, now) < MAX_INITIATIONS_PER_SECOND
        &&& {
            ||| spec_rate_index(self.entries@, addr) < self.entries@.len()
            ||| self.spec_can_track(now)
        }
    }

    /// An empty table for up to `capacity` concurrently tracked sources.
    pub fn new(capacity: usize) -> (r: RateLimiter)
        ensures
            r.wf(),
            r.entries@.len() == 0,
            r.capacity == capacity,
    {
        RateLimiter { entries: Vec::new(), capacity }
    }

    /// Counts one initiation offered by `addr` in the second `now` and
    /// says whether it is within the per-source threshold. An untracked
    /// source with no slot free or reclaimable is refused outright.
    #[verifier::loop_isolation(false)]
    pub fn check(&mut self, addr: &[u8], now: u64) -> (r: bool)
        requires
            old(self).wf(),
        ensures
            final(self).wf(),
            r == old(self).spec_allows(addr@, now),
            r ==> final(self).spec_current_count(addr@, now) == old(self).spec_current_count(
                addr@,
                now,
            ) + 1,
    {
        proof {
            lemma_rate_index_bounds(self.entries@, addr@);
        }
        let ghost orig = self.entries@;
        let ghost cap = self.capacity;
        let ghost gi = spec_rate_index(self.entries@, addr@);
        proof {
            assert(orig.len() <= cap);
        }
        let mut i: usize = 0;
        let n = self.entries.len();
        while i < n
            invariant
                0 <= i <= n == self.entries@.len(),
                self.entries@ == orig,
                self.capacity == cap,
                orig.len() <= cap,
                gi == spec_rate_index(orig, addr@),
                forall|j: int| 0 <= j < i ==> self.entries@[j].addr@ != addr@,
                0 <= gi <= self.entries@.len(),
                gi < self.entries@.len() ==> self.entries@[gi].addr@ == addr@,
                forall|j: int| 0 <= j < gi ==> self.entries@[j].addr@ != addr@,
            decreases n - i,
        {
            if crate::byteops::bytes_eq(self.entries[i].addr.as_slice(), addr) {
                proof {
                    assert(i == gi);
                }
                let window = self.entries[i].window;
                let count = self.entries[i].count;
                let new_count: u64 = if window == now {
                    if count < MAX_INITIATIONS_PER_SECOND {
                        count + 1
                    } else {
                        count
                    }
                } else {
                    1
                };
                let allowed = if window == now {
                    count < MAX_INITIATIONS_PER_SECOND
                } else {
                    true
                };
                let entry = SourceRate { addr: bytes_of(addr), window: now, count: new_count };
                self.entries.set(i, entry);
                proof {
                    lemma_rate_index_stable(orig, self.entries@, addr@, gi);
                }
                return allowed;
            }
            i = i + 1;
        }
        // Untracked source: take a free slot, else reclaim a lapsed one.
        proof {
            assert(gi == self.entries@.len());
        }
        let entry = SourceRate { addr: bytes_of(addr), window: now, count: 1 };
        if self.entries.len() < self.capacity {
            self.entries.push(entry);
            proof {
                lemma_rate_index_append(orig, self.entries@, addr@);
            }
            return true;
        }
        let mut k: usize = 0;
        while k < n
            invariant
                0 <= k <= n == self.entries@.len(),
                self.entries@ == orig,
                self.capacity == cap,
                orig.len() <= cap,
                gi == spec_rate_index(orig, addr@),
                gi == orig.len(),
                forall|j: int| 0 <= j < k ==> self.entries@[j].window == now,
            decreases n - k,
        {
            if self.entries[k].window != now {
                let entry2 = SourceRate { addr: bytes_of(addr), window: now, count: 1 };
                self.entries.set(k, entry2);
                proof {
                    lemma_rate_index_replace(orig, self.entries@, addr@, k as int);
                }
                return true;
            }
            k = k + 1;
        }
        proof {
            assert(!old(self).spec_can_track(now));
        }
        false
    }
}

/// Updating the entry at the index of `addr` leaves that index the
/// first match.
proof fn lemma_rate_index_stable(
    before: Seq<SourceRate>,
    after: Seq<SourceRate>,
    addr: Seq<u8>,
    i: int,
)
    requires
        0 <= i < before.len(),
        after.len() == before.len(),
        i == spec_rate_index(before, addr),
        after[i].addr@ == addr,
        forall|j: int| 0 <= j < after.len() && j != i ==> after[j] == before[j],
    ensures
        spec_rate_index(after, addr) == i,
    decreases before.len(),
{
    lemma_rate_index_bounds(before, addr);
    lemma_rate_index_bounds(after, addr);
    if i > 0 {
        assert(after[0] == before[0]);
        assert(after.skip(1) =~= after.subrange(1, after.len() as int));
        lemma_rate_index_stable(before.skip(1), after.skip(1), addr, i - 1);
    }
}

/// Appending a matching entry to a table without one puts the index on
/// the appended slot.
proof fn lemma_rate_index_append(before: Seq<SourceRate>, after: Seq<SourceRate>, addr: Seq<u8>)
    requires
        spec_rate_index(before, addr) == before.len(),
        after.len() == before.len() + 1,
        forall|j: int| 0 <= j < before.len() ==> after[j] == before[j],
        after[before.len() as int].addr@ == addr,
    ensures
        spec_rate_index(after, addr) == before.len(),
    decreases before.len(),
{
    lemma_rate_index_bounds(before, addr);
    if before.len() > 0 {
        lemma_rate_index_append(before.skip(1), after.skip(1), addr);
    }
}

/// Replacing a non-matching entry before any match with a matching one
/// moves the index onto it.
proof fn lemma_rate_index_replace(
    before: Seq<SourceRate>,
    after: Seq<SourceRate>,
    addr: Seq<u8>,
    k: int,
)
    requires
        0 <= k < before.len(),
        spec_rate_index(before, addr) == before.len(),
        after.len() == before.len(),
        forall|j: int| 0 <= j < after.len() && j != k ==> after[j] == before[j],
        after[k].addr@ == addr,
    ensures
        spec_rate_index(after, addr) == k,
    decreases before.len(),
{
    lemma_rate_index_bounds(before, addr);
    if k > 0 {
        assert(after[0] == before[0]);
        lemma_rate_index_replace(before.skip(1), after.skip(1), addr, k - 1);
    }
}

} // verus!
