//! The Noise_IKpsk2 handshake transcript.
//!
//! Both roles drive the same mixing sequence over the chaining key and
//! the transcript hash. The sequence is specified once, over the outputs
//! of the Diffie-Hellman exchanges, so the initiator's and the
//! responder's contracts instantiate one predicate from their two sides;
//! the key-agreement law then follows from the exchange's symmetry.

use vstd::prelude::*;
use crate::byteops::{bytes_of, spec_zero_bytes, zero_vec};
use crate::crypto::{
    blake2s_hash, blake2s_of, chacha_open, chacha_seal, chacha_seal_of, construction,
    construction_bytes, counter_nonce, dh_of, identifier, identifier_bytes, kdf1, kdf2, kdf3,
    pub_key_of, spec_counter_nonce, spec_kdf1, spec_kdf2_second, x25519_dh, x25519_public_key,
};
use crate::message::{HandshakeInitiation, HandshakeResponse};
use crate::WgError;

verus! {

// ---------------------------------------------------------------------
// The specification of the transcript.
// ---------------------------------------------------------------------

/// The initial chaining key: BLAKE2s of the construction string.
pub open spec fn spec_initial_ck() -> Seq<u8> {
    blake2s_of(construction())
}

/// The initial transcript hash: BLAKE2s of the initial chaining key
/// followed by the identifier string.
pub open spec fn spec_initial_hash() -> Seq<u8> {
    blake2s_of(spec_initial_ck() + identifier())
}

/// Mixing a value into the transcript hash.
pub open spec fn spec_mix_hash(h: Seq<u8>, data: Seq<u8>) -> Seq<u8> {
    blake2s_of(h + data)
}

/// The whole first message's cryptography, tied together: given the two
/// static public keys, the initiator's ephemeral public key, the two
/// message-1 shared secrets and the cleartext timestamp, it fixes the
/// sealed fields of the message and the chaining key and hash both
/// sides hold afterwards.
pub open spec fn spec_initiation_transcript(
    initiator_static_pub: Seq<u8>,
    responder_static_pub: Seq<u8>,
    eph_pub: Seq<u8>,
    dh_eph_static: Seq<u8>,
    dh_static_static: Seq<u8>,
    timestamp: Seq<u8>,
    enc_static: Seq<u8>,
    enc_timestamp: Seq<u8>,
    ck: Seq<u8>,
    h: Seq<u8>,
) -> bool {
    let h0 = spec_mix_hash(spec_initial_hash(), responder_static_pub);
    let ck1 = spec_kdf1(spec_initial_ck(), eph_pub);
    let h1 = spec_mix_hash(h0, eph_pub);
    let ck2 = spec_kdf1(ck1, dh_eph_static);
    let k1 = spec_kdf2_second(ck1, dh_eph_static);
    let h2 = spec_mix_hash(h1, enc_static);
    let ck3 = spec_kdf1(ck2, dh_static_static);
    let k2 = spec_kdf2_second(ck2, dh_static_static);
    &&& enc_static == chacha_seal_of(k1, spec_counter_nonce(0), h1, initiator_static_pub)
    &&& enc_timestamp == chacha_seal_of(k2, spec_counter_nonce(0), h2, timestamp)
    &&& ck == ck3
    &&& h == spec_mix_hash(h2, enc_timestamp)
}

/// Whether the sealed fields of a first message open, under the
/// responder's secrets, to the initiator static key `spub` and the
/// timestamp `ts`: each field is the genuine sealing of that value under
/// the keys of the re-derived mixing sequence.
pub open spec fn spec_initiation_opens(
    static_priv: Seq<u8>,
    static_pub: Seq<u8>,
    eph_pub: Seq<u8>,
    enc_static: Seq<u8>,
    enc_timestamp: Seq<u8>,
    spub: Seq<u8>,
    ts: Seq<u8>,
) -> bool {
    let h0 = spec_mix_hash(spec_initial_hash(), static_pub);
    let ck1 = spec_kdf1(spec_initial_ck(), eph_pub);
    let h1 = spec_mix_hash(h0, eph_pub);
    let dh_es = dh_of(static_priv, eph_pub);
    let k1 = spec_kdf2_second(ck1, dh_es);
    let h2 = spec_mix_hash(h1, enc_static);
    let ck2 = spec_kdf1(ck1, dh_es);
    let k2 = spec_kdf2_second(ck2, dh_of(static_priv, spub));
    &&& enc_static == chacha_seal_of(k1, spec_counter_nonce(0), h1, spub)
    &&& enc_timestamp == chacha_seal_of(k2, spec_counter_nonce(0), h2, ts)
}

/// The chaining key both sides hold after the first message, written
/// from the responder's secrets and the message's cleartext fields.
pub open spec fn spec_responder_ck_after_init(
    static_priv: Seq<u8>,
    initiator_eph_pub: Seq<u8>,
    initiator_static_pub: Seq<u8>,
) -> Seq<u8> {
    spec_kdf1(
        spec_kdf1(
            spec_kdf1(spec_initial_ck(), initiator_eph_pub),
            dh_of(static_priv, initiator_eph_pub),
        ),
        dh_of(static_priv, initiator_static_pub),
    )
}

/// The chaining key after the response's mixing steps: the responder's
/// ephemeral public key, the two message-2 shared secrets, then the
/// preshared key as the final psk2 step.
pub open spec fn spec_final_ck(
    ck_after_init: Seq<u8>,
    responder_eph_pub: Seq<u8>,
    dh_eph_eph: Seq<u8>,
    dh_static_eph: Seq<u8>,
    psk: Seq<u8>,
) -> Seq<u8> {
    spec_kdf1(
        spec_kdf1(spec_kdf1(spec_kdf1(ck_after_init, responder_eph_pub), dh_eph_eph), dh_static_eph),
        psk,
    )
}

/// The transport key carrying initiator-to-responder traffic.
pub open spec fn spec_key_to_responder(final_ck: Seq<u8>) -> Seq<u8> {
    spec_kdf1(final_ck, Seq::<u8>::empty())
}

/// The transport key carrying responder-to-initiator traffic.
pub open spec fn spec_key_to_initiator(final_ck: Seq<u8>) -> Seq<u8> {
    spec_kdf2_second(final_ck, Seq::<u8>::empty())
}

/// The initiator's final chaining key, written from its own secrets and
/// the public keys it saw.
pub open spec fn spec_initiator_final_ck(
    static_priv: Seq<u8>,
    eph_priv: Seq<u8>,
    responder_static_pub: Seq<u8>,
    responder_eph_pub: Seq<u8>,
    psk: Seq<u8>,
) -> Seq<u8> {
    let ck3 = spec_kdf1(
        spec_kdf1(spec_kdf1(spec_initial_ck(), pub_key_of(eph_priv)), dh_of(eph_priv, responder_static_pub)),
        dh_of(static_priv, responder_static_pub),
    );
    spec_final_ck(
        ck3,
        responder_eph_pub,
        dh_of(eph_priv, responder_eph_pub),
        dh_of(static_priv, responder_eph_pub),
        psk,
    )
}

/// The responder's final chaining key, written from its own secrets and
/// the public keys it saw.
pub open spec fn spec_responder_final_ck(
    static_priv: Seq<u8>,
    eph_priv: Seq<u8>,
    initiator_static_pub: Seq<u8>,
    initiator_eph_pub: Seq<u8>,
    psk: Seq<u8>,
) -> Seq<u8> {
    let ck3 = spec_kdf1(
        spec_kdf1(spec_kdf1(spec_initial_ck(), initiator_eph_pub), dh_of(static_priv, initiator_eph_pub)),
        dh_of(static_priv, initiator_static_pub),
    );
    spec_final_ck(
        ck3,
        pub_key_of(eph_priv),
        dh_of(eph_priv, initiator_eph_pub),
        dh_of(eph_priv, initiator_static_pub),
        psk,
    )
}

/// Law: for a handshake pair with matching static and preshared keys,
/// the two sides derive the same final chaining key, hence each side's
/// sending key is the other's receiving key.
///
/// The hypotheses are the agreement guarantees of the Diffie-Hellman
/// exchange — that either holder of one key pair and the other's public
/// key computes the same shared secret — which is what the key exchange
/// provides and the verifier cannot know of an uninterpreted function.
pub proof fn lemma_handshake_key_agreement(
    initiator_static: Seq<u8>,
    initiator_eph: Seq<u8>,
    responder_static: Seq<u8>,
    responder_eph: Seq<u8>,
    psk: Seq<u8>,
)
    requires
        dh_of(initiator_eph, pub_key_of(responder_static)) == dh_of(
            responder_static,
            pub_key_of(initiator_eph),
        ),
        dh_of(initiator_static, pub_key_of(responder_static)) == dh_of(
            responder_static,
            pub_key_of(initiator_static),
        ),
        dh_of(initiator_eph, pub_key_of(responder_eph)) == dh_of(
            responder_eph,
            pub_key_of(initiator_eph),
        ),
        dh_of(initiator_static, pub_key_of(responder_eph)) == dh_of(
            responder_eph,
            pub_key_of(initiator_static),
        ),
    ensures
        spec_initiator_final_ck(
            initiator_static,
            initiator_eph,
            pub_key_of(responder_static),
            pub_key_of(responder_eph),
            psk,
        ) == spec_responder_final_ck(
            responder_static,
            responder_eph,
            pub_key_of(initiator_static),
            pub_key_of(initiator_eph),
            psk,
        ),
{
}

// ---------------------------------------------------------------------
// The per-peer handshake state.
// ---------------------------------------------------------------------

/// Transient per-peer cryptographic transcript, consumed once the
/// derived key-pair is installed or the attempt times out.
pub struct Handshake {
    /// Whether this transcript is live.
    pub valid: bool,
    /// Whether this side sent the initiation.
    pub initiator: bool,
    /// Index assigned on this side, routing the peer's replies back.
    pub local_index: u32,
    /// Index the peer assigned on its side.
    pub remote_index: u32,
    /// This side's ephemeral secret (32 bytes).
    pub ephemeral_private: Vec<u8>,
    /// The peer's ephemeral public key (32 bytes), once seen.
    pub remote_ephemeral: Vec<u8>,
    /// The running transcript hash (32 bytes).
    pub hash: Vec<u8>,
    /// The running chaining key (32 bytes).
    pub chaining_key: Vec<u8>,
}

impl Handshake {
    pub open spec fn wf(&self) -> bool {
        self.valid ==> {
            &&& self.ephemeral_private@.len() == 32
            &&& self.hash@.len() == 32
            &&& self.chaining_key@.len() == 32
        }
    }

    /// An empty, invalid transcript.
    pub fn empty() -> (r: Handshake)
        ensures
            r.wf(),
            !r.valid,
    {
        Handshake {
            valid: false,
            initiator: false,
            local_index: 0,
            remote_index: 0,
            ephemeral_private: Vec::new(),
            remote_ephemeral: Vec::new(),
            hash: Vec::new(),
            chaining_key: Vec::new(),
        }
    }
}

/// Computes the initial chaining key and transcript hash.
fn initial_ck_and_hash() -> (r: (Vec<u8>, Vec<u8>))
    ensures
        r.0@ == spec_initial_ck(),
        r.1@ == spec_initial_hash(),
        r.0@.len() == 32,
        r.1@.len() == 32,
{
    let c = construction_bytes();
    let ck = blake2s_hash(c.as_slice());
    let mut buf = bytes_of(ck.as_slice());
    let ident = identifier_bytes();
    crate::byteops::append_bytes(&mut buf, ident.as_slice());
    let h = blake2s_hash(buf.as_slice());
    (ck, h)
}

/// Mixes `data` into the transcript hash `h`.
fn mix_hash(h: &Vec<u8>, data: &[u8]) -> (r: Vec<u8>)
    ensures
        r@ == spec_mix_hash(h@, data@),
        r@.len() == 32,
{
    let mut buf = bytes_of(h.as_slice());
    crate::byteops::append_bytes(&mut buf, data);
    blake2s_hash(buf.as_slice())
}

// ---------------------------------------------------------------------
// Initiator: first message.
// ---------------------------------------------------------------------

/// Builds a HandshakeInitiation (macs left zero for the cookie engine)
/// and the transcript to keep while the response is outstanding.
///
/// The caller provides its static key pair, the peer's static public
/// key, the current protocol timestamp and a fresh ephemeral secret; the
/// transcript and every sealed field are pinned by the transcript
/// predicate over this side's shared secrets.
pub fn create_initiation(
    static_private: &Vec<u8>,
    static_public: &Vec<u8>,
    peer_static_public: &Vec<u8>,
    timestamp: &Vec<u8>,
    eph_private: &Vec<u8>,
    local_index: u32,
) -> (r: (Handshake, HandshakeInitiation))
    requires
        static_private@.len() == 32,
        static_public@.len() == 32,
        peer_static_public@.len() == 32,
        timestamp@.len() == 12,
        eph_private@.len() == 32,
    ensures
        r.0.wf(),
        r.1.wf(),
        r.0.valid,
        r.0.initiator,
        r.0.local_index == local_index,
        r.0.ephemeral_private@ == eph_private@,
        r.1.sender == local_index,
        r.1.ephemeral@ == pub_key_of(eph_private@),
        r.1.mac1@ == spec_zero_bytes(16),
        r.1.mac2@ == spec_zero_bytes(16),
        spec_initiation_transcript(
            static_public@,
            peer_static_public@,
            pub_key_of(eph_private@),
            dh_of(eph_private@, peer_static_public@),
            dh_of(static_private@, peer_static_public@),
            timestamp@,
            r.1.enc_static@,
            r.1.enc_timestamp@,
            r.0.chaining_key@,
            r.0.hash@,
        ),
{
    let (ck0, hi) = initial_ck_and_hash();
    let h0 = mix_hash(&hi, peer_static_public.as_slice());
    let eph_pub = x25519_public_key(eph_private.as_slice());
    let ck1 = kdf1(ck0.as_slice(), eph_pub.as_slice());
    let h1 = mix_hash(&h0, eph_pub.as_slice());
    let dh_es = x25519_dh(eph_private.as_slice(), peer_static_public.as_slice());
    let (ck2, k1) = kdf2(ck1.as_slice(), dh_es.as_slice());
    let nonce0 = counter_nonce(0);
    let enc_static = chacha_seal(
        k1.as_slice(),
        nonce0.as_slice(),
        h1.as_slice(),
        static_public.as_slice(),
    );
    let h2 = mix_hash(&h1, enc_static.as_slice());
    let dh_ss = x25519_dh(static_private.as_slice(), peer_static_public.as_slice());
    let (ck3, k2) = kdf2(ck2.as_slice(), dh_ss.as_slice());
    let enc_timestamp = chacha_seal(
        k2.as_slice(),
        nonce0.as_slice(),
        h2.as_slice(),
        timestamp.as_slice(),
    );
    let h3 = mix_hash(&h2, enc_timestamp.as_slice());
    let hs = Handshake {
        valid: true,
        initiator: true,
        local_index,
        remote_index: 0,
        ephemeral_private: bytes_of(eph_private.as_slice()),
        remote_ephemeral: Vec::new(),
        hash: h3,
        chaining_key: ck3,
    };
    let msg = HandshakeInitiation {
        sender: local_index,
        ephemeral: eph_pub,
        enc_static,
        enc_timestamp,
        mac1: zero_vec(16),
        mac2: zero_vec(16),
    };
    (hs, msg)
}

// ---------------------------------------------------------------------
// Responder: consuming the first message.
// ---------------------------------------------------------------------

/// Re-derives the first message's mixing sequence with the local static
/// secret, opening the sealed static key and timestamp.
///
/// Succeeds exactly on messages whose sealed fields are genuine sealings
/// under this transcript's keys; on success the returned transcript,
/// decrypted initiator static key and timestamp satisfy the transcript
/// predicate on the responder's shared secrets. The caller still has to
/// check the decrypted static key against its peer table and the
/// timestamp against the peer's replay bound.
pub fn consume_initiation(
    static_private: &Vec<u8>,
    static_public: &Vec<u8>,
    msg: &HandshakeInitiation,
) -> (r: Result<(Handshake, Vec<u8>, Vec<u8>), WgError>)
    requires
        static_private@.len() == 32,
        static_public@.len() == 32,
        msg.wf(),
    ensures
        r matches Ok(t) ==> {
            &&& t.0.wf()
            &&& t.0.valid
            &&& !t.0.initiator
            &&& t.0.remote_index == msg.sender
            &&& t.0.remote_ephemeral@ == msg.ephemeral@
            &&& t.1@.len() == 32
            &&& t.2@.len() == 12
            &&& spec_initiation_transcript(
                t.1@,
                static_public@,
                msg.ephemeral@,
                dh_of(static_private@, msg.ephemeral@),
                dh_of(static_private@, t.1@),
                t.2@,
                msg.enc_static@,
                msg.enc_timestamp@,
                t.0.chaining_key@,
                t.0.hash@,
            )
        },
        r matches Err(e) ==> e == WgError::AuthenticationFailed,
        forall|spub: Seq<u8>, ts: Seq<u8>|
            #[trigger] spec_initiation_opens(
                static_private@,
                static_public@,
                msg.ephemeral@,
                msg.enc_static@,
                msg.enc_timestamp@,
                spub,
                ts,
            ) ==> (r matches Ok(t) && t.1@ == spub && t.2@ == ts),
{
    let (ck0, hi) = initial_ck_and_hash();
    let h0 = mix_hash(&hi, static_public.as_slice());
    let ck1 = kdf1(ck0.as_slice(), msg.ephemeral.as_slice());
    let h1 = mix_hash(&h0, msg.ephemeral.as_slice());
    let dh_es = x25519_dh(static_private.as_slice(), msg.ephemeral.as_slice());
    let (ck2, k1) = kdf2(ck1.as_slice(), dh_es.as_slice());
    let nonce0 = counter_nonce(0);
    let opened_static = chacha_open(
        k1.as_slice(),
        nonce0.as_slice(),
        h1.as_slice(),
        msg.enc_static.as_slice(),
    );
    let initiator_static = match opened_static {
        Some(p) => p,
        None => {
            return Err(WgError::AuthenticationFailed);
        },
    };
    let h2 = mix_hash(&h1, msg.enc_static.as_slice());
    let dh_ss = x25519_dh(static_private.as_slice(), initiator_static.as_slice());
    let (ck3, k2) = kdf2(ck2.as_slice(), dh_ss.as_slice());
    let opened_ts = chacha_open(
        k2.as_slice(),
        nonce0.as_slice(),
        h2.as_slice(),
        msg.enc_timestamp.as_slice(),
    );
    let timestamp = match opened_ts {
        Some(p) => p,
        None => {
            return Err(WgError::AuthenticationFailed);
        },
    };
    let h3 = mix_hash(&h2, msg.enc_timestamp.as_slice());
    let hs = Handshake {
        valid: true,
        initiator: false,
        local_index: 0,
        remote_index: msg.sender,
        ephemeral_private: zero_vec(32),
        remote_ephemeral: bytes_of(msg.ephemeral.as_slice()),
        hash: h3,
        chaining_key: ck3,
    };
    Ok((hs, initiator_static, timestamp))
}

// ---------------------------------------------------------------------
// Responder: second message and transport keys.
// ---------------------------------------------------------------------

/// Builds the HandshakeResponse (macs left zero) and derives the
/// transport keys on the responder's side; the responder is complete
/// after one round trip.
///
/// Returns the response message, the responder's sending key and its
/// receiving key, pinned to the final chaining key over this side's
/// shared secrets.
pub fn create_response(
    hs: &Handshake,
    initiator_static_public: &Vec<u8>,
    psk: &Vec<u8>,
    eph_private: &Vec<u8>,
    local_index: u32,
) -> (r: (HandshakeResponse, Vec<u8>, Vec<u8>))
    requires
        hs.wf(),
        hs.valid,
        !hs.initiator,
        hs.remote_ephemeral@.len() == 32,
        initiator_static_public@.len() == 32,
        psk@.len() == 32,
        eph_private@.len() == 32,
    ensures
        r.0.wf(),
        r.0.sender == local_index,
        r.0.receiver == hs.remote_index,
        r.0.ephemeral@ == pub_key_of(eph_private@),
        r.0.mac1@ == spec_zero_bytes(16),
        r.0.mac2@ == spec_zero_bytes(16),
        ({
            let ckf = spec_final_ck(
                hs.chaining_key@,
                pub_key_of(eph_private@),
                dh_of(eph_private@, hs.remote_ephemeral@),
                dh_of(eph_private@, initiator_static_public@),
                psk@,
            );
            &&& r.1@ == spec_key_to_initiator(ckf)
            &&& r.2@ == spec_key_to_responder(ckf)
            &&& r.1@.len() == 32
            &&& r.2@.len() == 32
        }),
{
    let eph_pub = x25519_public_key(eph_private.as_slice());
    let ck4 = kdf1(hs.chaining_key.as_slice(), eph_pub.as_slice());
    let dh_ee = x25519_dh(eph_private.as_slice(), hs.remote_ephemeral.as_slice());
    let ck5 = kdf1(ck4.as_slice(), dh_ee.as_slice());
    let dh_se = x25519_dh(eph_private.as_slice(), initiator_static_public.as_slice());
    let ck6 = kdf1(ck5.as_slice(), dh_se.as_slice());
    let (ck7, _tau, _k) = kdf3(ck6.as_slice(), psk.as_slice());
    let empty: Vec<u8> = Vec::new();
    proof {
        assert(empty@ =~= Seq::<u8>::empty());
    }
    let (to_responder, to_initiator) = kdf2(ck7.as_slice(), empty.as_slice());
    let msg = HandshakeResponse {
        sender: local_index,
        receiver: hs.remote_index,
        ephemeral: eph_pub,
        mac1: zero_vec(16),
        mac2: zero_vec(16),
    };
    (msg, to_initiator, to_responder)
}

// ---------------------------------------------------------------------
// Initiator: consuming the response.
// ---------------------------------------------------------------------

/// Finalizes key derivation on the initiator's side from a response
/// routed to this transcript.
///
/// Returns the initiator's sending key and receiving key, pinned to the
/// final chaining key over this side's shared secrets. The wire layout
/// carries no sealed field here, so validity rests on the message's
/// mac1, which the caller verifies before routing the response.
pub fn consume_response(
    hs: &Handshake,
    static_private: &Vec<u8>,
    psk: &Vec<u8>,
    msg: &HandshakeResponse,
) -> (r: (Vec<u8>, Vec<u8>))
    requires
        hs.wf(),
        hs.valid,
        hs.initiator,
        static_private@.len() == 32,
        psk@.len() == 32,
        msg.wf(),
    ensures
        ({
            let ckf = spec_final_ck(
                hs.chaining_key@,
                msg.ephemeral@,
                dh_of(hs.ephemeral_private@, msg.ephemeral@),
                dh_of(static_private@, msg.ephemeral@),
                psk@,
            );
            &&& r.0@ == spec_key_to_responder(ckf)
            &&& r.1@ == spec_key_to_initiator(ckf)
            &&& r.0@.len() == 32
            &&& r.1@.len() == 32
        }),
{
    let ck4 = kdf1(hs.chaining_key.as_slice(), msg.ephemeral.as_slice());
    let dh_ee = x25519_dh(hs.ephemeral_private.as_slice(), msg.ephemeral.as_slice());
    let ck5 = kdf1(ck4.as_slice(), dh_ee.as_slice());
    let dh_se = x25519_dh(static_private.as_slice(), msg.ephemeral.as_slice());
    let ck6 = kdf1(ck5.as_slice(), dh_se.as_slice());
    let (ck7, _tau, _k) = kdf3(ck6.as_slice(), psk.as_slice());
    let empty: Vec<u8> = Vec::new();
    proof {
        assert(empty@ =~= Seq::<u8>::empty());
    }
    let (to_responder, to_initiator) = kdf2(ck7.as_slice(), empty.as_slice());
    (to_responder, to_initiator)
}

} // verus!
