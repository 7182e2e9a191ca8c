//! Cryptographic primitives of the protocol suite.
//!
//! The outside calls (BLAKE2s, keyed BLAKE2s, X25519, ChaCha20-Poly1305 and
//! XChaCha20-Poly1305) stand behind trusted wrappers whose results carry
//! uninterpreted names; everything derived from them — HMAC, the Noise key
//! derivation chain, the mac1/cookie label keys and the AEAD nonce layout —
//! is verified code over those names.

use vstd::prelude::*;
use blake2::Digest;
use blake2::digest::Mac;
use chacha20poly1305::aead::{Aead, Payload};
use chacha20poly1305::{ChaCha20Poly1305, KeyInit, XChaCha20Poly1305};
use vstd::bytes::spec_u64_to_le_bytes;
use crate::byteops::{append_bytes, push_u64_le};

verus! {

// ---------------------------------------------------------------------
// Names for what the outside primitives return. Each is a function of its
// arguments alone; no trusted clause states their values on given inputs.
// ---------------------------------------------------------------------

/// The 32-byte BLAKE2s-256 digest of `data`.
pub uninterp spec fn blake2s_of(data: Seq<u8>) -> Seq<u8>;

/// The 16-byte keyed-BLAKE2s MAC of `data` under `key` (at most 32 bytes).
pub uninterp spec fn blake2s_mac_of(key: Seq<u8>, data: Seq<u8>) -> Seq<u8>;

/// The X25519 public key of the 32-byte `secret`.
pub uninterp spec fn pub_key_of(secret: Seq<u8>) -> Seq<u8>;

/// The X25519 shared secret of `secret` and the peer's `public` key.
pub uninterp spec fn dh_of(secret: Seq<u8>, public: Seq<u8>) -> Seq<u8>;

/// The ChaCha20-Poly1305 sealing (ciphertext plus 16-byte tag) of `plain`
/// under `key`, 12-byte `nonce` and associated data `aad`.
pub uninterp spec fn chacha_seal_of(key: Seq<u8>, nonce: Seq<u8>, aad: Seq<u8>, plain: Seq<u8>) -> Seq<u8>;

/// The XChaCha20-Poly1305 sealing of `plain` under `key`, 24-byte `nonce`
/// and associated data `aad`.
pub uninterp spec fn xchacha_seal_of(key: Seq<u8>, nonce: Seq<u8>, aad: Seq<u8>, plain: Seq<u8>) -> Seq<u8>;

// ---------------------------------------------------------------------
// Trusted wrappers.
// ---------------------------------------------------------------------

/// Relies on blake2::Blake2s256 (via the Digest trait): a 32-byte digest
/// that depends on the input bytes alone.
#[verifier::external_body]
pub fn blake2s_hash(data: &[u8]) -> (r: Vec<u8>)
    ensures
        r@ == blake2s_of(data@),
        r@.len() == 32,
{
    let mut h = blake2::Blake2s256::new();
    h.update(data);
    h.finalize().to_vec()
}

/// Relies on blake2::Blake2sMac<U16> (keyed BLAKE2s, via the Mac trait):
/// a 16-byte tag that depends on the key (at most 32 bytes) and the
/// input alone.
#[verifier::external_body]
pub fn blake2s_mac(key: &[u8], data: &[u8]) -> (r: Vec<u8>)
    requires
        key@.len() <= 32,
    ensures
        r@ == blake2s_mac_of(key@, data@),
        r@.len() == 16,
{
    let mut m = <blake2::Blake2sMac<blake2::digest::consts::U16> as Mac>::new_from_slice(key).unwrap();
    m.update(data);
    m.finalize().into_bytes().to_vec()
}

/// Relies on x25519_dalek::PublicKey::from(&StaticSecret): the public key
/// is a function of the 32 secret bytes alone.
#[verifier::external_body]
pub fn x25519_public_key(secret: &[u8]) -> (r: Vec<u8>)
    requires
        secret@.len() == 32,
    ensures
        r@ == pub_key_of(secret@),
        r@.len() == 32,
{
    let mut sk = [0u8; 32];
    sk.copy_from_slice(secret);
    let secret = x25519_dalek::StaticSecret::from(sk);
    let public = x25519_dalek::PublicKey::from(&secret);
    public.as_bytes().to_vec()
}

/// Relies on x25519_dalek::StaticSecret::diffie_hellman: the shared secret
/// is a function of the two keys alone, and both parties derive the same
/// value (Diffie-Hellman key agreement).
#[verifier::external_body]
pub fn x25519_dh(secret: &[u8], public: &[u8]) -> (r: Vec<u8>)
    requires
        secret@.len() == 32,
        public@.len() == 32,
    ensures
        r@ == dh_of(secret@, public@),
        r@.len() == 32,
        forall|other: Seq<u8>|
            public@ == pub_key_of(other) ==> r@ == dh_of(other, pub_key_of(secret@)),
{
    let mut sk = [0u8; 32];
    sk.copy_from_slice(secret);
    let mut pk = [0u8; 32];
    pk.copy_from_slice(public);
    let secret = x25519_dalek::StaticSecret::from(sk);
    let public = x25519_dalek::PublicKey::from(pk);
    secret.diffie_hellman(&public).as_bytes().to_vec()
}

/// Relies on chacha20poly1305::ChaCha20Poly1305::encrypt: the sealing is a
/// function of key, nonce, associated data and plaintext, and is the
/// plaintext's length plus the 16-byte tag.
#[verifier::external_body]
pub fn chacha_seal(key: &[u8], nonce: &[u8], aad: &[u8], plain: &[u8]) -> (r: Vec<u8>)
    requires
        key@.len() == 32,
        nonce@.len() == 12,
        plain@.len() < 0x4000_0000,
    ensures
        r@ == chacha_seal_of(key@, nonce@, aad@, plain@),
        r@.len() == plain@.len() + 16,
{
    let cipher = ChaCha20Poly1305::new(chacha20poly1305::Key::from_slice(key));
    let n = chacha20poly1305::Nonce::from_slice(nonce);
    cipher.encrypt(n, Payload { msg: plain, aad }).unwrap()
}

/// Relies on chacha20poly1305::ChaCha20Poly1305::decrypt: opening a value
/// that `encrypt` produced under the same key, nonce and associated data
/// returns the sealed plaintext; conversely, an opening succeeds only on
/// the value `encrypt` gives for its result (the cipher is deterministic
/// and decryption inverts it exactly).
#[verifier::external_body]
pub fn chacha_open(key: &[u8], nonce: &[u8], aad: &[u8], sealed: &[u8]) -> (r: Option<Vec<u8>>)
    requires
        key@.len() == 32,
        nonce@.len() == 12,
    ensures
        forall|plain: Seq<u8>|
            sealed@ == chacha_seal_of(key@, nonce@, aad@, plain)
                ==> r is Some && r.unwrap()@ == plain,
        r is Some ==> sealed@ == chacha_seal_of(key@, nonce@, aad@, r.unwrap()@),
        r is Some ==> r.unwrap()@.len() + 16 == sealed@.len(),
{
    let cipher = ChaCha20Poly1305::new(chacha20poly1305::Key::from_slice(key));
    let n = chacha20poly1305::Nonce::from_slice(nonce);
    cipher.decrypt(n, Payload { msg: sealed, aad }).ok()
}

/// Relies on chacha20poly1305::XChaCha20Poly1305::encrypt, as chacha_seal
/// does on ChaCha20Poly1305::encrypt, with a 24-byte nonce.
#[verifier::external_body]
pub fn xchacha_seal(key: &[u8], nonce: &[u8], aad: &[u8], plain: &[u8]) -> (r: Vec<u8>)
    requires
        key@.len() == 32,
        nonce@.len() == 24,
        plain@.len() < 0x4000_0000,
    ensures
        r@ == xchacha_seal_of(key@, nonce@, aad@, plain@),
        r@.len() == plain@.len() + 16,
{
    let cipher = XChaCha20Poly1305::new(chacha20poly1305::Key::from_slice(key));
    let n = chacha20poly1305::XNonce::from_slice(nonce);
    cipher.encrypt(n, Payload { msg: plain, aad }).unwrap()
}

/// Relies on chacha20poly1305::XChaCha20Poly1305::decrypt, as chacha_open
/// does on ChaCha20Poly1305::decrypt, with a 24-byte nonce.
#[verifier::external_body]
pub fn xchacha_open(key: &[u8], nonce: &[u8], aad: &[u8], sealed: &[u8]) -> (r: Option<Vec<u8>>)
    requires
        key@.len() == 32,
        nonce@.len() == 24,
    ensures
        forall|plain: Seq<u8>|
            sealed@ == xchacha_seal_of(key@, nonce@, aad@, plain)
                ==> r is Some && r.unwrap()@ == plain,
        r is Some ==> sealed@ == xchacha_seal_of(key@, nonce@, aad@, r.unwrap()@),
        r is Some ==> r.unwrap()@.len() + 16 == sealed@.len(),
{
    let cipher = XChaCha20Poly1305::new(chacha20poly1305::Key::from_slice(key));
    let n = chacha20poly1305::XNonce::from_slice(nonce);
    cipher.decrypt(n, Payload { msg: sealed, aad }).ok()
}

// ---------------------------------------------------------------------
// Protocol constants as byte sequences.
// ---------------------------------------------------------------------

/// The construction string naming the cryptographic suite,
/// "Noise_IKpsk2_25519_ChaChaPoly_BLAKE2s".
pub open spec fn construction() -> Seq<u8> {
    seq![
        78u8, 111u8, 105u8, 115u8, 101u8, 95u8, 73u8, 75u8, 112u8, 115u8, 107u8, 50u8, 95u8,
        50u8, 53u8, 53u8, 49u8, 57u8, 95u8, 67u8, 104u8, 97u8, 67u8, 104u8, 97u8, 80u8, 111u8,
        108u8, 121u8, 95u8, 66u8, 76u8, 65u8, 75u8, 69u8, 50u8, 115u8,
    ]
}

/// The protocol identifier string, "WireGuard v1 zx2c4 Jason@zx2c4.com".
pub open spec fn identifier() -> Seq<u8> {
    seq![
        87u8, 105u8, 114u8, 101u8, 71u8, 117u8, 97u8, 114u8, 100u8, 32u8, 118u8, 49u8, 32u8,
        122u8, 120u8, 50u8, 99u8, 52u8, 32u8, 74u8, 97u8, 115u8, 111u8, 110u8, 64u8, 122u8,
        120u8, 50u8, 99u8, 52u8, 46u8, 99u8, 111u8, 109u8,
    ]
}

/// The mac1 label, "mac1----".
pub open spec fn label_mac1() -> Seq<u8> {
    seq![109u8, 97u8, 99u8, 49u8, 45u8, 45u8, 45u8, 45u8]
}

/// The cookie label, "cookie--".
pub open spec fn label_cookie() -> Seq<u8> {
    seq![99u8, 111u8, 111u8, 107u8, 105u8, 101u8, 45u8, 45u8]
}

pub fn construction_bytes() -> (r: Vec<u8>)
    ensures
        r@ == construction(),
{
    let a: [u8; 37] = [
        78, 111, 105, 115, 101, 95, 73, 75, 112, 115, 107, 50, 95, 50, 53, 53, 49, 57, 95, 67,
        104, 97, 67, 104, 97, 80, 111, 108, 121, 95, 66, 76, 65, 75, 69, 50, 115,
    ];
    let r = crate::byteops::bytes_of(a.as_slice());
    proof {
        assert(r@ =~= construction());
    }
    r
}

pub fn identifier_bytes() -> (r: Vec<u8>)
    ensures
        r@ == identifier(),
{
    let a: [u8; 34] = [
        87, 105, 114, 101, 71, 117, 97, 114, 100, 32, 118, 49, 32, 122, 120, 50, 99, 52, 32, 74,
        97, 115, 111, 110, 64, 122, 120, 50, 99, 52, 46, 99, 111, 109,
    ];
    let r = crate::byteops::bytes_of(a.as_slice());
    proof {
        assert(r@ =~= identifier());
    }
    r
}

pub fn label_mac1_bytes() -> (r: Vec<u8>)
    ensures
        r@ == label_mac1(),
{
    let a: [u8; 8] = [109, 97, 99, 49, 45, 45, 45, 45];
    let r = crate::byteops::bytes_of(a.as_slice());
    proof {
        assert(r@ =~= label_mac1());
    }
    r
}

pub fn label_cookie_bytes() -> (r: Vec<u8>)
    ensures
        r@ == label_cookie(),
{
    let a: [u8; 8] = [99, 111, 111, 107, 105, 101, 45, 45];
    let r = crate::byteops::bytes_of(a.as_slice());
    proof {
        assert(r@ =~= label_cookie());
    }
    r
}

// ---------------------------------------------------------------------
// HMAC-BLAKE2s and the Noise key-derivation chain, verified over the
// digest name.
// ---------------------------------------------------------------------

/// A 64-byte block: the key (at most 64 bytes) xor-ed with `pad`,
/// right-filled with `pad`.
pub open spec fn spec_hmac_pad(key: Seq<u8>, pad: u8) -> Seq<u8> {
    Seq::new(64, |i: int| if i < key.len() { (key[i] ^ pad) as u8 } else { pad })
}

/// HMAC with BLAKE2s-256 as the underlying hash (64-byte block).
pub open spec fn spec_hmac(key: Seq<u8>, data: Seq<u8>) -> Seq<u8>
    recommends
        key.len() <= 64,
{
    blake2s_of(spec_hmac_pad(key, 0x5c) + blake2s_of(spec_hmac_pad(key, 0x36) + data))
}

fn hmac_pad(key: &[u8], pad: u8) -> (r: Vec<u8>)
    requires
        key@.len() <= 64,
    ensures
        r@ == spec_hmac_pad(key@, pad),
{
    let mut r: Vec<u8> = Vec::new();
    let mut i: usize = 0;
    while i < key.len()
        invariant
            0 <= i <= key@.len() <= 64,
            r@ == spec_hmac_pad(key@, pad).subrange(0, i as int),
        decreases key@.len() - i,
    {
        r.push(key[i] ^ pad);
        i = i + 1;
        proof {
            assert(r@ =~= spec_hmac_pad(key@, pad).subrange(0, i as int));
        }
    }
    while i < 64
        invariant
            key@.len() <= i <= 64,
            r@ == spec_hmac_pad(key@, pad).subrange(0, i as int),
        decreases 64 - i,
    {
        r.push(pad);
        i = i + 1;
        proof {
            assert(r@ =~= spec_hmac_pad(key@, pad).subrange(0, i as int));
        }
    }
    proof {
        assert(spec_hmac_pad(key@, pad).subrange(0, 64) =~= spec_hmac_pad(key@, pad));
    }
    r
}

/// HMAC-BLAKE2s of `data` under `key`.
pub fn hmac(key: &[u8], data: &[u8]) -> (r: Vec<u8>)
    requires
        key@.len() <= 64,
    ensures
        r@ == spec_hmac(key@, data@),
        r@.len() == 32,
{
    let mut inner = hmac_pad(key, 0x36);
    append_bytes(&mut inner, data);
    let inner_hash = blake2s_hash(inner.as_slice());
    let mut outer = hmac_pad(key, 0x5c);
    append_bytes(&mut outer, inner_hash.as_slice());
    blake2s_hash(outer.as_slice())
}

/// First output key of the Noise KDF chain seeded by `key` and `input`.
pub open spec fn spec_kdf1(key: Seq<u8>, input: Seq<u8>) -> Seq<u8> {
    spec_hmac(spec_hmac(key, input), seq![1u8])
}

/// Second output key of the Noise KDF chain.
pub open spec fn spec_kdf2_second(key: Seq<u8>, input: Seq<u8>) -> Seq<u8> {
    spec_hmac(spec_hmac(key, input), spec_kdf1(key, input) + seq![2u8])
}

/// Third output key of the Noise KDF chain.
pub open spec fn spec_kdf3_third(key: Seq<u8>, input: Seq<u8>) -> Seq<u8> {
    spec_hmac(spec_hmac(key, input), spec_kdf2_second(key, input) + seq![3u8])
}

/// One-output KDF: the next chaining key.
pub fn kdf1(key: &[u8], input: &[u8]) -> (r: Vec<u8>)
    requires
        key@.len() <= 64,
    ensures
        r@ == spec_kdf1(key@, input@),
        r@.len() == 32,
{
    let t0 = hmac(key, input);
    let mut one: Vec<u8> = Vec::new();
    one.push(1u8);
    proof {
        assert(one@ =~= seq![1u8]);
    }
    hmac(t0.as_slice(), one.as_slice())
}

/// Two-output KDF: the next chaining key and one derived key.
pub fn kdf2(key: &[u8], input: &[u8]) -> (r: (Vec<u8>, Vec<u8>))
    requires
        key@.len() <= 64,
    ensures
        r.0@ == spec_kdf1(key@, input@),
        r.1@ == spec_kdf2_second(key@, input@),
        r.0@.len() == 32,
        r.1@.len() == 32,
{
    let t0 = hmac(key, input);
    let mut one: Vec<u8> = Vec::new();
    one.push(1u8);
    proof {
        assert(one@ =~= seq![1u8]);
    }
    let t1 = hmac(t0.as_slice(), one.as_slice());
    let mut t1_two = crate::byteops::bytes_of(t1.as_slice());
    t1_two.push(2u8);
    proof {
        assert(t1_two@ =~= spec_kdf1(key@, input@) + seq![2u8]);
    }
    let t2 = hmac(t0.as_slice(), t1_two.as_slice());
    (t1, t2)
}

/// Three-output KDF: the next chaining key and two derived keys.
pub fn kdf3(key: &[u8], input: &[u8]) -> (r: (Vec<u8>, Vec<u8>, Vec<u8>))
    requires
        key@.len() <= 64,
    ensures
        r.0@ == spec_kdf1(key@, input@),
        r.1@ == spec_kdf2_second(key@, input@),
        r.2@ == spec_kdf3_third(key@, input@),
        r.0@.len() == 32,
        r.1@.len() == 32,
        r.2@.len() == 32,
{
    let t0 = hmac(key, input);
    let mut one: Vec<u8> = Vec::new();
    one.push(1u8);
    proof {
        assert(one@ =~= seq![1u8]);
    }
    let t1 = hmac(t0.as_slice(), one.as_slice());
    let mut t1_two = crate::byteops::bytes_of(t1.as_slice());
    t1_two.push(2u8);
    proof {
        assert(t1_two@ =~= spec_kdf1(key@, input@) + seq![2u8]);
    }
    let t2 = hmac(t0.as_slice(), t1_two.as_slice());
    let mut t2_three = crate::byteops::bytes_of(t2.as_slice());
    t2_three.push(3u8);
    proof {
        assert(t2_three@ =~= spec_kdf2_second(key@, input@) + seq![3u8]);
    }
    let t3 = hmac(t0.as_slice(), t2_three.as_slice());
    (t1, t2, t3)
}

// ---------------------------------------------------------------------
// Derived label keys and the transport AEAD nonce layout.
// ---------------------------------------------------------------------

/// Key under which mac1 of messages to the holder of `public_key` is
/// computed: BLAKE2s(label_mac1 || public_key).
pub open spec fn spec_mac1_key(public_key: Seq<u8>) -> Seq<u8> {
    blake2s_of(label_mac1() + public_key)
}

/// Key under which cookies for the holder of `public_key` are sealed:
/// BLAKE2s(label_cookie || public_key).
pub open spec fn spec_cookie_key(public_key: Seq<u8>) -> Seq<u8> {
    blake2s_of(label_cookie() + public_key)
}

pub fn mac1_key(public_key: &[u8]) -> (r: Vec<u8>)
    ensures
        r@ == spec_mac1_key(public_key@),
        r@.len() == 32,
{
    let mut buf = label_mac1_bytes();
    append_bytes(&mut buf, public_key);
    blake2s_hash(buf.as_slice())
}

pub fn cookie_key(public_key: &[u8]) -> (r: Vec<u8>)
    ensures
        r@ == spec_cookie_key(public_key@),
        r@.len() == 32,
{
    let mut buf = label_cookie_bytes();
    append_bytes(&mut buf, public_key);
    blake2s_hash(buf.as_slice())
}

/// The 12-byte AEAD nonce carrying `counter`: four zero bytes, then the
/// counter little-endian.
pub open spec fn spec_counter_nonce(counter: u64) -> Seq<u8> {
    seq![0u8, 0u8, 0u8, 0u8] + spec_u64_to_le_bytes(counter)
}

pub fn counter_nonce(counter: u64) -> (r: Vec<u8>)
    ensures
        r@ == spec_counter_nonce(counter),
        r@.len() == 12,
{
    let mut r: Vec<u8> = Vec::new();
    r.push(0u8);
    r.push(0u8);
    r.push(0u8);
    r.push(0u8);
    proof {
        assert(r@ =~= seq![0u8, 0u8, 0u8, 0u8]);
        crate::byteops::lemma_le_round_trips();
    }
    push_u64_le(&mut r, counter);
    r
}

} // verus!
