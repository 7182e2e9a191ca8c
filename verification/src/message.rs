//! Wire message codec: the four message kinds, their fixed little-endian
//! layouts, and verified encoding and decoding between them and byte
//! buffers.

use vstd::prelude::*;
use vstd::bytes::{spec_u32_from_le_bytes, spec_u32_to_le_bytes, spec_u64_from_le_bytes, spec_u64_to_le_bytes};
use crate::byteops::{append_bytes, lemma_le_round_trips, push_u32_le, push_u64_le, read_u32_le, read_u64_le, sub_bytes};
use crate::WgError;

verus! {

// Type discriminants, carried as a little-endian u32 whose high three
// bytes are the reserved zero bytes.
pub const MSG_TYPE_INITIATION: u32 = 1;
pub const MSG_TYPE_RESPONSE: u32 = 2;
pub const MSG_TYPE_COOKIE_REPLY: u32 = 3;
pub const MSG_TYPE_TRANSPORT: u32 = 4;

// Exact (or, for transport data, minimal) encoded lengths.
pub const MSG_INITIATION_LEN: usize = 148;
pub const MSG_RESPONSE_LEN: usize = 76;
pub const MSG_COOKIE_REPLY_LEN: usize = 64;
pub const MSG_TRANSPORT_MIN_LEN: usize = 32;

// How much of an encoded handshake message its mac1 and mac2 cover.
pub const MSG_INITIATION_MAC1_COVER: usize = 116;
pub const MSG_INITIATION_MAC2_COVER: usize = 132;
pub const MSG_RESPONSE_MAC1_COVER: usize = 44;
pub const MSG_RESPONSE_MAC2_COVER: usize = 60;

/// First message: initiator to responder.
#[derive(Debug)]
pub struct HandshakeInitiation {
    pub sender: u32,
    /// The initiator's ephemeral public key (32 bytes).
    pub ephemeral: Vec<u8>,
    /// The initiator's static public key, sealed (32 + 16 bytes).
    pub enc_static: Vec<u8>,
    /// The initiator's timestamp, sealed (12 + 16 bytes).
    pub enc_timestamp: Vec<u8>,
    pub mac1: Vec<u8>,
    pub mac2: Vec<u8>,
}

/// Second message: responder to initiator.
#[derive(Debug)]
pub struct HandshakeResponse {
    pub sender: u32,
    pub receiver: u32,
    /// The responder's ephemeral public key (32 bytes).
    pub ephemeral: Vec<u8>,
    pub mac1: Vec<u8>,
    pub mac2: Vec<u8>,
}

/// Stateless reply carrying an encrypted cookie, sent under load.
#[derive(Debug)]
pub struct CookieReply {
    pub receiver: u32,
    /// The XChaCha20-Poly1305 nonce (24 bytes).
    pub nonce: Vec<u8>,
    /// The cookie, sealed (16 + 16 bytes).
    pub enc_cookie: Vec<u8>,
}

/// A transport-data packet: an encrypted payload under a counter.
#[derive(Debug)]
pub struct TransportData {
    pub receiver: u32,
    pub counter: u64,
    /// The payload, sealed (payload + 16 bytes).
    pub enc_packet: Vec<u8>,
}

/// A decoded wire message of any kind.
#[derive(Debug)]
pub enum Message {
    HandshakeInitiation(HandshakeInitiation),
    HandshakeResponse(HandshakeResponse),
    CookieReply(CookieReply),
    TransportData(TransportData),
}

impl HandshakeInitiation {
    pub open spec fn wf(&self) -> bool {
        &&& self.ephemeral@.len() == 32
        &&& self.enc_static@.len() == 48
        &&& self.enc_timestamp@.len() == 28
        &&& self.mac1@.len() == 16
        &&& self.mac2@.len() == 16
    }

    /// The encoded form: tag, sender, ephemeral, sealed static, sealed
    /// timestamp, mac1, mac2.
    pub open spec fn spec_serialize(&self) -> Seq<u8> {
        spec_u32_to_le_bytes(MSG_TYPE_INITIATION) + spec_u32_to_le_bytes(self.sender)
            + self.ephemeral@ + self.enc_static@ + self.enc_timestamp@ + self.mac1@ + self.mac2@
    }
}

impl HandshakeResponse {
    pub open spec fn wf(&self) -> bool {
        &&& self.ephemeral@.len() == 32
        &&& self.mac1@.len() == 16
        &&& self.mac2@.len() == 16
    }

    /// The encoded form: tag, sender, receiver, ephemeral, mac1, mac2.
    pub open spec fn spec_serialize(&self) -> Seq<u8> {
        spec_u32_to_le_bytes(MSG_TYPE_RESPONSE) + spec_u32_to_le_bytes(self.sender)
            + spec_u32_to_le_bytes(self.receiver) + self.ephemeral@ + self.mac1@ + self.mac2@
    }
}

impl CookieReply {
    pub open spec fn wf(&self) -> bool {
        &&& self.nonce@.len() == 24
        &&& self.enc_cookie@.len() == 32
    }

    /// The encoded form: tag, receiver, nonce, sealed cookie.
    pub open spec fn spec_serialize(&self) -> Seq<u8> {
        spec_u32_to_le_bytes(MSG_TYPE_COOKIE_REPLY) + spec_u32_to_le_bytes(self.receiver)
            + self.nonce@ + self.enc_cookie@
    }
}

impl TransportData {
    pub open spec fn wf(&self) -> bool {
        self.enc_packet@.len() >= 16
    }

    /// The encoded form: tag, receiver, counter, sealed payload.
    pub open spec fn spec_serialize(&self) -> Seq<u8> {
        spec_u32_to_le_bytes(MSG_TYPE_TRANSPORT) + spec_u32_to_le_bytes(self.receiver)
            + spec_u64_to_le_bytes(self.counter) + self.enc_packet@
    }
}

impl Message {
    pub open spec fn wf(&self) -> bool {
        match *self {
            Message::HandshakeInitiation(ref m) => m.wf(),
            Message::HandshakeResponse(ref m) => m.wf(),
            Message::CookieReply(ref m) => m.wf(),
            Message::TransportData(ref m) => m.wf(),
        }
    }

    pub open spec fn spec_serialize(&self) -> Seq<u8> {
        match *self {
            Message::HandshakeInitiation(ref m) => m.spec_serialize(),
            Message::HandshakeResponse(ref m) => m.spec_serialize(),
            Message::CookieReply(ref m) => m.spec_serialize(),
            Message::TransportData(ref m) => m.spec_serialize(),
        }
    }
}

/// Whether `b` has the exact layout of some wire message: a known type
/// tag with zero reserved bytes, and the length that tag demands.
pub open spec fn spec_parseable(b: Seq<u8>) -> bool {
    &&& b.len() >= 4
    &&& {
        let tag = spec_u32_from_le_bytes(b.subrange(0, 4));
        ||| (tag == MSG_TYPE_INITIATION && b.len() == MSG_INITIATION_LEN)
        ||| (tag == MSG_TYPE_RESPONSE && b.len() == MSG_RESPONSE_LEN)
        ||| (tag == MSG_TYPE_COOKIE_REPLY && b.len() == MSG_COOKIE_REPLY_LEN)
        ||| (tag == MSG_TYPE_TRANSPORT && b.len() >= MSG_TRANSPORT_MIN_LEN)
    }
}

/// Selects the message kind by the leading type discriminant and checks
/// the buffer's length against that kind's fixed layout. A decoded
/// message re-serializes to exactly the input bytes.
pub fn decode(buf: &[u8]) -> (r: Result<Message, WgError>)
    ensures
        r is Ok <==> spec_parseable(buf@),
        r matches Ok(m) ==> m.wf() && m.spec_serialize() == buf@,
        r matches Err(e) ==> e == WgError::MalformedMessage,
{
    proof {
        lemma_le_round_trips();
    }
    if buf.len() < 4 {
        return Err(WgError::MalformedMessage);
    }
    let tag = read_u32_le(buf, 0);
    proof {
        assert(spec_u32_to_le_bytes(tag) == buf@.subrange(0, 4));
    }
    if tag == MSG_TYPE_INITIATION {
        if buf.len() != MSG_INITIATION_LEN {
            return Err(WgError::MalformedMessage);
        }
        let m = HandshakeInitiation {
            sender: read_u32_le(buf, 4),
            ephemeral: sub_bytes(buf, 8, 40),
            enc_static: sub_bytes(buf, 40, 88),
            enc_timestamp: sub_bytes(buf, 88, 116),
            mac1: sub_bytes(buf, 116, 132),
            mac2: sub_bytes(buf, 132, 148),
        };
        proof {
            assert(spec_u32_to_le_bytes(m.sender) == buf@.subrange(4, 8));
            assert(m.spec_serialize() =~= buf@);
        }
        Ok(Message::HandshakeInitiation(m))
    } else if tag == MSG_TYPE_RESPONSE {
        if buf.len() != MSG_RESPONSE_LEN {
            return Err(WgError::MalformedMessage);
        }
        let m = HandshakeResponse {
            sender: read_u32_le(buf, 4),
            receiver: read_u32_le(buf, 8),
            ephemeral: sub_bytes(buf, 12, 44),
            mac1: sub_bytes(buf, 44, 60),
            mac2: sub_bytes(buf, 60, 76),
        };
        proof {
            assert(spec_u32_to_le_bytes(m.sender) == buf@.subrange(4, 8));
            assert(spec_u32_to_le_bytes(m.receiver) == buf@.subrange(8, 12));
            assert(m.spec_serialize() =~= buf@);
        }
        Ok(Message::HandshakeResponse(m))
    } else if tag == MSG_TYPE_COOKIE_REPLY {
        if buf.len() != MSG_COOKIE_REPLY_LEN {
            return Err(WgError::MalformedMessage);
        }
        let m = CookieReply {
            receiver: read_u32_le(buf, 4),
            nonce: sub_bytes(buf, 8, 32),
            enc_cookie: sub_bytes(buf, 32, 64),
        };
        proof {
            assert(spec_u32_to_le_bytes(m.receiver) == buf@.subrange(4, 8));
            assert(m.spec_serialize() =~= buf@);
        }
        Ok(Message::CookieReply(m))
    } else if tag == MSG_TYPE_TRANSPORT {
        if buf.len() < MSG_TRANSPORT_MIN_LEN {
            return Err(WgError::MalformedMessage);
        }
        let m = TransportData {
            receiver: read_u32_le(buf, 4),
            counter: read_u64_le(buf, 8),
            enc_packet: sub_bytes(buf, 16, buf.len()),
        };
        proof {
            assert(spec_u32_to_le_bytes(m.receiver) == buf@.subrange(4, 8));
            assert(spec_u64_to_le_bytes(m.counter) == buf@.subrange(8, 16));
            assert(m.spec_serialize() =~= buf@);
        }
        Ok(Message::TransportData(m))
    } else {
        Err(WgError::MalformedMessage)
    }
}

/// Serializes a message into a fresh buffer.
pub fn encode_to_vec(m: &Message) -> (r: Vec<u8>)
    requires
        m.wf(),
    ensures
        r@ == m.spec_serialize(),
        spec_parseable(r@),
{
    proof {
        lemma_le_round_trips();
    }
    let mut out: Vec<u8> = Vec::new();
    match m {
        Message::HandshakeInitiation(mm) => {
            push_u32_le(&mut out, MSG_TYPE_INITIATION);
            push_u32_le(&mut out, mm.sender);
            append_bytes(&mut out, mm.ephemeral.as_slice());
            append_bytes(&mut out, mm.enc_static.as_slice());
            append_bytes(&mut out, mm.enc_timestamp.as_slice());
            append_bytes(&mut out, mm.mac1.as_slice());
            append_bytes(&mut out, mm.mac2.as_slice());
            proof {
                assert(out@ =~= m.spec_serialize());
                assert(out@.subrange(0, 4) =~= spec_u32_to_le_bytes(MSG_TYPE_INITIATION));
            }
        },
        Message::HandshakeResponse(mm) => {
            push_u32_le(&mut out, MSG_TYPE_RESPONSE);
            push_u32_le(&mut out, mm.sender);
            push_u32_le(&mut out, mm.receiver);
            append_bytes(&mut out, mm.ephemeral.as_slice());
            append_bytes(&mut out, mm.mac1.as_slice());
            append_bytes(&mut out, mm.mac2.as_slice());
            proof {
                assert(out@ =~= m.spec_serialize());
                assert(out@.subrange(0, 4) =~= spec_u32_to_le_bytes(MSG_TYPE_RESPONSE));
            }
        },
        Message::CookieReply(mm) => {
            push_u32_le(&mut out, MSG_TYPE_COOKIE_REPLY);
            push_u32_le(&mut out, mm.receiver);
            append_bytes(&mut out, mm.nonce.as_slice());
            append_bytes(&mut out, mm.enc_cookie.as_slice());
            proof {
                assert(out@ =~= m.spec_serialize());
                assert(out@.subrange(0, 4) =~= spec_u32_to_le_bytes(MSG_TYPE_COOKIE_REPLY));
            }
        },
        Message::TransportData(mm) => {
            push_u32_le(&mut out, MSG_TYPE_TRANSPORT);
            push_u32_le(&mut out, mm.receiver);
            push_u64_le(&mut out, mm.counter);
            append_bytes(&mut out, mm.enc_packet.as_slice());
            proof {
                assert(out@ =~= m.spec_serialize());
                assert(out@.subrange(0, 4) =~= spec_u32_to_le_bytes(MSG_TYPE_TRANSPORT));
            }
        },
    }
    out
}

/// Serializes a message into the front of a caller-owned buffer, without
/// growing it, and returns the encoded length.
pub fn encode(m: &Message, out: &mut Vec<u8>) -> (r: Result<usize, WgError>)
    requires
        m.wf(),
    ensures
        r is Ok <==> old(out)@.len() >= m.spec_serialize().len(),
        r matches Ok(n) ==> {
            &&& n == m.spec_serialize().len()
            &&& final(out)@ == m.spec_serialize() + old(out)@.skip(n as int)
        },
        r matches Err(e) ==> e == WgError::BufferTooSmall && final(out)@ == old(out)@,
{
    let bytes = encode_to_vec(m);
    if out.len() < bytes.len() {
        return Err(WgError::BufferTooSmall);
    }
    let n = bytes.len();
    let mut i: usize = 0;
    while i < n
        invariant
            0 <= i <= n == bytes@.len() <= out@.len(),
            out@.len() == old(out)@.len(),
            out@ == bytes@.subrange(0, i as int) + old(out)@.skip(i as int),
        decreases n - i,
    {
        out.set(i, bytes[i]);
        i = i + 1;
        proof {
            assert(out@ =~= bytes@.subrange(0, i as int) + old(out)@.skip(i as int));
        }
    }
    proof {
        assert(out@ =~= bytes@ + old(out)@.skip(n as int));
    }
    Ok(n)
}

/// Where each field of an encoded HandshakeInitiation sits.
proof fn lemma_initiation_fields(m: HandshakeInitiation)
    requires
        m.wf(),
    ensures
        m.spec_serialize().len() == 148,
        m.spec_serialize().subrange(0, 4) == spec_u32_to_le_bytes(MSG_TYPE_INITIATION),
        m.spec_serialize().subrange(4, 8) == spec_u32_to_le_bytes(m.sender),
        m.spec_serialize().subrange(8, 40) == m.ephemeral@,
        m.spec_serialize().subrange(40, 88) == m.enc_static@,
        m.spec_serialize().subrange(88, 116) == m.enc_timestamp@,
        m.spec_serialize().subrange(116, 132) == m.mac1@,
        m.spec_serialize().subrange(132, 148) == m.mac2@,
{
    lemma_le_round_trips();
    let s = m.spec_serialize();
    assert(s.subrange(0, 4) =~= spec_u32_to_le_bytes(MSG_TYPE_INITIATION));
    assert(s.subrange(4, 8) =~= spec_u32_to_le_bytes(m.sender));
    assert(s.subrange(8, 40) =~= m.ephemeral@);
    assert(s.subrange(40, 88) =~= m.enc_static@);
    assert(s.subrange(88, 116) =~= m.enc_timestamp@);
    assert(s.subrange(116, 132) =~= m.mac1@);
    assert(s.subrange(132, 148) =~= m.mac2@);
}

/// Where each field of an encoded HandshakeResponse sits.
proof fn lemma_response_fields(m: HandshakeResponse)
    requires
        m.wf(),
    ensures
        m.spec_serialize().len() == 76,
        m.spec_serialize().subrange(0, 4) == spec_u32_to_le_bytes(MSG_TYPE_RESPONSE),
        m.spec_serialize().subrange(4, 8) == spec_u32_to_le_bytes(m.sender),
        m.spec_serialize().subrange(8, 12) == spec_u32_to_le_bytes(m.receiver),
        m.spec_serialize().subrange(12, 44) == m.ephemeral@,
        m.spec_serialize().subrange(44, 60) == m.mac1@,
        m.spec_serialize().subrange(60, 76) == m.mac2@,
{
    lemma_le_round_trips();
    let s = m.spec_serialize();
    assert(s.subrange(0, 4) =~= spec_u32_to_le_bytes(MSG_TYPE_RESPONSE));
    assert(s.subrange(4, 8) =~= spec_u32_to_le_bytes(m.sender));
    assert(s.subrange(8, 12) =~= spec_u32_to_le_bytes(m.receiver));
    assert(s.subrange(12, 44) =~= m.ephemeral@);
    assert(s.subrange(44, 60) =~= m.mac1@);
    assert(s.subrange(60, 76) =~= m.mac2@);
}

/// Where each field of an encoded CookieReply sits.
proof fn lemma_cookie_reply_fields(m: CookieReply)
    requires
        m.wf(),
    ensures
        m.spec_serialize().len() == 64,
        m.spec_serialize().subrange(0, 4) == spec_u32_to_le_bytes(MSG_TYPE_COOKIE_REPLY),
        m.spec_serialize().subrange(4, 8) == spec_u32_to_le_bytes(m.receiver),
        m.spec_serialize().subrange(8, 32) == m.nonce@,
        m.spec_serialize().subrange(32, 64) == m.enc_cookie@,
{
    lemma_le_round_trips();
    let s = m.spec_serialize();
    assert(s.subrange(0, 4) =~= spec_u32_to_le_bytes(MSG_TYPE_COOKIE_REPLY));
    assert(s.subrange(4, 8) =~= spec_u32_to_le_bytes(m.receiver));
    assert(s.subrange(8, 32) =~= m.nonce@);
    assert(s.subrange(32, 64) =~= m.enc_cookie@);
}

/// Where each field of an encoded TransportData packet sits.
proof fn lemma_transport_fields(m: TransportData)
    requires
        m.wf(),
    ensures
        m.spec_serialize().len() == 16 + m.enc_packet@.len(),
        m.spec_serialize().subrange(0, 4) == spec_u32_to_le_bytes(MSG_TYPE_TRANSPORT),
        m.spec_serialize().subrange(4, 8) == spec_u32_to_le_bytes(m.receiver),
        m.spec_serialize().subrange(8, 16) == spec_u64_to_le_bytes(m.counter),
        m.spec_serialize().skip(16) == m.enc_packet@,
{
    lemma_le_round_trips();
    let s = m.spec_serialize();
    assert(s.subrange(0, 4) =~= spec_u32_to_le_bytes(MSG_TYPE_TRANSPORT));
    assert(s.subrange(4, 8) =~= spec_u32_to_le_bytes(m.receiver));
    assert(s.subrange(8, 16) =~= spec_u64_to_le_bytes(m.counter));
    assert(s.skip(16) =~= m.enc_packet@);
}

/// Whether two messages are of the same kind with equal wire contents.
pub open spec fn spec_fields_eq(a: Message, b: Message) -> bool {
    match (a, b) {
        (Message::HandshakeInitiation(x), Message::HandshakeInitiation(y)) => {
            &&& x.sender == y.sender
            &&& x.ephemeral@ == y.ephemeral@
            &&& x.enc_static@ == y.enc_static@
            &&& x.enc_timestamp@ == y.enc_timestamp@
            &&& x.mac1@ == y.mac1@
            &&& x.mac2@ == y.mac2@
        },
        (Message::HandshakeResponse(x), Message::HandshakeResponse(y)) => {
            &&& x.sender == y.sender
            &&& x.receiver == y.receiver
            &&& x.ephemeral@ == y.ephemeral@
            &&& x.mac1@ == y.mac1@
            &&& x.mac2@ == y.mac2@
        },
        (Message::CookieReply(x), Message::CookieReply(y)) => {
            &&& x.receiver == y.receiver
            &&& x.nonce@ == y.nonce@
            &&& x.enc_cookie@ == y.enc_cookie@
        },
        (Message::TransportData(x), Message::TransportData(y)) => {
            &&& x.receiver == y.receiver
            &&& x.counter == y.counter
            &&& x.enc_packet@ == y.enc_packet@
        },
        _ => false,
    }
}

/// Equal four-byte encodings come from equal values.
proof fn lemma_le32_injective(x: u32, y: u32)
    requires
        spec_u32_to_le_bytes(x) == spec_u32_to_le_bytes(y),
    ensures
        x == y,
{
    lemma_le_round_trips();
    assert(spec_u32_from_le_bytes(spec_u32_to_le_bytes(x)) == x);
    assert(spec_u32_from_le_bytes(spec_u32_to_le_bytes(y)) == y);
}

/// Equal eight-byte encodings come from equal values.
proof fn lemma_le64_injective(x: u64, y: u64)
    requires
        spec_u64_to_le_bytes(x) == spec_u64_to_le_bytes(y),
    ensures
        x == y,
{
    lemma_le_round_trips();
    assert(spec_u64_from_le_bytes(spec_u64_to_le_bytes(x)) == x);
    assert(spec_u64_from_le_bytes(spec_u64_to_le_bytes(y)) == y);
}

/// The type discriminant a message is encoded under.
pub open spec fn spec_tag(m: Message) -> u32 {
    match m {
        Message::HandshakeInitiation(_) => MSG_TYPE_INITIATION,
        Message::HandshakeResponse(_) => MSG_TYPE_RESPONSE,
        Message::CookieReply(_) => MSG_TYPE_COOKIE_REPLY,
        Message::TransportData(_) => MSG_TYPE_TRANSPORT,
    }
}

/// The encoding opens with the message's type discriminant.
proof fn lemma_tag_prefix(m: Message)
    requires
        m.wf(),
    ensures
        m.spec_serialize().subrange(0, 4) == spec_u32_to_le_bytes(spec_tag(m)),
{
    match m {
        Message::HandshakeInitiation(x) => lemma_initiation_fields(x),
        Message::HandshakeResponse(x) => lemma_response_fields(x),
        Message::CookieReply(x) => lemma_cookie_reply_fields(x),
        Message::TransportData(x) => lemma_transport_fields(x),
    }
}

/// Law: the wire encoding is injective — two well-formed messages with
/// the same encoding are of the same kind and agree on every field, so
/// together with decode's contract, decoding an encoded message gives
/// back exactly the message that was encoded.
pub proof fn lemma_serialize_injective(a: Message, b: Message)
    requires
        a.wf(),
        b.wf(),
        a.spec_serialize() == b.spec_serialize(),
    ensures
        spec_fields_eq(a, b),
{
    lemma_tag_prefix(a);
    lemma_tag_prefix(b);
    lemma_le32_injective(spec_tag(a), spec_tag(b));
    match (a, b) {
        (Message::HandshakeInitiation(x), Message::HandshakeInitiation(y)) => {
            lemma_initiation_fields(x);
            lemma_initiation_fields(y);
            lemma_le32_injective(x.sender, y.sender);
        },
        (Message::HandshakeResponse(x), Message::HandshakeResponse(y)) => {
            lemma_response_fields(x);
            lemma_response_fields(y);
            lemma_le32_injective(x.sender, y.sender);
            lemma_le32_injective(x.receiver, y.receiver);
        },
        (Message::CookieReply(x), Message::CookieReply(y)) => {
            lemma_cookie_reply_fields(x);
            lemma_cookie_reply_fields(y);
            lemma_le32_injective(x.receiver, y.receiver);
        },
        (Message::TransportData(x), Message::TransportData(y)) => {
            lemma_transport_fields(x);
            lemma_transport_fields(y);
            lemma_le32_injective(x.receiver, y.receiver);
            lemma_le64_injective(x.counter, y.counter);
        },
        _ => {},
    }
}

/// A rewrite that keeps the length and the first bytes of a parseable
/// buffer (such as writing macs into a handshake message) keeps it
/// parseable.
pub proof fn lemma_parseable_prefix(pre: Seq<u8>, post: Seq<u8>, cover: int)
    requires
        spec_parseable(pre),
        post.len() == pre.len(),
        4 <= cover <= pre.len(),
        post.subrange(0, cover) == pre.subrange(0, cover),
    ensures
        spec_parseable(post),
{
    assert forall|k: int| 0 <= k < 4 implies post[k] == pre[k] by {
        assert(post[k] == post.subrange(0, cover)[k]);
        assert(pre[k] == pre.subrange(0, cover)[k]);
    }
    assert(post.subrange(0, 4) =~= pre.subrange(0, 4));
}

/// The encoded lengths that well-formedness fixes: handshake and cookie
/// messages have exact sizes, transport data its payload plus header.
pub proof fn lemma_serialize_len(m: Message)
    requires
        m.wf(),
    ensures
        m matches Message::HandshakeInitiation(mm) ==> m.spec_serialize().len()
            == MSG_INITIATION_LEN,
        m matches Message::HandshakeResponse(mm) ==> m.spec_serialize().len() == MSG_RESPONSE_LEN,
        m matches Message::CookieReply(mm) ==> m.spec_serialize().len() == MSG_COOKIE_REPLY_LEN,
        m matches Message::TransportData(mm) ==> m.spec_serialize().len() == 16
            + mm.enc_packet@.len(),
{
    lemma_le_round_trips();
}

} // verus!
