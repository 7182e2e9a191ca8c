use wg::message::{decode, encode, encode_to_vec, Message};
use wg::WgError;

fn sample_initiation() -> wg::message::HandshakeInitiation {
    wg::message::HandshakeInitiation {
        sender: 0x11223344,
        ephemeral: (0u8..32).collect(),
        enc_static: (0u8..48).collect(),
        enc_timestamp: (0u8..28).collect(),
        mac1: vec![0xaa; 16],
        mac2: vec![0xbb; 16],
    }
}

#[test]
fn initiation_round_trip() {
    let m = Message::HandshakeInitiation(sample_initiation());
    let bytes = encode_to_vec(&m);
    assert_eq!(bytes.len(), 148);
    assert_eq!(&bytes[0..4], &[1, 0, 0, 0]);
    assert_eq!(&bytes[4..8], &[0x44, 0x33, 0x22, 0x11]);
    match decode(&bytes).unwrap() {
        Message::HandshakeInitiation(d) => {
            assert_eq!(d.sender, 0x11223344);
            assert_eq!(d.ephemeral, (0u8..32).collect::<Vec<u8>>());
            assert_eq!(d.enc_static, (0u8..48).collect::<Vec<u8>>());
            assert_eq!(d.enc_timestamp, (0u8..28).collect::<Vec<u8>>());
            assert_eq!(d.mac1, vec![0xaa; 16]);
            assert_eq!(d.mac2, vec![0xbb; 16]);
        },
        _ => panic!("wrong kind"),
    }
}

#[test]
fn response_round_trip() {
    let m = Message::HandshakeResponse(wg::message::HandshakeResponse {
        sender: 7,
        receiver: 9,
        ephemeral: vec![5; 32],
        mac1: vec![1; 16],
        mac2: vec![2; 16],
    });
    let bytes = encode_to_vec(&m);
    assert_eq!(bytes.len(), 76);
    assert_eq!(&bytes[0..4], &[2, 0, 0, 0]);
    match decode(&bytes).unwrap() {
        Message::HandshakeResponse(d) => {
            assert_eq!(d.sender, 7);
            assert_eq!(d.receiver, 9);
            assert_eq!(d.ephemeral, vec![5; 32]);
        },
        _ => panic!("wrong kind"),
    }
}

#[test]
fn cookie_reply_round_trip() {
    let m = Message::CookieReply(wg::message::CookieReply {
        receiver: 0xdeadbeef,
        nonce: vec![3; 24],
        enc_cookie: vec![4; 32],
    });
    let bytes = encode_to_vec(&m);
    assert_eq!(bytes.len(), 64);
    assert_eq!(&bytes[0..4], &[3, 0, 0, 0]);
    match decode(&bytes).unwrap() {
        Message::CookieReply(d) => {
            assert_eq!(d.receiver, 0xdeadbeef);
            assert_eq!(d.nonce, vec![3; 24]);
            assert_eq!(d.enc_cookie, vec![4; 32]);
        },
        _ => panic!("wrong kind"),
    }
}

#[test]
fn transport_round_trip() {
    let m = Message::TransportData(wg::message::TransportData {
        receiver: 12,
        counter: 0x0102030405060708,
        enc_packet: vec![9; 21],
    });
    let bytes = encode_to_vec(&m);
    assert_eq!(bytes.len(), 16 + 21);
    assert_eq!(&bytes[0..4], &[4, 0, 0, 0]);
    assert_eq!(&bytes[8..16], &[8, 7, 6, 5, 4, 3, 2, 1]);
    match decode(&bytes).unwrap() {
        Message::TransportData(d) => {
            assert_eq!(d.receiver, 12);
            assert_eq!(d.counter, 0x0102030405060708);
            assert_eq!(d.enc_packet, vec![9; 21]);
        },
        _ => panic!("wrong kind"),
    }
}

#[test]
fn malformed_buffers_rejected() {
    assert_eq!(decode(&[]).unwrap_err(), WgError::MalformedMessage);
    assert_eq!(decode(&[1, 0, 0]).unwrap_err(), WgError::MalformedMessage);
    // unknown tag
    assert_eq!(decode(&[9, 0, 0, 0, 0, 0, 0, 0]).unwrap_err(), WgError::MalformedMessage);
    // reserved bytes must be zero
    let mut bytes = encode_to_vec(&Message::HandshakeInitiation(sample_initiation()));
    bytes[1] = 1;
    assert_eq!(decode(&bytes).unwrap_err(), WgError::MalformedMessage);
    // wrong length for the tag
    let mut short = encode_to_vec(&Message::HandshakeInitiation(sample_initiation()));
    short.pop();
    assert_eq!(decode(&short).unwrap_err(), WgError::MalformedMessage);
    // transport below the minimum
    assert_eq!(decode(&[4, 0, 0, 0, 0, 0, 0, 0, 0, 0, 0, 0]).unwrap_err(), WgError::MalformedMessage);
}

#[test]
fn encode_into_buffer() {
    let m = Message::CookieReply(wg::message::CookieReply {
        receiver: 1,
        nonce: vec![0; 24],
        enc_cookie: vec![0; 32],
    });
    let mut small = vec![0u8; 63];
    assert_eq!(encode(&m, &mut small).unwrap_err(), WgError::BufferTooSmall);
    let mut big = vec![0xffu8; 70];
    let n = encode(&m, &mut big).unwrap();
    assert_eq!(n, 64);
    assert_eq!(&big[..64], encode_to_vec(&m).as_slice());
    assert_eq!(&big[64..], &[0xff; 6]);
}
