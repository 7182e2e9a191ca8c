use wg::crypto::x25519_public_key;
use wg::device::Device;
use wg::message::{decode, Message};
use wg::WgError;

fn ts(n: u8) -> Vec<u8> {
    let mut t = vec![0u8; 12];
    t[11] = n;
    t
}

fn device_pair() -> (Device, Device) {
    let a_priv = vec![0x11u8; 32];
    let b_priv = vec![0x22u8; 32];
    let a_pub = x25519_public_key(&a_priv);
    let b_pub = x25519_public_key(&b_priv);
    let psk = vec![0x33u8; 32];
    let mut a = Device::new(a_priv, 4, 8, vec![0x44u8; 32], 0);
    let mut b = Device::new(b_priv, 4, 8, vec![0x55u8; 32], 0);
    a.add_peer(b_pub, psk.clone(), 0).unwrap();
    b.add_peer(a_pub, psk, 0).unwrap();
    (a, b)
}

fn run_handshake(a: &mut Device, b: &mut Device, t: u8, now: u64) {
    let eph_a = vec![0x61u8 + t; 32];
    let eph_b = vec![0x71u8 + t; 32];
    let init_bytes = a.begin_handshake(0, &ts(t), &eph_a, now).unwrap();
    let init = match decode(&init_bytes).unwrap() {
        Message::HandshakeInitiation(m) => m,
        _ => panic!("not an initiation"),
    };
    let resp_bytes = b
        .handle_initiation(&init, &init_bytes, b"10.0.0.1:51820", &eph_b, &vec![0u8; 24], now)
        .unwrap();
    assert_eq!(resp_bytes.len(), 76, "expected a handshake response");
    let resp = match decode(&resp_bytes).unwrap() {
        Message::HandshakeResponse(m) => m,
        _ => panic!("not a response"),
    };
    let pi = a.handle_response(&resp, &resp_bytes, now).unwrap();
    assert_eq!(pi, 0);
}

#[test]
fn end_to_end_handshake_and_transport() {
    let (mut a, mut b) = device_pair();
    run_handshake(&mut a, &mut b, 1, 10);

    // A -> B with counter 0.
    let payload = b"a sample ip packet".to_vec();
    let data_bytes = a.send_transport(0, &payload, 11).unwrap();
    let td = match decode(&data_bytes).unwrap() {
        Message::TransportData(m) => m,
        _ => panic!("not transport data"),
    };
    assert_eq!(td.counter, 0);
    let (pi, plain) = b.handle_transport(&td, 11).unwrap();
    assert_eq!(pi, 0);
    assert_eq!(plain, payload);

    // B -> A works on the same generation.
    let reply = b"and a reply".to_vec();
    let data2 = b.send_transport(0, &reply, 12).unwrap();
    let td2 = match decode(&data2).unwrap() {
        Message::TransportData(m) => m,
        _ => panic!("not transport data"),
    };
    let (_, plain2) = a.handle_transport(&td2, 12).unwrap();
    assert_eq!(plain2, reply);

    // Replaying A's packet at B is refused.
    assert_eq!(b.handle_transport(&td, 13).unwrap_err(), WgError::ReplayedOrInvalid);
}

#[test]
fn tampered_mac1_rejected_before_decryption() {
    let (mut a, mut b) = device_pair();
    let eph_a = vec![0x61u8; 32];
    let eph_b = vec![0x71u8; 32];
    let mut init_bytes = a.begin_handshake(0, &ts(1), &eph_a, 0).unwrap();
    // flip one byte of mac1 (offset 116..132)
    init_bytes[120] ^= 0x01;
    let init = match decode(&init_bytes).unwrap() {
        Message::HandshakeInitiation(m) => m,
        _ => panic!("not an initiation"),
    };
    let r = b.handle_initiation(&init, &init_bytes, b"src", &eph_b, &vec![0u8; 24], 0);
    assert_eq!(r.unwrap_err(), WgError::AuthenticationFailed);
}

#[test]
fn tampered_body_rejected() {
    let (mut a, mut b) = device_pair();
    let eph_a = vec![0x61u8; 32];
    let eph_b = vec![0x71u8; 32];
    let mut init_bytes = a.begin_handshake(0, &ts(1), &eph_a, 0).unwrap();
    // flip a byte of the sealed static key: mac1 no longer matches
    init_bytes[50] ^= 0x01;
    let init = match decode(&init_bytes).unwrap() {
        Message::HandshakeInitiation(m) => m,
        _ => panic!("not an initiation"),
    };
    let r = b.handle_initiation(&init, &init_bytes, b"src", &eph_b, &vec![0u8; 24], 0);
    assert_eq!(r.unwrap_err(), WgError::AuthenticationFailed);
}

#[test]
fn initiation_from_unknown_peer_rejected() {
    let (_, mut b) = device_pair();
    // a third device that knows B but that B does not know
    let c_priv = vec![0x77u8; 32];
    let b_pub = x25519_public_key(&vec![0x22u8; 32]);
    let mut c = Device::new(c_priv, 4, 8, vec![1u8; 32], 0);
    c.add_peer(b_pub, vec![0x33u8; 32], 0).unwrap();
    let init_bytes = c.begin_handshake(0, &ts(1), &vec![0x62u8; 32], 0).unwrap();
    let init = match decode(&init_bytes).unwrap() {
        Message::HandshakeInitiation(m) => m,
        _ => panic!("not an initiation"),
    };
    let r = b.handle_initiation(&init, &init_bytes, b"src", &vec![0x71u8; 32], &vec![0u8; 24], 0);
    assert_eq!(r.unwrap_err(), WgError::UnknownPeer);
}

#[test]
fn replayed_initiation_rejected_by_timestamp() {
    let (mut a, mut b) = device_pair();
    let eph_a = vec![0x61u8; 32];
    let init_bytes = a.begin_handshake(0, &ts(1), &eph_a, 0).unwrap();
    let init = match decode(&init_bytes).unwrap() {
        Message::HandshakeInitiation(m) => m,
        _ => panic!("not an initiation"),
    };
    let first = b.handle_initiation(&init, &init_bytes, b"src", &vec![0x71u8; 32], &vec![0u8; 24], 0);
    assert!(first.is_ok());
    let second =
        b.handle_initiation(&init, &init_bytes, b"src", &vec![0x72u8; 32], &vec![0u8; 24], 0);
    assert_eq!(second.unwrap_err(), WgError::ReplayedOrInvalid);
}

#[test]
fn unexpected_receiver_index_dropped() {
    let (mut a, mut b) = device_pair();
    let eph_a = vec![0x61u8; 32];
    let init_bytes = a.begin_handshake(0, &ts(1), &eph_a, 0).unwrap();
    let init = match decode(&init_bytes).unwrap() {
        Message::HandshakeInitiation(m) => m,
        _ => panic!("not an initiation"),
    };
    let resp_bytes = b
        .handle_initiation(&init, &init_bytes, b"src", &vec![0x71u8; 32], &vec![0u8; 24], 0)
        .unwrap();
    let resp = match decode(&resp_bytes).unwrap() {
        Message::HandshakeResponse(m) => m,
        _ => panic!("not a response"),
    };
    assert!(a.handle_response(&resp, &resp_bytes, 0).is_ok());
    // the transcript is consumed: replaying the same response finds no
    // pending handshake under its receiver index and is dropped
    let r = a.handle_response(&resp, &resp_bytes, 0);
    assert_eq!(r.unwrap_err(), WgError::UnknownPeer);
}

#[test]
fn rekey_produces_new_generation_and_old_packets_still_decrypt() {
    let (mut a, mut b) = device_pair();
    run_handshake(&mut a, &mut b, 1, 10);
    let p1 = a.send_transport(0, b"first generation", 11).unwrap();
    // second handshake: generations rotate, traffic continues
    run_handshake(&mut a, &mut b, 2, 20);
    let p2 = a.send_transport(0, b"second generation", 21).unwrap();
    let td2 = match decode(&p2).unwrap() {
        Message::TransportData(m) => m,
        _ => panic!(),
    };
    assert_eq!(b.handle_transport(&td2, 21).unwrap().1, b"second generation");
    // the first generation is kept as previous and still receives
    let td1 = match decode(&p1).unwrap() {
        Message::TransportData(m) => m,
        _ => panic!(),
    };
    assert_eq!(b.handle_transport(&td1, 22).unwrap().1, b"first generation");
}

#[test]
fn capacity_exceeded_surfaces() {
    let mut d = Device::new(vec![0x11u8; 32], 1, 8, vec![0u8; 32], 0);
    d.add_peer(vec![1u8; 32], vec![0u8; 32], 0).unwrap();
    let r = d.add_peer(vec![2u8; 32], vec![0u8; 32], 0);
    assert_eq!(r.unwrap_err(), WgError::CapacityExceeded);
}
