use wg::device::Device;
use wg::peer::{KeyPair, Peer, PeerAction};
use wg::{KEEPALIVE_TIMEOUT, REJECT_AFTER_MESSAGES, REKEY_AFTER_TIME, REKEY_TIMEOUT};

fn sample_peer() -> Peer {
    Peer::new(vec![1u8; 32], vec![2u8; 32], vec![3u8; 32], 0)
}

fn sample_keypair(now: u64) -> KeyPair {
    KeyPair::new(true, vec![4u8; 32], vec![5u8; 32], 10, 20, now)
}

#[test]
fn tick_requests_initiation_once() {
    let mut p = sample_peer();
    let now = REKEY_TIMEOUT + 1;
    assert_eq!(p.tick(now), PeerAction::SendInitiation);
    // immediately afterwards, with no time elapsed: idle (idempotent)
    assert_eq!(p.tick(now), PeerAction::Idle);
    // after the retry interval it asks again
    assert_eq!(p.tick(now + REKEY_TIMEOUT), PeerAction::SendInitiation);
}

#[test]
fn tick_idle_with_young_keypair() {
    let mut p = sample_peer();
    let now = 1000;
    p.curr_keypair = sample_keypair(now);
    p.last_initiation_tx = now;
    assert_eq!(p.tick(now + 1), PeerAction::Idle);
    // an aged key-pair brings a rekey
    assert_eq!(p.tick(now + REKEY_AFTER_TIME), PeerAction::SendInitiation);
}

#[test]
fn tick_emits_keepalive_after_silence() {
    let mut p = Peer::new(vec![1u8; 32], vec![2u8; 32], vec![3u8; 32], KEEPALIVE_TIMEOUT as u16);
    let now = 1000;
    p.curr_keypair = sample_keypair(now);
    p.last_initiation_tx = now;
    p.last_tx = now;
    assert_eq!(p.tick(now + 1), PeerAction::Idle);
    let due = now + KEEPALIVE_TIMEOUT;
    assert_eq!(p.tick(due), PeerAction::SendKeepalive);
    // stamped: a second tick at the same instant stays idle
    assert_eq!(p.tick(due), PeerAction::Idle);
}

#[test]
fn send_past_counter_ceiling_requires_rekey() {
    let mut a = Device::new(vec![0x11u8; 32], 1, 4, vec![0u8; 32], 0);
    a.add_peer(vec![1u8; 32], vec![2u8; 32], 0).unwrap();
    let mut kp = KeyPair::new(true, vec![4u8; 32], vec![5u8; 32], 10, 20, 0);
    // one packet before the ceiling still goes out
    kp.send_counter = REJECT_AFTER_MESSAGES - 1;
    a.peers[0].curr_keypair = kp;
    // keep the device's index discipline: live indices stay below the
    // next one to assign
    a.next_index = 100;
    assert!(a.send_transport(0, b"last one", 1).is_ok());
    // now at the ceiling: refused, and a rekey is requested
    let r = a.send_transport(0, b"one too many", 2);
    assert_eq!(r.unwrap_err(), wg::WgError::RekeyRequired);
    assert!(a.peers[0].send_handshake);
    assert_eq!(a.tick_peer(0, REKEY_TIMEOUT + 3), PeerAction::SendInitiation);
}

#[test]
fn receiving_survives_the_sending_ceiling() {
    // two ends of one generation: what one sends the other receives
    let mut tx = KeyPair::new(true, vec![4u8; 32], vec![5u8; 32], 10, 20, 0);
    let mut rx = KeyPair::new(false, vec![5u8; 32], vec![4u8; 32], 20, 10, 0);
    let td = tx.encrypt(b"still flowing").unwrap();
    // the sender hits the ceiling
    tx.send_counter = REJECT_AFTER_MESSAGES;
    assert_eq!(tx.encrypt(b"no more").unwrap_err(), wg::WgError::RekeyRequired);
    // the receiver still decrypts what was sent before
    let plain = rx.decrypt(td.counter, &td.enc_packet).unwrap();
    assert_eq!(plain, b"still flowing");
}

#[test]
fn empty_payload_round_trips_as_keepalive() {
    let mut tx = KeyPair::new(true, vec![4u8; 32], vec![5u8; 32], 10, 20, 0);
    let mut rx = KeyPair::new(false, vec![5u8; 32], vec![4u8; 32], 20, 10, 0);
    let td = tx.encrypt(b"").unwrap();
    assert_eq!(td.enc_packet.len(), 16);
    let plain = rx.decrypt(td.counter, &td.enc_packet).unwrap();
    assert!(plain.is_empty());
}

#[test]
fn keypair_decrypt_errors_are_told_apart() {
    let mut tx = KeyPair::new(true, vec![4u8; 32], vec![5u8; 32], 10, 20, 0);
    let mut rx = KeyPair::new(false, vec![5u8; 32], vec![4u8; 32], 20, 10, 0);
    let td = tx.encrypt(b"payload").unwrap();
    let mut tampered = td.enc_packet.clone();
    tampered[2] ^= 1;
    assert_eq!(rx.decrypt(td.counter, &tampered).unwrap_err(), wg::WgError::AuthenticationFailed);
    assert_eq!(rx.decrypt(td.counter, &td.enc_packet).unwrap(), b"payload");
    assert_eq!(
        rx.decrypt(td.counter, &td.enc_packet).unwrap_err(),
        wg::WgError::ReplayedOrInvalid
    );
}

#[test]
fn aged_keypair_stops_sending_but_keeps_receiving() {
    let mut p = sample_peer();
    let born = 1000;
    p.curr_keypair = sample_keypair(born);
    p.prev_keypair = sample_keypair(born);
    p.last_initiation_tx = born;
    let late = born + wg::REJECT_AFTER_TIME;
    // the tick both retires the sending side and asks for a handshake
    assert_eq!(p.tick(late), PeerAction::SendInitiation);
    assert!(p.curr_keypair.valid);
    assert!(!p.curr_keypair.sending_valid);
    assert!(p.curr_keypair.receiving_valid);
    // the stale previous generation is purged outright
    assert!(!p.prev_keypair.valid);
}

#[test]
fn inner_source_extraction() {
    let mut v4 = vec![0u8; 20];
    v4[0] = 0x45;
    v4[12] = 10;
    v4[13] = 0;
    v4[14] = 0;
    v4[15] = 9;
    assert_eq!(wg::device::inner_source_addr(&v4).unwrap(), vec![10, 0, 0, 9]);
    let mut v6 = vec![0u8; 40];
    v6[0] = 0x60;
    v6[8] = 0xfe;
    assert_eq!(wg::device::inner_source_addr(&v6).unwrap()[0], 0xfe);
    assert_eq!(wg::device::inner_source_addr(&v6).unwrap().len(), 16);
    assert!(wg::device::inner_source_addr(&[0x45u8; 10]).is_none());
    assert!(wg::device::inner_source_addr(&[0x00u8; 40]).is_none());
}

#[test]
fn allowed_ips_filter_sources() {
    let mut p = sample_peer();
    p.add_allowed_ip(wg::peer::AllowedIp {
        valid: true,
        ip: vec![10, 0, 0, 0],
        mask: vec![255, 255, 255, 0],
    })
    .unwrap();
    assert!(p.allows_source_ip(&[10, 0, 0, 7]));
    assert!(!p.allows_source_ip(&[10, 0, 1, 7]));
    assert!(!p.allows_source_ip(&[10, 0, 0, 7, 0]));
    p.add_allowed_ip(wg::peer::AllowedIp {
        valid: true,
        ip: vec![10, 0, 1, 0],
        mask: vec![255, 255, 255, 0],
    })
    .unwrap();
    assert!(p.allows_source_ip(&[10, 0, 1, 7]));
    // the set is bounded at configuration capacity
    let over = p.add_allowed_ip(wg::peer::AllowedIp {
        valid: true,
        ip: vec![10, 0, 2, 0],
        mask: vec![255, 255, 255, 0],
    });
    assert_eq!(over.unwrap_err(), wg::WgError::CapacityExceeded);
    p.clear_allowed_ips();
    assert!(!p.allows_source_ip(&[10, 0, 0, 7]));
}

#[test]
fn simultaneous_initiation_tie_break_is_deterministic() {
    // peer public key is [1; 32] in sample_peer
    let mut p = sample_peer();
    let mut staged = sample_keypair(0);
    staged.initiator = false;
    staged.local_index = 111;
    p.next_keypair = staged;
    p.curr_keypair = sample_keypair(0);
    p.curr_keypair.local_index = 55;
    let mut fresh = sample_keypair(1);
    fresh.initiator = true;
    fresh.local_index = 222;
    // device public [0; 32] is below the peer's: our initiator role wins
    p.install_keypair(fresh, &vec![0u8; 32]);
    assert_eq!(p.curr_keypair.local_index, 222);
    assert!(p.curr_keypair.initiator);
    assert_eq!(p.next_keypair.local_index, 111);
    assert_eq!(p.prev_keypair.local_index, 55);

    // with the key order reversed the responder-role generation wins
    let mut q = sample_peer();
    let mut staged2 = sample_keypair(0);
    staged2.initiator = false;
    staged2.local_index = 333;
    q.next_keypair = staged2;
    let mut fresh2 = sample_keypair(1);
    fresh2.initiator = true;
    fresh2.local_index = 444;
    q.install_keypair(fresh2, &vec![9u8; 32]);
    assert_eq!(q.curr_keypair.local_index, 333);
    assert!(!q.curr_keypair.initiator);
    assert_eq!(q.next_keypair.local_index, 444);
}

#[test]
fn first_keypair_becomes_current() {
    let mut p = sample_peer();
    let kp = sample_keypair(5);
    p.install_keypair(kp, &vec![0u8; 32]);
    assert!(p.curr_keypair.valid);
    assert!(!p.prev_keypair.valid);
    assert!(!p.next_keypair.valid);
    // a second generation slides the first to previous
    let mut kp2 = sample_keypair(6);
    kp2.local_index = 77;
    p.install_keypair(kp2, &vec![0u8; 32]);
    assert_eq!(p.curr_keypair.local_index, 77);
    assert!(p.prev_keypair.valid);
    assert_eq!(p.prev_keypair.local_index, 10);
}

#[test]
fn endpoint_learned_but_never_cleared() {
    let mut p = sample_peer();
    assert!(!p.ep.present);
    p.set_endpoint(vec![192, 168, 1, 2], 51820);
    assert!(p.ep.present);
    assert_eq!(p.ep.ip, vec![192, 168, 1, 2]);
    assert_eq!(p.ep.port, 51820);
}
