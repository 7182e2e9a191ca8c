use wg::cookie::{CookieSecret, RateLimiter};
use wg::crypto::x25519_public_key;
use wg::device::Device;
use wg::message::{decode, Message};
use wg::{COOKIE_SECRET_MAX_AGE, MAX_INITIATIONS_PER_SECOND};

fn ts(n: u8) -> Vec<u8> {
    let mut t = vec![0u8; 12];
    t[10] = n;
    t
}

fn device_pair() -> (Device, Device) {
    let a_priv = vec![0x11u8; 32];
    let b_priv = vec![0x22u8; 32];
    let a_pub = x25519_public_key(&a_priv);
    let b_pub = x25519_public_key(&b_priv);
    let psk = vec![0x33u8; 32];
    let mut a = Device::new(a_priv, 4, 8, vec![0x44u8; 32], 0);
    let mut b = Device::new(b_priv, 4, 8, vec![0x55u8; 32], 0);
    a.add_peer(b_pub, psk.clone(), 0).unwrap();
    b.add_peer(a_pub, psk, 0).unwrap();
    (a, b)
}

/// Sends one initiation from `a` to `b` as coming from `source`, and
/// returns the datagram `b` answered with.
fn offer(a: &mut Device, b: &mut Device, source: &[u8], t: u8, now: u64) -> Vec<u8> {
    let init_bytes = a.begin_handshake(0, &ts(t), &vec![0x60u8 + t; 32], now).unwrap();
    let init = match decode(&init_bytes).unwrap() {
        Message::HandshakeInitiation(m) => m,
        _ => panic!("not an initiation"),
    };
    b.handle_initiation(&init, &init_bytes, source, &vec![0x90u8 + t; 32], &vec![t; 24], now)
        .unwrap()
}

#[test]
fn sustained_initiations_trigger_cookie_replies_per_source() {
    let (mut a, mut b) = device_pair();
    let mut t: u8 = 1;
    for source in [b"s1".as_slice(), b"s2".as_slice(), b"s3".as_slice()] {
        let mut responses = 0;
        let mut cookies = 0;
        for _ in 0..5 {
            let answer = offer(&mut a, &mut b, source, t, 100);
            t += 1;
            match answer.len() {
                76 => responses += 1,
                64 => cookies += 1,
                n => panic!("unexpected reply length {}", n),
            }
        }
        assert_eq!(responses as u64, MAX_INITIATIONS_PER_SECOND);
        assert_eq!(cookies as u64, 5 - MAX_INITIATIONS_PER_SECOND);
    }
}

#[test]
fn echoed_cookie_unblocks_one_initiation() {
    let (mut a, mut b) = device_pair();
    // exhaust the per-second budget for this source
    let mut last_answer = Vec::new();
    for t in 1..=3u8 {
        last_answer = offer(&mut a, &mut b, b"src", t, 100);
    }
    assert_eq!(last_answer.len(), 64, "third initiation must draw a cookie reply");
    let reply = match decode(&last_answer).unwrap() {
        Message::CookieReply(m) => m,
        _ => panic!("not a cookie reply"),
    };
    a.handle_cookie_reply(&reply, 100).unwrap();
    // the next initiation carries mac2 under the cookie and is processed
    let answer = offer(&mut a, &mut b, b"src", 4, 100);
    assert_eq!(answer.len(), 76, "cookie-bearing retry must be answered");
}

#[test]
fn cookie_of_rotated_secret_rejected() {
    let (mut a, mut b) = device_pair();
    for t in 1..=3u8 {
        let answer = offer(&mut a, &mut b, b"src", t, 100);
        if answer.len() == 64 {
            let reply = match decode(&answer).unwrap() {
                Message::CookieReply(m) => m,
                _ => panic!("not a cookie reply"),
            };
            a.handle_cookie_reply(&reply, 100).unwrap();
        }
    }
    // the secret rotates to the next generation
    let rotated = b.rotate_cookie_secret(&vec![0xEEu8; 32], 100 + COOKIE_SECRET_MAX_AGE);
    assert!(rotated);
    // same second's budget is still exhausted at b for this source
    let answer = offer(&mut a, &mut b, b"src", 9, 100);
    assert_eq!(answer.len(), 64, "a cookie bound to the superseded secret is refused");
}

#[test]
fn secret_rotation_is_age_driven() {
    let mut s = CookieSecret::new(vec![1u8; 32], 1000);
    assert!(!s.maybe_rotate(&vec![2u8; 32], 1000 + COOKIE_SECRET_MAX_AGE - 1));
    assert_eq!(s.generation, 0);
    assert!(s.maybe_rotate(&vec![2u8; 32], 1000 + COOKIE_SECRET_MAX_AGE));
    assert_eq!(s.generation, 1);
    assert_eq!(s.secret, vec![2u8; 32]);
}

#[test]
fn rate_limiter_counts_per_source_and_window() {
    let mut rl = RateLimiter::new(2);
    assert!(rl.check(b"a", 7));
    assert!(rl.check(b"a", 7));
    assert!(!rl.check(b"a", 7));
    // a different source has its own budget
    assert!(rl.check(b"b", 7));
    // table full of current entries: a third source is refused outright
    assert!(!rl.check(b"c", 7));
    // the next second resets the window, and a lapsed slot serves a
    // source that could not be tracked before
    assert!(rl.check(b"a", 8));
    assert!(rl.check(b"c", 8));
}
