use wg::crypto::{
    blake2s_hash, blake2s_mac, chacha_open, chacha_seal, counter_nonce, hmac, kdf1, kdf2, kdf3,
    mac1_key, x25519_dh, x25519_public_key, xchacha_open, xchacha_seal,
};
use wg::WireguardCtx;

fn hex(bytes: &[u8]) -> String {
    bytes.iter().map(|b| format!("{:02x}", b)).collect()
}

#[test]
fn blake2s_known_vector() {
    let d = blake2s_hash(&[]);
    assert_eq!(hex(&d), "69217a3079908094e11121d042354a7c1f55b6482ca1a51e1b250dfd1ed0eef9");
}

#[test]
fn protocol_hash_constants() {
    let ctx = WireguardCtx::init();
    assert_eq!(
        hex(&ctx.construction_hash),
        "60e26daef327efc02ec335e2a025d2d016eb4206f87277f52d38d1988b78cd36"
    );
    assert_eq!(
        hex(&ctx.identifier_hash),
        "8622b0d3e9ecfbba175eaa380b1c67eb8db9ecb01b2199c52d99952b27c8d03d"
    );
}

#[test]
fn keyed_mac_depends_on_key_and_data() {
    let k1 = vec![1u8; 32];
    let k2 = vec![2u8; 32];
    let m1 = blake2s_mac(&k1, b"hello");
    let m2 = blake2s_mac(&k2, b"hello");
    let m3 = blake2s_mac(&k1, b"hellp");
    assert_eq!(m1.len(), 16);
    assert_ne!(m1, m2);
    assert_ne!(m1, m3);
    assert_eq!(m1, blake2s_mac(&k1, b"hello"));
}

#[test]
fn mac1_key_differs_from_its_input() {
    let pk = vec![7u8; 32];
    let k = mac1_key(&pk);
    assert_eq!(k.len(), 32);
    assert_ne!(k, pk);
}

#[test]
fn kdf_outputs_are_distinct_and_deterministic() {
    let ck = vec![3u8; 32];
    let input = vec![4u8; 32];
    let t1 = kdf1(&ck, &input);
    let (u1, u2) = kdf2(&ck, &input);
    let (v1, v2, v3) = kdf3(&ck, &input);
    assert_eq!(t1, u1);
    assert_eq!(u1, v1);
    assert_eq!(u2, v2);
    assert_ne!(v1, v2);
    assert_ne!(v2, v3);
    assert_ne!(v1, v3);
    // The HMAC underneath differs from the plain digest.
    assert_ne!(hmac(&ck, &input), blake2s_hash(&input));
}

#[test]
fn x25519_agreement() {
    let a = vec![0x11u8; 32];
    let b = vec![0x22u8; 32];
    let a_pub = x25519_public_key(&a);
    let b_pub = x25519_public_key(&b);
    assert_ne!(a_pub, a);
    assert_ne!(a_pub, b_pub);
    let s1 = x25519_dh(&a, &b_pub);
    let s2 = x25519_dh(&b, &a_pub);
    assert_eq!(s1, s2);
    assert_eq!(s1.len(), 32);
}

#[test]
fn aead_round_trip_and_rejection() {
    let key = vec![9u8; 32];
    let nonce = counter_nonce(5);
    assert_eq!(nonce.len(), 12);
    assert_eq!(&nonce[..4], &[0, 0, 0, 0]);
    assert_eq!(&nonce[4..], &[5, 0, 0, 0, 0, 0, 0, 0]);
    let sealed = chacha_seal(&key, &nonce, b"aad", b"secret payload");
    assert_eq!(sealed.len(), 14 + 16);
    assert_ne!(&sealed[..14], b"secret payload".as_slice());
    let opened = chacha_open(&key, &nonce, b"aad", &sealed).unwrap();
    assert_eq!(opened, b"secret payload");
    // wrong key, wrong aad, wrong nonce, tampered byte: all refused
    let other_key = vec![8u8; 32];
    assert!(chacha_open(&other_key, &nonce, b"aad", &sealed).is_none());
    assert!(chacha_open(&key, &nonce, b"aax", &sealed).is_none());
    assert!(chacha_open(&key, &counter_nonce(6), b"aad", &sealed).is_none());
    let mut tampered = sealed.clone();
    tampered[0] ^= 1;
    assert!(chacha_open(&key, &nonce, b"aad", &tampered).is_none());
}

#[test]
fn xaead_round_trip_and_rejection() {
    let key = vec![6u8; 32];
    let nonce = vec![1u8; 24];
    let sealed = xchacha_seal(&key, &nonce, b"tag", b"cookie!!");
    assert_eq!(sealed.len(), 8 + 16);
    let opened = xchacha_open(&key, &nonce, b"tag", &sealed).unwrap();
    assert_eq!(opened, b"cookie!!");
    let mut tampered = sealed.clone();
    tampered[3] ^= 0x80;
    assert!(xchacha_open(&key, &nonce, b"tag", &tampered).is_none());
}

#[test]
fn byte_helpers() {
    assert!(wg::byteops::bytes_eq(b"abc", b"abc"));
    assert!(!wg::byteops::bytes_eq(b"abc", b"abd"));
    assert!(!wg::byteops::bytes_eq(b"abc", b"ab"));
    assert!(wg::byteops::bytes_lt(b"abc", b"abd"));
    assert!(wg::byteops::bytes_lt(b"ab", b"abc"));
    assert!(!wg::byteops::bytes_lt(b"abd", b"abc"));
    assert!(!wg::byteops::bytes_lt(b"abc", b"abc"));
}
