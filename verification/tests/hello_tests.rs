use shadow_tls::crypto::{constant_time_eq, derive_key, RunningHmac};
use shadow_tls::hello::{
    check_hello_layout, forge_session_id, received_digest, verify_hello, SID_OFFSET,
};

fn hello_body() -> Vec<u8> {
    let mut b = vec![0u8; 120];
    b[0] = 0x01; // ClientHello
    b[38] = 32; // full session id
    for i in 39..71 {
        b[i] = 0xaa; // session id filler
    }
    for i in 71..120 {
        b[i] = (i % 251) as u8;
    }
    b
}

#[test]
fn sha256_key_derivation_matches_known_vector() {
    let key = derive_key(&b"abc".to_vec());
    let expected: Vec<u8> = vec![
        0xba, 0x78, 0x16, 0xbf, 0x8f, 0x01, 0xcf, 0xea, 0x41, 0x41, 0x40, 0xde, 0x5d, 0xae,
        0x22, 0x23, 0xb0, 0x03, 0x61, 0xa3, 0x96, 0x17, 0x7a, 0x9c, 0xb4, 0x10, 0xff, 0x61,
        0xf2, 0x00, 0x15, 0xad,
    ];
    assert_eq!(key, expected);
}

#[test]
fn hmac_sha1_matches_known_vector() {
    let mut mac = RunningHmac::new(vec![0x0b; 20]);
    mac.absorb(&b"Hi There".to_vec());
    let digest = mac.current_digest();
    let expected: Vec<u8> = vec![
        0xb6, 0x17, 0x31, 0x86, 0x55, 0x05, 0x72, 0x64, 0xe2, 0x8b, 0xc0, 0xb6, 0xfb, 0x37,
        0x8c, 0x8e, 0xf1, 0x46, 0xbe, 0x00,
    ];
    assert_eq!(digest, expected);
}

#[test]
fn running_hmac_absorbs_incrementally() {
    let key = derive_key(&b"password".to_vec());
    let mut one_shot = RunningHmac::new(key.clone());
    one_shot.absorb(&b"spliced handshake bytes".to_vec());

    let mut chunked = RunningHmac::new(key);
    chunked.absorb(&b"spliced ".to_vec());
    chunked.absorb(&b"handshake".to_vec());
    chunked.absorb(&b" bytes".to_vec());

    assert_eq!(one_shot.current_digest(), chunked.current_digest());
}

#[test]
fn running_hmac_reset_starts_over() {
    let key = derive_key(&b"password".to_vec());
    let mut a = RunningHmac::new(key.clone());
    a.absorb(&b"first".to_vec());
    a.reset();
    a.absorb(&b"second".to_vec());

    let mut b = RunningHmac::new(key);
    b.absorb(&b"second".to_vec());
    assert_eq!(a.current_digest(), b.current_digest());
}

#[test]
fn forged_hello_passes_server_check() {
    let key = derive_key(&b"shared secret".to_vec());
    let body = hello_body();
    let forged = forge_session_id(&key, &body);
    assert_eq!(forged.len(), body.len());
    assert!(verify_hello(&key, &forged));
    // only the 20 digest bytes moved
    for i in 0..body.len() {
        if i < SID_OFFSET || i >= SID_OFFSET + 20 {
            assert_eq!(forged[i], body[i]);
        }
    }
}

#[test]
fn unforged_hello_fails_server_check() {
    let key = derive_key(&b"shared secret".to_vec());
    let body = hello_body();
    assert!(!verify_hello(&key, &body));
}

#[test]
fn wrong_key_fails_server_check() {
    let key = derive_key(&b"right".to_vec());
    let other = derive_key(&b"wrong".to_vec());
    let forged = forge_session_id(&key, &hello_body());
    assert!(verify_hello(&key, &forged));
    assert!(!verify_hello(&other, &forged));
}

#[test]
fn single_bit_flip_in_digest_fails() {
    let key = derive_key(&b"shared secret".to_vec());
    let mut forged = forge_session_id(&key, &hello_body());
    forged[SID_OFFSET + 7] ^= 0x01;
    assert!(!verify_hello(&key, &forged));
}

#[test]
fn short_session_id_degrades_layout() {
    let mut body = hello_body();
    body[38] = 16; // session id not 32 bytes
    assert!(!check_hello_layout(&body));
    let key = derive_key(&b"shared secret".to_vec());
    assert!(!verify_hello(&key, &body));
}

#[test]
fn truncated_hello_degrades_layout() {
    let body = vec![0x01u8; 40];
    assert!(!check_hello_layout(&body));
}

#[test]
fn constant_time_eq_agrees_with_equality() {
    assert!(constant_time_eq(&vec![1, 2, 3], &vec![1, 2, 3]));
    assert!(!constant_time_eq(&vec![1, 2, 3], &vec![1, 2, 4]));
    assert!(!constant_time_eq(&vec![1, 2, 3], &vec![1, 2]));
    assert!(constant_time_eq(&Vec::new(), &Vec::new()));
    let digest = received_digest(&forge_session_id(
        &derive_key(&b"k".to_vec()),
        &hello_body(),
    ));
    assert_eq!(digest.len(), 20);
}
