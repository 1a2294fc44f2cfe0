use shadow_tls::crypto::derive_key;
use shadow_tls::forger::{extract_app_payloads, frame_app_data, Forger, ForgerState};
use shadow_tls::hello::verify_hello;
use shadow_tls::opts::Opts;
use shadow_tls::record::{Record, CONTENT_ALERT, CONTENT_APPLICATION_DATA, CONTENT_HANDSHAKE};

fn rec(content_type: u8, payload: Vec<u8>) -> Record {
    Record { content_type, version_major: 3, version_minor: 3, payload }
}

fn hello_body() -> Vec<u8> {
    let mut b = vec![0u8; 120];
    b[0] = 0x01;
    b[38] = 32;
    for i in 39..71 {
        b[i] = 0xaa;
    }
    b
}

#[test]
fn empty_write_frames_no_record() {
    assert!(frame_app_data(&Vec::new()).is_empty());
}

#[test]
fn small_write_frames_one_record() {
    let recs = frame_app_data(&b"hello\n".to_vec());
    assert_eq!(recs.len(), 1);
    assert_eq!(recs[0].content_type, CONTENT_APPLICATION_DATA);
    assert_eq!(recs[0].version_major, 3);
    assert_eq!(recs[0].version_minor, 3);
    assert_eq!(recs[0].payload, b"hello\n".to_vec());
}

#[test]
fn sixteen_kib_write_frames_exactly_one_record() {
    let data = vec![0x77u8; 16384];
    let recs = frame_app_data(&data);
    assert_eq!(recs.len(), 1);
    assert_eq!(recs[0].payload.len(), 16384);
}

#[test]
fn oversize_write_fragments_at_the_boundary() {
    let data = vec![0x77u8; 16385];
    let recs = frame_app_data(&data);
    assert_eq!(recs.len(), 2);
    assert_eq!(recs[0].payload.len(), 16384);
    assert_eq!(recs[1].payload.len(), 1);
}

#[test]
fn round_trip_of_one_mebibyte() {
    let mut data = Vec::with_capacity(1 << 20);
    for i in 0..(1usize << 20) {
        data.push((i * 31 + i / 257) as u8);
    }
    let recs = frame_app_data(&data);
    assert_eq!(recs.len(), 64);
    let back = extract_app_payloads(&recs);
    assert_eq!(back, data);
}

#[test]
fn non_app_records_are_discarded_on_ingress() {
    let recs = vec![
        rec(CONTENT_APPLICATION_DATA, b"ab".to_vec()),
        rec(CONTENT_ALERT, vec![1, 0]),
        rec(CONTENT_HANDSHAKE, vec![0x04, 0, 0, 0]),
        rec(CONTENT_APPLICATION_DATA, b"cd".to_vec()),
    ];
    assert_eq!(extract_app_payloads(&recs), b"abcd".to_vec());
}

#[test]
fn many_connections_do_not_mix_bytes() {
    // analogue of concurrent load: many independent connections, each
    // with its own pattern, each round-tripping byte-exactly
    for conn in 0..128u32 {
        let mut data = Vec::with_capacity(16384);
        for i in 0..16384u32 {
            data.push((i.wrapping_mul(2654435761).wrapping_add(conn * 97) >> 8) as u8);
        }
        let back = extract_app_payloads(&frame_app_data(&data));
        assert_eq!(back, data);
    }
}

#[test]
fn forger_patches_outbound_client_hello() {
    let key = derive_key(&b"secret".to_vec());
    let mut f = Forger::new(key.clone());
    assert_eq!(f.state, ForgerState::Init);
    f.start_handshake();
    assert_eq!(f.state, ForgerState::Handshaking);

    let ch = rec(CONTENT_HANDSHAKE, hello_body());
    let patched = f.process_outgoing(ch);
    assert_eq!(patched.content_type, CONTENT_HANDSHAKE);
    assert!(verify_hello(&key, &patched.payload));

    f.handshake_done();
    assert_eq!(f.state, ForgerState::Relaying);
    f.close();
    assert_eq!(f.state, ForgerState::Closed);
}

#[test]
fn forger_passes_other_records_unchanged() {
    let key = derive_key(&b"secret".to_vec());
    let mut f = Forger::new(key);
    f.start_handshake();
    let ccs = rec(0x14, vec![1]);
    let out = f.process_outgoing(ccs);
    assert_eq!(out.content_type, 0x14);
    assert_eq!(out.payload, vec![1]);
    // a handshake record that is not a ClientHello is also untouched
    let cert = rec(CONTENT_HANDSHAKE, vec![0x0b, 0, 0, 1, 0]);
    let out = f.process_outgoing(cert);
    assert_eq!(out.payload, vec![0x0b, 0, 0, 1, 0]);
}

#[test]
fn parallelism_prefers_fixed_thread_count() {
    let fixed = Opts { threads: Some(3), nodelay: false };
    assert_eq!(fixed.parallelism(Some(8)), 3);
    let auto = Opts { threads: None, nodelay: true };
    assert_eq!(auto.parallelism(Some(8)), 8);
    assert_eq!(auto.parallelism(None), 1);
    let d = Opts::default();
    assert!(d.threads.is_none());
    assert!(!d.nodelay);
}
