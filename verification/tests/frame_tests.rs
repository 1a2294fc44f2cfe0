use shadow_tls::frame::{read_all, step_error, FrameError, FrameReader};
use shadow_tls::record::{
    read_record, to_wire, ReadStep, Record, CONTENT_ALERT, CONTENT_APPLICATION_DATA,
    CONTENT_HANDSHAKE, MAX_RECORD_BODY,
};

fn wire(content_type: u8, payload: &[u8]) -> Vec<u8> {
    let mut v = vec![
        content_type,
        3,
        3,
        (payload.len() / 256) as u8,
        (payload.len() % 256) as u8,
    ];
    v.extend_from_slice(payload);
    v
}

#[test]
fn single_record_parses() {
    let buf = wire(CONTENT_HANDSHAKE, &[1, 2, 3, 4]);
    match read_record(&buf, 0) {
        ReadStep::Complete(rec) => {
            assert_eq!(rec.content_type, CONTENT_HANDSHAKE);
            assert_eq!(rec.version_major, 3);
            assert_eq!(rec.version_minor, 3);
            assert_eq!(rec.payload, vec![1, 2, 3, 4]);
            assert_eq!(to_wire(&rec), buf);
        }
        _ => panic!("expected a complete record"),
    }
}

#[test]
fn consumed_prefix_equals_concatenated_records() {
    let w1 = wire(CONTENT_HANDSHAKE, &[9; 100]);
    let w2 = wire(CONTENT_ALERT, &[2, 40]);
    let mut buf = Vec::new();
    buf.extend_from_slice(&w1);
    buf.extend_from_slice(&w2);
    // a dangling partial header
    buf.extend_from_slice(&[CONTENT_APPLICATION_DATA, 3]);

    let out = read_all(&buf);
    assert_eq!(out.records.len(), 2);
    assert!(!out.oversized);
    assert_eq!(out.consumed, w1.len() + w2.len());
    let mut concat = Vec::new();
    for r in &out.records {
        concat.extend_from_slice(&to_wire(r));
    }
    assert_eq!(concat, buf[..out.consumed].to_vec());
}

#[test]
fn max_size_record_succeeds() {
    let payload = vec![0x5a; MAX_RECORD_BODY];
    let buf = wire(CONTENT_APPLICATION_DATA, &payload);
    match read_record(&buf, 0) {
        ReadStep::Complete(rec) => assert_eq!(rec.payload.len(), MAX_RECORD_BODY),
        _ => panic!("a record at the size bound must parse"),
    }
}

#[test]
fn oversized_record_rejected() {
    // declares MAX_RECORD_BODY + 1 == 0x4801 bytes
    let buf = vec![CONTENT_APPLICATION_DATA, 3, 3, 0x48, 0x01];
    match read_record(&buf, 0) {
        ReadStep::Oversized => {}
        _ => panic!("one byte over the bound must be rejected"),
    }
    let step = read_record(&buf, 0);
    assert_eq!(step_error(&step), Some(FrameError::OversizedRecord));
}

#[test]
fn incremental_reader_crosses_chunk_boundaries() {
    let w = wire(CONTENT_HANDSHAKE, &[7; 300]);
    let mut reader = FrameReader::new();
    reader.feed(&w[..3].to_vec());
    assert!(matches!(reader.try_next(), ReadStep::NeedMore));
    reader.feed(&w[3..150].to_vec());
    assert!(matches!(reader.try_next(), ReadStep::NeedMore));
    assert_eq!(reader.eof_status(), Some(FrameError::UnexpectedEof));
    reader.feed(&w[150..].to_vec());
    match reader.try_next() {
        ReadStep::Complete(rec) => {
            assert_eq!(rec.payload, vec![7; 300]);
            assert_eq!(to_wire(&rec), w);
        }
        _ => panic!("expected a complete record"),
    }
    assert!(matches!(reader.try_next(), ReadStep::NeedMore));
    assert_eq!(reader.eof_status(), None);
}

#[test]
fn reader_keeps_bytes_past_one_record() {
    let w1 = wire(CONTENT_HANDSHAKE, &[1]);
    let w2 = wire(CONTENT_HANDSHAKE, &[2]);
    let mut both = w1.clone();
    both.extend_from_slice(&w2);
    let mut reader = FrameReader::new();
    reader.feed(&both);
    match reader.try_next() {
        ReadStep::Complete(rec) => assert_eq!(rec.payload, vec![1]),
        _ => panic!("first record must parse"),
    }
    match reader.try_next() {
        ReadStep::Complete(rec) => assert_eq!(rec.payload, vec![2]),
        _ => panic!("second record must parse"),
    }
}

#[test]
fn random_garbage_never_panics() {
    // 16 bytes that are not a complete record: the header declares more
    // than is present (or an oversized body); either way no panic.
    let garbage: Vec<u8> = vec![
        0x8f, 0x2a, 0xd1, 0x07, 0x66, 0x3c, 0x91, 0x05, 0xee, 0x10, 0x72, 0x4b, 0x01, 0xfe,
        0xa3, 0x5d,
    ];
    let out = read_all(&garbage);
    assert!(out.records.is_empty() || out.consumed <= garbage.len());
    let mut reader = FrameReader::new();
    reader.feed(&garbage);
    let _ = reader.try_next();
}
