use nayud_batch::replication::Outbox;
use nayud_batch::replication::OutboxRecord;
use nayud_batch::replication::OutboxTarget;

fn sample_record() -> OutboxRecord {
    OutboxRecord {
        idempotency_key: "order-42".to_string(),
        statement: "INSERT INTO ks.t (id) VALUES (42)".to_string(),
        params: vec![vec![1, 2, 3], vec![], vec![255]],
        target: OutboxTarget::Both,
        created_ms: 1700000000123,
    }
}

#[test]
fn decode_encode_roundtrip() {
    let rec = sample_record();
    let payload = rec.encode();
    let back = OutboxRecord::decode(payload.as_slice()).expect("payload should decode");
    assert_eq!(back.idempotency_key, rec.idempotency_key);
    assert_eq!(back.statement, rec.statement);
    assert_eq!(back.params, rec.params);
    assert!(matches!(back.target, OutboxTarget::Both));
    assert_eq!(back.created_ms, rec.created_ms);
}

#[test]
fn decode_encode_roundtrip_unicode_key() {
    let mut rec = sample_record();
    rec.idempotency_key = "clé-κλειδί-鍵".to_string();
    rec.target = OutboxTarget::Passive;
    let payload = rec.encode();
    let back = OutboxRecord::decode(payload.as_slice()).expect("payload should decode");
    assert_eq!(back.idempotency_key, rec.idempotency_key);
    assert!(matches!(back.target, OutboxTarget::Passive));
}

#[test]
fn decode_rejects_malformed_payloads() {
    // Too short for the fixed head.
    assert!(OutboxRecord::decode(&[0u8; 8]).is_none());
    // Unknown target tag (9th byte).
    let mut bad_tag = vec![0u8; 9];
    bad_tag[8] = 7;
    assert!(OutboxRecord::decode(bad_tag.as_slice()).is_none());
    // Valid tag but a key length pointing past the end.
    let mut short_key = vec![0u8; 11];
    short_key[8] = 1;
    short_key[9] = 200;
    assert!(OutboxRecord::decode(short_key.as_slice()).is_none());
    // Key bytes that are not UTF-8.
    let mut bad_utf8 = vec![0u8; 12];
    bad_utf8[8] = 1;
    bad_utf8[9] = 1; // key length 1
    bad_utf8[11] = 0xFF; // invalid UTF-8 byte
    assert!(OutboxRecord::decode(bad_utf8.as_slice()).is_none());
}

#[test]
fn fsync_mode_is_carried() {
    let ob = Outbox::new(false);
    assert!(!ob.fsync_enabled());
    let ob = ob.with_fsync(true);
    assert!(ob.fsync_enabled());
    assert_eq!(ob.load_cursor(), 0);
    assert_eq!(ob.end_offset(), 0);
}

#[test]
fn single_frame_reads_back() {
    let mut ob = Outbox::new(true);
    let rec = sample_record();
    let end = ob.append(rec.clone(), 0).expect("append should accept the record");
    assert_eq!(end, ob.end_offset());

    let frames = ob.read_from(0, 1);
    assert_eq!(frames.len(), 1);
    let (start, fend, back) = &frames[0];
    assert_eq!(*start, 0);
    assert_eq!(*fend, end);
    assert_eq!(back.idempotency_key, rec.idempotency_key);
    assert_eq!(back.statement, rec.statement);
    assert_eq!(back.params, rec.params);
    assert_eq!(back.created_ms, rec.created_ms);
}

#[test]
fn frame_header_layout() {
    let mut ob = Outbox::new(false);
    let rec = sample_record();
    ob.append(rec.clone(), 0).unwrap();
    let bytes = ob.log_bytes();
    // magic 0x4E415944 little-endian, then version 1 as u16.
    assert_eq!(&bytes[0..4], &[0x44, 0x59, 0x41, 0x4E]);
    assert_eq!(&bytes[4..6], &[1, 0]);
    let plen =
        u32::from_le_bytes([bytes[6], bytes[7], bytes[8], bytes[9]]) as usize;
    assert_eq!(bytes.len(), 10 + plen);
    assert_eq!(&bytes[10..], rec.encode().as_slice());
}

#[test]
fn append_stamps_unset_creation_time() {
    let mut ob = Outbox::new(false);
    let mut rec = sample_record();
    rec.created_ms = 0;
    ob.append(rec, 777).unwrap();
    let frames = ob.read_from(0, 1);
    assert_eq!(frames[0].2.created_ms, 777);

    let mut rec2 = sample_record();
    rec2.created_ms = 555;
    ob.append(rec2, 777).unwrap();
    let frames = ob.read_from(0, 2);
    assert_eq!(frames[1].2.created_ms, 555);
}

#[test]
fn append_rejects_oversized_key() {
    let mut ob = Outbox::new(false);
    let mut rec = sample_record();
    rec.idempotency_key = "k".repeat(65536);
    let err = ob.append(rec, 0).unwrap_err();
    assert!(err.to_message().starts_with("Other: "));
    assert_eq!(ob.end_offset(), 0);

    // The largest admissible key still goes through.
    let mut rec2 = sample_record();
    rec2.idempotency_key = "k".repeat(65535);
    ob.append(rec2, 0).unwrap();
    assert_eq!(ob.read_from(0, 2).len(), 1);
}

#[test]
fn torn_tail_returns_prefix() {
    let mut ob = Outbox::new(true);
    ob.append(
        OutboxRecord::new_simple("k1", "INSERT INTO t1 ...", OutboxTarget::Active),
        1,
    )
    .unwrap();
    let first_end = ob.end_offset();
    ob.append(
        OutboxRecord::new_simple("k2", "INSERT INTO t2 ...", OutboxTarget::Passive),
        2,
    )
    .unwrap();
    let full = ob.read_from(0, 100);
    assert_eq!(full.len(), 2);

    let bytes = ob.log_bytes().clone();
    for k in 0..bytes.len() {
        let truncated: Vec<u8> = bytes[..k].to_vec();
        let tob = Outbox::from_parts(truncated, 0, true).expect("cursor 0 is always valid");
        let frames = tob.read_from(0, 100);
        let expect = if (k as u64) >= ob.end_offset() {
            2
        } else if (k as u64) >= first_end {
            1
        } else {
            0
        };
        assert_eq!(frames.len(), expect, "truncation at {} bytes", k);
        for (i, f) in frames.iter().enumerate() {
            assert_eq!(f.2.idempotency_key, full[i].2.idempotency_key);
            assert_eq!(f.2.statement, full[i].2.statement);
        }
    }
}

#[test]
fn frame_durable_after_tail_truncation() {
    let mut ob = Outbox::new(true);
    let end = ob
        .append(
            OutboxRecord::new_simple("k1", "INSERT INTO t ...", OutboxTarget::Active),
            1,
        )
        .unwrap();
    ob.append(
        OutboxRecord::new_simple("k2", "INSERT INTO t ...", OutboxTarget::Active),
        2,
    )
    .unwrap();
    let bytes = ob.log_bytes().clone();
    for k in end..=ob.end_offset() {
        let truncated: Vec<u8> = bytes[..k as usize].to_vec();
        let tob = Outbox::from_parts(truncated, 0, true).unwrap();
        let frames = tob.read_from(0, 100);
        assert!(!frames.is_empty(), "first record must survive truncation at {}", k);
        assert_eq!(frames[0].2.idempotency_key, "k1");
    }
}

#[test]
fn reader_stops_at_bad_magic() {
    let mut ob = Outbox::new(false);
    ob.append(
        OutboxRecord::new_simple("k1", "INSERT INTO t ...", OutboxTarget::Active),
        1,
    )
    .unwrap();
    let mut bytes = ob.log_bytes().clone();
    let end = bytes.len();
    // A second, corrupt header after the good frame.
    bytes.extend_from_slice(&[0u8; 10]);
    let tob = Outbox::from_parts(bytes, 0, false).unwrap();
    let frames = tob.read_from(0, 100);
    assert_eq!(frames.len(), 1);
    assert_eq!(frames[0].1, end as u64);
    assert_eq!(tob.pending_count(), 1);
}
