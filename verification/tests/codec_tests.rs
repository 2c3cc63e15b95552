//! Canonical-codec tests: determinism, sensitivity, discriminant stability,
//! round-trips, and byte-compatibility with the BCS form the external
//! verifier decodes.

use fastcrypto::encoding::Encoding;
use fastcrypto::encoding::Hex;
use sealtrust_nautilus::codec::decode_dataset_verification;
use sealtrust_nautilus::codec::decode_intent_message;
use sealtrust_nautilus::codec::encode_dataset_verification;
use sealtrust_nautilus::codec::encode_intent_message;
use sealtrust_nautilus::codec::encode_intent_scope;
use sealtrust_nautilus::DatasetVerification;
use sealtrust_nautilus::IntentMessage;
use sealtrust_nautilus::IntentScope;

#[test]
fn test_serde() {
    // Serialization must be consistent with the external verifier's decoder.
    let payload = DatasetVerification {
        dataset_id: b"test-123".to_vec(),
        name: b"test.csv".to_vec(),
        description: b"Test dataset".to_vec(),
        format: b"CSV".to_vec(),
        size: 1024,
        original_hash: b"abc123".to_vec(),
        walrus_blob_id: b"blob-123".to_vec(),
        seal_policy_id: b"policy-123".to_vec(),
        timestamp: 1700000000000,
        uploader: b"0xA".to_vec(),
    };
    let timestamp = 1700000000000;
    let intent_msg = IntentMessage::new(payload, timestamp, IntentScope::ProcessData);
    let signing_payload = encode_intent_message(&intent_msg);
    println!("Rust BCS bytes: {}", Hex::encode(&signing_payload));

    assert!(!signing_payload.is_empty(), "BCS payload should not be empty");
}

#[test]
fn test_dataset_verification_bcs_serialization() {
    let verification = DatasetVerification {
        dataset_id: b"test-456".to_vec(),
        name: b"example.csv".to_vec(),
        description: b"Example dataset".to_vec(),
        format: b"CSV".to_vec(),
        size: 2048,
        original_hash: vec![0xAA, 0xBB, 0xCC, 0xDD],
        walrus_blob_id: b"walrus-blob-456".to_vec(),
        seal_policy_id: b"seal-policy-456".to_vec(),
        timestamp: 1234567890000,
        uploader: b"0xB".to_vec(),
    };

    let bytes = encode_dataset_verification(&verification);

    let deserialized: DatasetVerification =
        decode_dataset_verification(&bytes).expect("BCS deserialization should succeed");

    assert_eq!(verification.dataset_id, deserialized.dataset_id);
    assert_eq!(verification.name, deserialized.name);
    assert_eq!(verification.description, deserialized.description);
    assert_eq!(verification.original_hash, deserialized.original_hash);
    assert_eq!(verification.walrus_blob_id, deserialized.walrus_blob_id);
    assert_eq!(verification.seal_policy_id, deserialized.seal_policy_id);
    assert_eq!(verification.format, deserialized.format);
    assert_eq!(verification.size, deserialized.size);
    assert_eq!(verification.timestamp, deserialized.timestamp);
    assert_eq!(verification.uploader, deserialized.uploader);
}

#[test]
fn test_intent_message_structure() {
    let payload = DatasetVerification {
        dataset_id: b"test-789".to_vec(),
        name: b"data.json".to_vec(),
        description: b"Test JSON dataset".to_vec(),
        format: b"JSON".to_vec(),
        size: 4096,
        original_hash: vec![0x11, 0x22, 0x33, 0x44],
        walrus_blob_id: b"walrus-789".to_vec(),
        seal_policy_id: b"seal-789".to_vec(),
        timestamp: 1700000000000,
        uploader: b"0xC".to_vec(),
    };

    let timestamp = 1700000000000;
    let intent_msg = IntentMessage::new(payload.clone(), timestamp, IntentScope::ProcessData);

    assert_eq!(intent_msg.timestamp_ms, timestamp);
    assert_eq!(intent_msg.data.original_hash, payload.original_hash);

    let bytes1 = encode_intent_message(&intent_msg);
    let bytes2 = encode_intent_message(&intent_msg);

    assert_eq!(bytes1, bytes2, "Serialization should be deterministic");
}

#[test]
fn test_bcs_encoding_consistency() {
    let verification1 = DatasetVerification {
        dataset_id: b"consistent-test".to_vec(),
        name: b"data.csv".to_vec(),
        description: b"Consistency test".to_vec(),
        format: b"CSV".to_vec(),
        size: 9999,
        original_hash: vec![0xDE, 0xAD, 0xBE, 0xEF],
        walrus_blob_id: b"walrus-consistent".to_vec(),
        seal_policy_id: b"seal-consistent".to_vec(),
        timestamp: 9999999999999,
        uploader: b"0xDEADBEEF".to_vec(),
    };

    let verification2 = DatasetVerification {
        dataset_id: b"consistent-test".to_vec(),
        name: b"data.csv".to_vec(),
        description: b"Consistency test".to_vec(),
        format: b"CSV".to_vec(),
        size: 9999,
        original_hash: vec![0xDE, 0xAD, 0xBE, 0xEF],
        walrus_blob_id: b"walrus-consistent".to_vec(),
        seal_policy_id: b"seal-consistent".to_vec(),
        timestamp: 9999999999999,
        uploader: b"0xDEADBEEF".to_vec(),
    };

    let bytes1 = encode_dataset_verification(&verification1);
    let bytes2 = encode_dataset_verification(&verification2);

    assert_eq!(bytes1, bytes2, "Identical structs should produce identical BCS");
}

#[test]
fn test_timestamp_handling() {
    let base_verification = DatasetVerification {
        dataset_id: b"timestamp-test".to_vec(),
        name: b"data.csv".to_vec(),
        description: b"Timestamp test".to_vec(),
        format: b"CSV".to_vec(),
        size: 1000,
        original_hash: vec![0xFF],
        walrus_blob_id: b"walrus-ts".to_vec(),
        seal_policy_id: b"seal-ts".to_vec(),
        timestamp: 1000,
        uploader: b"0xFF".to_vec(),
    };

    let different_timestamp = DatasetVerification { timestamp: 2000, ..base_verification.clone() };

    let bytes1 = encode_dataset_verification(&base_verification);
    let bytes2 = encode_dataset_verification(&different_timestamp);

    assert_ne!(bytes1, bytes2, "Different timestamps should produce different BCS");
}

#[test]
fn test_intent_scope_serialization() {
    let scope = IntentScope::ProcessData;
    let bytes = encode_intent_scope(scope);

    assert_eq!(bytes, vec![0x00], "ProcessData should serialize to 0x00");
}

fn sample_payload() -> DatasetVerification {
    DatasetVerification {
        dataset_id: b"sample-id".to_vec(),
        name: b"sample.csv".to_vec(),
        description: b"A sample".to_vec(),
        format: b"CSV".to_vec(),
        size: 7,
        original_hash: vec![0x01, 0x02, 0x03],
        walrus_blob_id: b"blob".to_vec(),
        seal_policy_id: b"policy".to_vec(),
        timestamp: 42,
        uploader: b"0x1".to_vec(),
    }
}

#[test]
fn test_encoding_matches_bcs_crate() {
    // The payload encoding must byte-match real BCS: a struct encodes as the
    // concatenation of its fields, which a tuple of the same field values
    // reproduces without needing derives on the library type.
    let p = sample_payload();
    let as_tuple = (
        p.dataset_id.clone(),
        p.name.clone(),
        p.description.clone(),
        p.format.clone(),
        p.size,
        p.original_hash.clone(),
        p.walrus_blob_id.clone(),
        p.seal_policy_id.clone(),
        p.timestamp,
        p.uploader.clone(),
    );
    let reference = bcs::to_bytes(&as_tuple).expect("bcs should serialize the tuple");
    assert_eq!(encode_dataset_verification(&p), reference);
}

#[test]
fn test_envelope_encoding_matches_bcs_crate() {
    // The envelope adds the scope byte and the little-endian timestamp in
    // front, exactly as BCS encodes a (u8, u64, payload) tuple.
    let p = sample_payload();
    let as_tuple = (
        0u8,
        1700000000000u64,
        (
            p.dataset_id.clone(),
            p.name.clone(),
            p.description.clone(),
            p.format.clone(),
            p.size,
            p.original_hash.clone(),
            p.walrus_blob_id.clone(),
            p.seal_policy_id.clone(),
            p.timestamp,
            p.uploader.clone(),
        ),
    );
    let reference = bcs::to_bytes(&as_tuple).expect("bcs should serialize the tuple");
    let msg = IntentMessage::new(p, 1700000000000, IntentScope::ProcessData);
    assert_eq!(encode_intent_message(&msg), reference);
}

#[test]
fn test_encoding_sensitive_to_each_field() {
    // Changing any single field changes the encoded output.
    let base = sample_payload();
    let encoded_base = encode_dataset_verification(&base);

    let variants = vec![
        DatasetVerification { dataset_id: b"other-id".to_vec(), ..base.clone() },
        DatasetVerification { name: b"other.csv".to_vec(), ..base.clone() },
        DatasetVerification { description: b"Another".to_vec(), ..base.clone() },
        DatasetVerification { format: b"JSON".to_vec(), ..base.clone() },
        DatasetVerification { size: 8, ..base.clone() },
        DatasetVerification { original_hash: vec![0x01, 0x02, 0x04], ..base.clone() },
        DatasetVerification { walrus_blob_id: b"blob2".to_vec(), ..base.clone() },
        DatasetVerification { seal_policy_id: b"policy2".to_vec(), ..base.clone() },
        DatasetVerification { timestamp: 43, ..base.clone() },
        DatasetVerification { uploader: b"0x2".to_vec(), ..base.clone() },
    ];
    for variant in variants {
        assert_ne!(encode_dataset_verification(&variant), encoded_base);
    }

    let msg = IntentMessage::new(base.clone(), 42, IntentScope::ProcessData);
    let msg_other_ts = IntentMessage::new(base, 43, IntentScope::ProcessData);
    assert_ne!(encode_intent_message(&msg), encode_intent_message(&msg_other_ts));
}

#[test]
fn test_envelope_round_trip_example() {
    // A fixed example: hash bytes and a URL-derived name, wrapped with scope
    // 0x00 and a fixed timestamp, must encode non-empty and decode back to
    // an identical envelope.
    let payload = DatasetVerification {
        dataset_id: b"example".to_vec(),
        name: b"https://datasets.example.com/data.csv".to_vec(),
        description: b"v1.0".to_vec(),
        format: b"CSV".to_vec(),
        size: 4,
        original_hash: vec![0x12, 0x34, 0x56, 0x78],
        walrus_blob_id: b"blob".to_vec(),
        seal_policy_id: b"policy".to_vec(),
        timestamp: 1700000000000,
        uploader: b"0xA".to_vec(),
    };
    let msg = IntentMessage::new(payload, 1700000000000, IntentScope::ProcessData);
    let encoded = encode_intent_message(&msg);
    assert!(!encoded.is_empty());
    let decoded = decode_intent_message(&encoded).expect("canonical encoding should decode");
    assert_eq!(decoded, msg);
}

#[test]
fn test_round_trip_empty_fields() {
    // Empty byte strings are legal at the codec level (validation is a
    // separate concern) and must round-trip too.
    let payload = DatasetVerification {
        dataset_id: Vec::new(),
        name: Vec::new(),
        description: Vec::new(),
        format: Vec::new(),
        size: 0,
        original_hash: Vec::new(),
        walrus_blob_id: Vec::new(),
        seal_policy_id: Vec::new(),
        timestamp: 0,
        uploader: Vec::new(),
    };
    let encoded = encode_dataset_verification(&payload);
    let decoded = decode_dataset_verification(&encoded).expect("should decode");
    assert_eq!(decoded, payload);
}

#[test]
fn test_round_trip_long_field() {
    // A field longer than 127 bytes exercises the multi-byte length prefix.
    let payload = DatasetVerification {
        description: vec![0xAB; 300],
        ..sample_payload()
    };
    let encoded = encode_dataset_verification(&payload);
    let decoded = decode_dataset_verification(&encoded).expect("should decode");
    assert_eq!(decoded, payload);

    let reference = bcs::to_bytes(&(
        payload.dataset_id.clone(),
        payload.name.clone(),
        payload.description.clone(),
        payload.format.clone(),
        payload.size,
        payload.original_hash.clone(),
        payload.walrus_blob_id.clone(),
        payload.seal_policy_id.clone(),
        payload.timestamp,
        payload.uploader.clone(),
    ))
    .expect("bcs should serialize the tuple");
    assert_eq!(encoded, reference);
}

#[test]
fn test_decode_rejects_malformed_input() {
    // Empty input, a foreign scope byte, truncation, trailing garbage and a
    // non-minimal length prefix are all rejected.
    assert!(decode_intent_message(&Vec::new()).is_none());

    let msg = IntentMessage::new(sample_payload(), 42, IntentScope::ProcessData);
    let good = encode_intent_message(&msg);

    let mut wrong_scope = good.clone();
    wrong_scope[0] = 0x01;
    assert!(decode_intent_message(&wrong_scope).is_none());

    let truncated = good[..good.len() - 1].to_vec();
    assert!(decode_intent_message(&truncated).is_none());

    let mut trailing = good.clone();
    trailing.push(0x00);
    assert!(decode_intent_message(&trailing).is_none());

    // `0x80 0x00` spells length zero non-minimally; the canonical decoder
    // must refuse it even though the raw bytes that follow are fine.
    let mut non_minimal = vec![0x80, 0x00];
    let canonical_empty = encode_dataset_verification(&DatasetVerification {
        dataset_id: Vec::new(),
        name: Vec::new(),
        description: Vec::new(),
        format: Vec::new(),
        size: 0,
        original_hash: Vec::new(),
        walrus_blob_id: Vec::new(),
        seal_policy_id: Vec::new(),
        timestamp: 0,
        uploader: Vec::new(),
    });
    non_minimal.extend_from_slice(&canonical_empty[1..]);
    assert!(decode_dataset_verification(&non_minimal).is_none());
}
