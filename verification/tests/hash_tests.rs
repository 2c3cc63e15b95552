//! Hash tests: deterministic fixed-length SHA-256 digests and the hex form
//! in which callers supply expected hashes.

use fastcrypto::encoding::Encoding;
use fastcrypto::encoding::Hex;
use sha2::Digest;
use sha2::Sha256;

#[test]
fn test_dataset_hash_computation() {
    // SHA256 hash computation on realistic dataset content.
    let test_data = b"id,label,value\n1,dog,100\n2,cat,200\n3,bird,150";

    let mut hasher = Sha256::new();
    hasher.update(test_data);
    let hash_result = hasher.finalize();
    let dataset_hash = hash_result.to_vec();

    assert_eq!(dataset_hash.len(), 32, "SHA256 should produce 32 bytes");

    // Deterministic: same input, same output.
    let mut hasher2 = Sha256::new();
    hasher2.update(test_data);
    let hash_result2 = hasher2.finalize();
    let dataset_hash2 = hash_result2.to_vec();

    assert_eq!(dataset_hash, dataset_hash2, "Hash should be deterministic");

    println!("Dataset hash: {}", Hex::encode(&dataset_hash));
}

#[test]
fn test_hash_comparison() {
    // Hash comparison logic: expected (hex round-trip) vs actual.
    let data = b"test dataset content";

    let mut hasher = Sha256::new();
    hasher.update(data);
    let actual_hash = hasher.finalize().to_vec();

    let expected_hex = hex::encode(&actual_hash);
    let decoded_expected = hex::decode(&expected_hex).expect("Should decode hex");

    assert_eq!(actual_hash, decoded_expected, "Hash comparison should match");
}

#[test]
fn test_multiple_hash_computations() {
    // Different data produces different hashes.
    let data1 = b"dataset A";
    let data2 = b"dataset B";

    let mut hasher1 = Sha256::new();
    hasher1.update(data1);
    let hash1 = hasher1.finalize().to_vec();

    let mut hasher2 = Sha256::new();
    hasher2.update(data2);
    let hash2 = hasher2.finalize().to_vec();

    assert_ne!(hash1, hash2, "Different data should produce different hashes");
}

#[test]
fn test_large_dataset_hash() {
    // Hashing of a larger dataset (simulate real-world size).
    let large_data: Vec<u8> = (0..10_000).map(|i| (i % 256) as u8).collect();

    let mut hasher = Sha256::new();
    hasher.update(&large_data);
    let hash_result = hasher.finalize();
    let dataset_hash = hash_result.to_vec();

    assert_eq!(dataset_hash.len(), 32, "Hash length should be consistent");
    println!("Large dataset (10KB) hash: {}", Hex::encode(&dataset_hash));
}
