use edrferd::chunk::{Chunk, ChunkData, VERSION};
use edrferd::data_struct::{Block, BlockInfo, BlockPoint};
use edrferd::hash::Hash256;
use edrferd::key::Identity;
use edrferd::mining::{budget_placeholder, mine_for_duration, mine_to_target, BUDGET_PLACEHOLDER_SEED};
use edrferd::receive::{
    accept_chunk, check_chunk, payload_size_ok, timestamp_fresh, Rejection, FRESHNESS_WINDOW_MS,
    MAX_PAYLOAD_BYTES,
};

fn block(x: i64, y: i64, z: i64, ty: &str) -> Block {
    Block::new(BlockPoint::new(x, y, z), BlockInfo::new(ty.to_string()))
}

fn data(key: &Identity, ty: &str, ts: i64, nonce: u64) -> ChunkData {
    ChunkData::new(
        Hash256 { bytes: [0xff; 32] },
        block(1, 2, 3, ty),
        "salt".to_string(),
        nonce,
        key.verifying_key(),
        ts,
    )
}

#[test]
fn payload_data_fields() {
    let key = Identity::from_seed([1u8; 32]);
    let d = data(&key, "t1", 1000, 9);
    assert_eq!(d.version, VERSION);
    assert_eq!(d.nonce, 9);
    assert_eq!(d.timestamp, 1000);
    assert_eq!(d.pub_key.bytes, key.verifying_key().bytes);
}

#[test]
fn encoding_layout() {
    let key = Identity::from_seed([1u8; 32]);
    let d = data(&key, "t1", -2, 258);
    let bytes = d.encode();
    let mut expected: Vec<u8> = Vec::new();
    expected.extend_from_slice(&5u64.to_be_bytes());
    expected.extend_from_slice(VERSION.as_bytes());
    expected.extend_from_slice(&[0xff; 32]);
    expected.extend_from_slice(&1i64.to_be_bytes());
    expected.extend_from_slice(&2i64.to_be_bytes());
    expected.extend_from_slice(&3i64.to_be_bytes());
    expected.extend_from_slice(&2u64.to_be_bytes());
    expected.extend_from_slice(b"t1");
    expected.extend_from_slice(&(-2i64).to_be_bytes());
    expected.extend_from_slice(&key.verifying_key().bytes);
    expected.extend_from_slice(&4u64.to_be_bytes());
    expected.extend_from_slice(b"salt");
    expected.extend_from_slice(&258u64.to_be_bytes());
    assert_eq!(bytes, expected);
}

#[test]
fn encoding_distinguishes_fields() {
    let key = Identity::from_seed([1u8; 32]);
    let a = data(&key, "ab", 5, 0).encode();
    let b = data(&key, "a", 5, 0).encode();
    let c = data(&key, "ab", 6, 0).encode();
    let d = data(&key, "ab", 5, 1).encode();
    assert_ne!(a, b);
    assert_ne!(a, c);
    assert_ne!(a, d);
    assert_eq!(a, data(&key, "ab", 5, 0).encode());
}

#[test]
fn pow_is_blake3_of_encoding() {
    let key = Identity::from_seed([1u8; 32]);
    let d = data(&key, "t1", 5, 0);
    assert_eq!(d.pow().bytes, *blake3::hash(&d.encode()).as_bytes());
}

#[test]
fn signed_chunk_verifies() {
    let key = Identity::from_seed([1u8; 32]);
    let c = Chunk::new(data(&key, "t1", 5, 0), &key);
    assert!(c.verify_pow());
    assert!(c.verify_sign());
}

#[test]
fn signature_under_other_key_fails() {
    let key = Identity::from_seed([1u8; 32]);
    let other = Identity::from_seed([2u8; 32]);
    let c = Chunk::new(data(&other, "t1", 5, 0), &key);
    assert!(c.verify_pow());
    assert!(!c.verify_sign());
}

#[test]
fn tampered_payload_fails_checks() {
    let key = Identity::from_seed([1u8; 32]);
    let c = Chunk::new(data(&key, "t1", 5, 0), &key);
    let forged = Chunk::new_from_raw(data(&key, "t2", 5, 0), c.pow, c.sign);
    assert!(!forged.verify_pow());
    assert!(!forged.verify_sign());
}

#[test]
fn freshness_boundary() {
    assert!(timestamp_fresh(0, FRESHNESS_WINDOW_MS));
    assert!(timestamp_fresh(FRESHNESS_WINDOW_MS, 0));
    assert!(!timestamp_fresh(0, FRESHNESS_WINDOW_MS + 1));
    assert!(!timestamp_fresh(FRESHNESS_WINDOW_MS + 1, 0));
    assert!(timestamp_fresh(i64::MIN, i64::MIN));
    assert!(!timestamp_fresh(i64::MIN, i64::MAX));
}

#[test]
fn payload_size_boundary() {
    assert!(payload_size_ok(MAX_PAYLOAD_BYTES));
    assert!(payload_size_ok(1024 * 1024));
    assert!(!payload_size_ok(1024 * 1024 + 1));
}

#[test]
fn check_chunk_reports_each_rejection() {
    let key = Identity::from_seed([1u8; 32]);
    let now = 1_000_000;
    let good = Chunk::new(data(&key, "t1", now - 120_000, 0), &key);
    assert_eq!(check_chunk(&good, now), Ok(()));
    let stale = Chunk::new(data(&key, "t1", now - 120_001, 0), &key);
    assert_eq!(check_chunk(&stale, now), Err(Rejection::Stale));
    let other = Identity::from_seed([3u8; 32]);
    let badsig = Chunk::new(data(&other, "t1", now, 0), &key);
    assert_eq!(check_chunk(&badsig, now), Err(Rejection::BadSignature));
    let mut wrong_pow = good.pow;
    wrong_pow.bytes[0] ^= 1;
    let d = data(&key, "t1", now, 0);
    let sign_hash = Chunk::hash_data_for_sign(&wrong_pow, &d);
    let sign = key.sign(&sign_hash.bytes);
    let badpow = Chunk::new_from_raw(d, wrong_pow, sign);
    assert_eq!(check_chunk(&badpow, now), Err(Rejection::BadPow));
}

#[test]
fn accepted_chunk_carries_arrival_time() {
    let key = Identity::from_seed([1u8; 32]);
    let c = Chunk::new(data(&key, "t1", 500, 0), &key);
    let e = accept_chunk(c, 600).unwrap();
    assert_eq!(e.time, 600);
    assert_eq!(e.chunk.data.timestamp, 500);
}

#[test]
fn target_mode_meets_target() {
    let key = Identity::from_seed([4u8; 32]);
    let mut t = [0xff; 32];
    t[0] = 0x0f;
    let target = Hash256 { bytes: t };
    let c = mine_to_target(&key, &block(1, 2, 3, "t1"), &target, &"s".to_string()).0.unwrap();
    assert!(c.pow.bytes <= target.bytes);
    assert!(c.verify_pow());
    assert!(c.verify_sign());
    assert_eq!(c.data.prev_hash.bytes, target.bytes);
}

#[test]
fn budget_mode_zero_makes_one_attempt() {
    let key = Identity::from_seed([4u8; 32]);
    let c = mine_for_duration(&key, &block(0, 0, 0, "t1"), 0, &"s".to_string()).0.unwrap();
    assert_eq!(c.data.nonce, 0);
    assert!(c.verify_pow());
    assert!(c.verify_sign());
    assert_eq!(c.data.explanation.block_info.type_id, "t1");
}

#[test]
fn budget_mode_keeps_smallest_pow() {
    let key = Identity::from_seed([4u8; 32]);
    let c = mine_for_duration(&key, &block(0, 0, 0, "t1"), 5, &"s".to_string()).0.unwrap();
    assert!(c.verify_pow());
    assert!(c.verify_sign());
    assert_eq!(c.data.pub_key.bytes, key.verifying_key().bytes);
}

#[test]
fn decode_round_trip() {
    let key = Identity::from_seed([1u8; 32]);
    let d = ChunkData::new(
        Hash256 { bytes: [7u8; 32] },
        block(-1, i64::MAX, i64::MIN, "blöck ✓"),
        "".to_string(),
        u64::MAX,
        key.verifying_key(),
        -123_456,
    );
    let back = ChunkData::decode(&d.encode()).unwrap();
    assert_eq!(back.version, d.version);
    assert_eq!(back.prev_hash.bytes, d.prev_hash.bytes);
    assert_eq!(back.explanation, d.explanation);
    assert_eq!(back.timestamp, d.timestamp);
    assert_eq!(back.pub_key, d.pub_key);
    assert_eq!(back.external_salt, d.external_salt);
    assert_eq!(back.nonce, d.nonce);
    assert_eq!(back.encode(), d.encode());
}

#[test]
fn decode_rejects_malformed_bytes() {
    let key = Identity::from_seed([1u8; 32]);
    let bytes = data(&key, "t1", 5, 0).encode();
    assert!(ChunkData::decode(&bytes[..bytes.len() - 1]).is_none());
    let mut longer = bytes.clone();
    longer.push(0);
    assert!(ChunkData::decode(&longer).is_none());
    assert!(ChunkData::decode(&[]).is_none());
    let mut bad_utf8 = bytes.clone();
    bad_utf8[8] = 0xff;
    assert!(ChunkData::decode(&bad_utf8).is_none());
    let mut huge_len = bytes;
    huge_len[0] = 0x80;
    assert!(ChunkData::decode(&huge_len).is_none());
}

#[test]
fn budget_placeholder_is_digest_of_seed() {
    assert_eq!(budget_placeholder().bytes, *blake3::hash(BUDGET_PLACEHOLDER_SEED.as_bytes()).as_bytes());
    let key = Identity::from_seed([4u8; 32]);
    let c = mine_for_duration(&key, &block(0, 0, 0, "t1"), 0, &"s".to_string()).0.unwrap();
    assert_eq!(c.data.prev_hash.bytes, budget_placeholder().bytes);
}
