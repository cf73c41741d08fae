use sha2::{Digest, Sha256};
use veriai::hashing::{compute_model_hash, leaf_hash, merkle_level, merkle_root, ModelHasher, CHUNK_SIZE};

fn digest(data: &[u8]) -> [u8; 32] {
    Sha256::digest(data).into()
}

fn pair(a: &[u8], b: &[u8]) -> [u8; 32] {
    let mut h = Sha256::new();
    h.update(a);
    h.update(b);
    h.finalize().into()
}

#[test]
fn hashing_test_empty_file_hash() {
    let expected: [u8; 32] = Sha256::digest([]).into();
    assert_eq!(compute_model_hash(&[]), expected);
}

#[test]
fn hashing_test_small_file_hash() {
    for data in [&b"hello veriai"[..], &b"Hello, VeriAI Merkle engine!"[..]] {
        assert_eq!(compute_model_hash(data), digest(data));
    }
}

#[test]
fn hashing_test_large_file_merkle_root() {
    // Two chunks: a full 4 MiB chunk and a 2 MiB one.
    let chunk1 = vec![0x11u8; 4 * 1024 * 1024];
    let chunk2 = vec![0x22u8; 2 * 1024 * 1024];
    let mut data = chunk1.clone();
    data.extend_from_slice(&chunk2);
    assert_eq!(compute_model_hash(&data), pair(&digest(&chunk1), &digest(&chunk2)));

    // Three chunks: the odd node is paired with itself.
    let chunk_a = vec![0x11u8; 4 * 1024 * 1024];
    let chunk_b = vec![0x22u8; 4 * 1024 * 1024];
    let chunk_c = vec![0x33u8; 2 * 1024 * 1024];
    let mut data = chunk_a.clone();
    data.extend_from_slice(&chunk_b);
    data.extend_from_slice(&chunk_c);
    let h0 = digest(&chunk_a);
    let h1 = digest(&chunk_b);
    let h2 = digest(&chunk_c);
    let expected = pair(&pair(&h0, &h1), &pair(&h2, &h2));
    assert_eq!(compute_model_hash(&data), expected);
}

#[test]
fn exactly_one_chunk_is_its_own_digest() {
    let data = vec![0x5au8; CHUNK_SIZE];
    assert_eq!(compute_model_hash(&data), digest(&data));
}

#[test]
fn merkle_helpers_follow_the_tree() {
    let a = leaf_hash(b"a");
    let b = leaf_hash(b"b");
    let c = leaf_hash(b"c");
    assert_eq!(a, digest(b"a"));
    assert_eq!(merkle_level(&vec![a, b, c]), vec![pair(&a, &b), pair(&c, &c)]);
    assert_eq!(merkle_root(vec![a]), a);
    assert_eq!(merkle_root(vec![a, b, c]), pair(&pair(&a, &b), &pair(&c, &c)));
    assert_eq!(merkle_root(vec![]), digest(&[]));
}

#[test]
fn test_caching_behavior() {
    let data = b"Cache test content";
    let hash_first = compute_model_hash(data);
    let hash_second = compute_model_hash(data);
    assert_eq!(hash_first, hash_second);
}

#[test]
fn chunked_hashing_matches_the_whole_file_hash() {
    let data: Vec<u8> = (0..(2 * CHUNK_SIZE + 7)).map(|i| (i % 251) as u8).collect();
    let mut hasher = ModelHasher::new();
    for chunk in data.chunks(CHUNK_SIZE) {
        assert!(hasher.is_open());
        hasher.absorb(chunk);
    }
    assert!(!hasher.is_open());
    assert_eq!(hasher.finish(), compute_model_hash(&data));
    assert_eq!(ModelHasher::new().finish(), compute_model_hash(&[]));
    let mut small = ModelHasher::new();
    small.absorb(b"abc");
    assert_eq!(small.finish(), digest(b"abc"));
}
