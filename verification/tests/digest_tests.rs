use file_agent::digest::calculate_hash;
use file_agent::digest::ContentHasher;
use file_agent::CHUNK_SIZE;
use std::collections::hash_map::DefaultHasher;
use std::hash::Hash;
use std::hash::Hasher;

/// The digest as the standard library yields it, chunk by chunk.
fn reference(content: &[u8]) -> u64 {
    let mut hasher = DefaultHasher::new();
    for chunk in content.chunks(1024) {
        chunk.hash(&mut hasher);
    }
    hasher.finish()
}

fn pattern(len: usize) -> Vec<u8> {
    (0..len).map(|i| ((i * 7 + 3) % 251) as u8).collect()
}

#[test]
fn chunk_size_is_1024() {
    assert_eq!(CHUNK_SIZE, 1024);
}

#[test]
fn digest_of_nothing() {
    assert_eq!(calculate_hash(b""), 15130871412783076140);
    assert_eq!(calculate_hash(b""), DefaultHasher::new().finish());
}

#[test]
fn digest_of_hello() {
    assert_eq!(calculate_hash(b"hello"), reference(b"hello"));
}

#[test]
fn digest_is_not_the_digest_of_the_bare_bytes() {
    let mut bare = DefaultHasher::new();
    bare.write(b"hello");
    assert_ne!(calculate_hash(b"hello"), bare.finish());
    assert_ne!(calculate_hash(b"hello"), DefaultHasher::new().finish());
}

#[test]
fn digest_is_deterministic() {
    let content = pattern(3000);
    assert_eq!(calculate_hash(&content), calculate_hash(&content));
    assert_eq!(calculate_hash(&content), calculate_hash(&content.clone()));
}

#[test]
fn digest_tells_contents_of_one_length_apart() {
    assert_ne!(calculate_hash(b"hello"), calculate_hash(b"hellp"));
    let a = pattern(2048);
    let mut b = a.clone();
    b[2047] ^= 1;
    assert_ne!(calculate_hash(&a), calculate_hash(&b));
    let mut c = a.clone();
    c[0] ^= 0x80;
    assert_ne!(calculate_hash(&a), calculate_hash(&c));
}

#[test]
fn digest_depends_on_order() {
    assert_ne!(calculate_hash(b"ab"), calculate_hash(b"ba"));
}

#[test]
fn digest_at_the_chunk_boundaries() {
    for len in [1usize, 1023, 1024, 1025, 2047, 2048, 2049, 3000, 4096] {
        let content = pattern(len);
        assert_eq!(calculate_hash(&content), reference(&content));
    }
}

#[test]
fn digest_of_a_full_chunk_of_zeros() {
    let content = vec![0u8; 1024];
    assert_eq!(calculate_hash(&content), reference(&content));
}

#[test]
fn hasher_fed_in_chunks_agrees_with_the_whole() {
    let content = pattern(2500);
    let mut hasher = ContentHasher::new();
    hasher.update(&content[..1024]);
    hasher.update(&content[1024..2048]);
    hasher.update(&content[2048..]);
    assert_eq!(hasher.finish(), calculate_hash(&content));
}

#[test]
fn hasher_fed_nothing_yields_the_empty_digest() {
    assert_eq!(ContentHasher::new().finish(), calculate_hash(b""));
}

#[test]
fn digest_depends_on_where_the_chunks_end() {
    let content = pattern(100);
    let mut split = ContentHasher::new();
    split.update(&content[..50]);
    split.update(&content[50..]);
    assert_ne!(split.finish(), calculate_hash(&content));
}

#[test]
fn finish_does_not_use_the_hasher_up() {
    let mut hasher = ContentHasher::new();
    hasher.update(b"abc");
    let first = hasher.finish();
    assert_eq!(first, hasher.finish());
    hasher.update(b"def");
    assert_ne!(first, hasher.finish());
}
