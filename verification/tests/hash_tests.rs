use exefind::hashing::Sha256;
use exefind::record::FileData;

#[test]
fn hash_is_deterministic() {
    let a = FileData::hash(b"some file content");
    let b = FileData::hash(b"some file content");
    assert_eq!(a, b);
}

#[test]
fn hash_matches_known_digest() {
    assert_eq!(
        FileData::hash(b"abc"),
        "ba7816bf8f01cfea414140de5dae2223b00361a396177a9cb410ff61f20015ad"
    );
}

#[test]
fn hash_of_empty_input() {
    assert_eq!(
        FileData::hash(b""),
        "e3b0c44298fc1c149afbf4c8996fb92427ae41e4649b934ca495991b7852b855"
    );
}

#[test]
fn one_byte_change_changes_the_digest() {
    assert_ne!(FileData::hash(b"abc"), FileData::hash(b"abd"));
}

#[test]
fn streaming_chunks_match_whole_input() {
    let mut h = Sha256::new();
    h.update(b"ab");
    h.update(b"c");
    assert_eq!(h.finish_hex(), FileData::hash(b"abc"));
}

#[test]
fn chunked_hashing_crosses_buffer_boundaries() {
    let data: Vec<u8> = (0u32..3000).map(|i| (i % 251) as u8).collect();
    let whole = FileData::hash(&data);
    let mut h = Sha256::new();
    for chunk in data.chunks(777) {
        h.update(chunk);
    }
    assert_eq!(h.finish_hex(), whole);
    assert_eq!(whole.len(), 64);
}
