use client_core::hashing::FileHashing;

#[test]
fn sha256_of_chunks_matches_whole_input() {
    let mut h = FileHashing::new();
    h.update(b"hello ");
    h.update(b"world");
    assert_eq!(h.bytes_hashed(), 11);
    assert_eq!(
        h.finish(),
        "b94d27b9934d3e08a52e52d7da7dabfac484efe37a5380ee9088f7ace2efcde9"
    );
}

#[test]
fn sha256_of_nothing() {
    let h = FileHashing::new();
    assert_eq!(h.bytes_hashed(), 0);
    assert_eq!(
        h.finish(),
        "e3b0c44298fc1c149afbf4c8996fb92427ae41e4649b934ca495991b7852b855"
    );
}
