use dupscan::hasher::{
    extract_hash_errors, extract_successful_hashes, hash_bytes, HashResult,
};
use dupscan::types::FileEntry;

#[test]
fn test_extract_successful_hashes() {
    let results = vec![
        HashResult::success(
            FileEntry::new("/a.txt".to_string(), 10, None),
            "abc123".to_string(),
        ),
        HashResult::failure(
            FileEntry::new("/b.txt".to_string(), 10, None),
            "error".to_string(),
        ),
        HashResult::success(
            FileEntry::new("/c.txt".to_string(), 10, None),
            "def456".to_string(),
        ),
    ];

    let successful = extract_successful_hashes(results);

    assert_eq!(successful.len(), 2);
    assert_eq!(successful[0].1, "abc123");
    assert_eq!(successful[1].1, "def456");
}

#[test]
fn test_extract_hash_errors() {
    let results = vec![
        HashResult::success(
            FileEntry::new("/a.txt".to_string(), 10, None),
            "abc123".to_string(),
        ),
        HashResult::failure(
            FileEntry::new("/b.txt".to_string(), 10, None),
            "error1".to_string(),
        ),
        HashResult::failure(
            FileEntry::new("/c.txt".to_string(), 10, None),
            "error2".to_string(),
        ),
    ];

    let errors = extract_hash_errors(&results);

    assert_eq!(errors.len(), 2);
    assert_eq!(errors[0].0, "/b.txt");
    assert_eq!(errors[0].1, "error1");
}

#[test]
fn test_hash_result_is_success() {
    let success = HashResult::success(
        FileEntry::new("/test.txt".to_string(), 10, None),
        "hash".to_string(),
    );
    let failure = HashResult::failure(
        FileEntry::new("/test.txt".to_string(), 10, None),
        "error".to_string(),
    );

    assert!(success.is_success());
    assert!(!failure.is_success());
}

#[test]
fn test_hash_bytes_known_digest() {
    // MD5 of "hello world" is known
    assert_eq!(hash_bytes(b"hello world"), "5eb63bbbe01eeed093cb22bb8f5acdc3");
}

#[test]
fn test_hash_bytes_empty() {
    // MD5 of the empty string
    assert_eq!(hash_bytes(b""), "d41d8cd98f00b204e9800998ecf8427e");
}

#[test]
fn test_hash_bytes_consistent_and_discriminating() {
    let one = hash_bytes(b"consistent content");
    let two = hash_bytes(b"consistent content");
    let other = hash_bytes(b"different content");

    assert_eq!(one, two);
    assert_ne!(one, other);
    assert_eq!(one.len(), 32);
    assert!(one.chars().all(|c| c.is_ascii_hexdigit()));
}
