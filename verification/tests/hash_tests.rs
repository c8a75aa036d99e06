use aptg::hashes::HashVerifier;

#[test]
fn test_hash_verification() {
    let data = b"test data";
    let hash = "916f0023a0d5e5904614e65e77b3818a6d5e7e1a5b5c5e5e5e5e5e5e5e5e5e5e5";

    // This will fail since we're using fake hash, but tests the structure
    let result = HashVerifier::verify_package_hash(data, hash);
    assert!(result.is_err());
}

#[test]
fn test_release_hash_parsing() {
    let release_content = r#"
SHA256:
abc123 1024 main/binary-amd64/Packages
def456 2048 main/binary-amd64/Packages.gz
"#;

    let hashes = HashVerifier::parse_release_hashes(release_content).unwrap();
    assert_eq!(hashes.len(), 2);
    assert_eq!(hashes.get("main/binary-amd64/Packages"), Some(&"abc123".to_string()));
}

#[test]
fn test_hash_verification_accepts_true_digest() {
    let data = b"test data";
    let expected = "916f0027a575074ce72a331777c3478d6513f786a591bd892da1a577bf2335f9";
    let result = HashVerifier::verify_package_hash(data, expected);
    assert_eq!(result.unwrap(), true);
}

#[test]
fn test_hash_verification_error_message() {
    let err = HashVerifier::verify_package_hash(b"x", "00").unwrap_err();
    assert_eq!(err, "SHA256 hash verification failed");
}

#[test]
fn test_section_ends_at_other_digest_lists() {
    let text = "SHA256:\naaa 1 one\nMD5Sum:\nbbb 2 two\nSHA256:\nccc 3 three\n";
    let hashes = HashVerifier::parse_release_hashes(text).unwrap();
    assert_eq!(hashes.get("one"), Some(&"aaa".to_string()));
    assert_eq!(hashes.get("two"), None);
    assert_eq!(hashes.get("three"), Some(&"ccc".to_string()));
}

#[test]
fn test_verify_file_against_release() {
    let text = "SHA256:\n916f0027a575074ce72a331777c3478d6513f786a591bd892da1a577bf2335f9 9 dists/test/InRelease\n";
    let hashes = HashVerifier::parse_release_hashes(text).unwrap();
    let ok = HashVerifier::verify_file_against_release(b"test data", "dists/test/InRelease", &hashes);
    assert_eq!(ok.unwrap(), true);
    let missing = HashVerifier::verify_file_against_release(b"test data", "absent", &hashes);
    assert_eq!(missing.unwrap_err(), "No hash found for file: absent");
}

#[test]
fn test_checksum_round_trip() {
    let entries = vec![
        (
            "main/binary-amd64/Packages".to_string(),
            1024u64,
            "abc123".to_string(),
        ),
        (
            "main/binary-amd64/Packages.gz".to_string(),
            2048u64,
            "def456".to_string(),
        ),
    ];
    let text = HashVerifier::format_checksums(&entries);
    let parsed = HashVerifier::parse_release_hashes(text.as_str()).unwrap();
    assert_eq!(parsed.len(), 2);
    assert_eq!(parsed.get("main/binary-amd64/Packages"), Some(&"abc123".to_string()));
    assert_eq!(parsed.get("main/binary-amd64/Packages.gz"), Some(&"def456".to_string()));
}
