use aptg::gpg::GpgVerifier;

#[test]
fn test_gpg_verifier_creation() {
    let verifier = GpgVerifier::new("/tmp/test-keyring.gpg");
    assert_eq!(verifier.keyring_path, "/tmp/test-keyring.gpg");
}

#[test]
fn test_parse_key_line() {
    let verifier = GpgVerifier::new("test.gpg");
    let line = "pub:u:2048:1:1234567890ABCDEF:2023-01-01::e:u:John Doe <johndoe@example.com>:SC:ABCDEF1234567890ABCDEF";

    if let Some(key_info) = verifier.parse_key_line(line) {
        assert_eq!(key_info.key_id, "1234567890ABCDEF");
        assert_eq!(key_info.user_id, "John Doe <johndoe@example.com>");
        assert_eq!(key_info.creation_date, "2023-01-01");
        assert_eq!(key_info.fingerprint, "ABCDEF1234567890ABCDEF");
        assert_eq!(key_info.trust_level, "u");
    }
}

#[test]
fn test_parse_key_line_too_short() {
    let verifier = GpgVerifier::new("test.gpg");
    assert!(verifier.parse_key_line("pub:u:2048").is_none());
}

#[test]
fn test_parse_key_list_counts() {
    let verifier = GpgVerifier::new("test.gpg");
    let listing = "tru::1\npub:u:2048:1:AAAA:2023-01-01::e:u:One:SC:FP1\npub:-:2048:1:BBBB:2023-01-02::e:-:Two:SC:FP2\n";
    let keys = verifier.parse_key_list(listing);
    assert_eq!(keys.len(), 2);
    assert_eq!(keys[0].key_id, "AAAA");
    assert_eq!(keys[1].key_id, "BBBB");
    let info = verifier.parse_keyring_info(listing);
    assert_eq!(info.total_keys, 2);
    assert_eq!(info.trusted_keys, 1);
}
