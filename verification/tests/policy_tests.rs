use aptg::policy::PolicyEngine;

#[test]
fn test_policy_engine_creation() {
    let engine = PolicyEngine::new();
    assert!(engine.config().allow.suites.contains(&"bookworm".to_string()));
    assert!(engine.config().deny.architectures.contains(&"i386".to_string()));
}

#[test]
fn test_allowed_path() {
    let engine = PolicyEngine::new();
    let result = engine.check_path("/debian/dists/bookworm/main/binary-amd64/Packages.gz");
    assert!(result.is_ok());
}

#[test]
fn test_denied_architecture() {
    let engine = PolicyEngine::new();
    let result = engine.check_path("/debian/dists/bookworm/main/binary-i386/Packages.gz");
    assert!(result.is_err());
}

#[test]
fn test_file_size_limit() {
    let engine = PolicyEngine::new();
    // Default limit is 500MB
    assert!(engine.check_file_size(100 * 1024 * 1024).is_ok()); // 100MB
    assert!(engine.check_file_size(600 * 1024 * 1024).is_err()); // 600MB
}

#[test]
fn test_denied_suite() {
    let engine = PolicyEngine::new();
    let result = engine.check_path("/debian/dists/sid/main/binary-amd64/Packages.gz");
    assert!(result.is_err());
}

#[test]
fn test_pool_path() {
    let engine = PolicyEngine::new();
    let result = engine.check_path("/debian/pool/main/a/apt/apt_2.6.1_amd64.deb");
    assert!(result.is_ok());
}

#[test]
fn test_policy_error_messages() {
    let engine = PolicyEngine::new();
    let err = engine
        .check_path("/debian/dists/sid/main/binary-amd64/Packages.gz")
        .unwrap_err();
    assert_eq!(err, "Suite 'sid' is not allowed");
    let err = engine
        .check_path("/debian/dists/bookworm/main/binary-i386/Packages.gz")
        .unwrap_err();
    assert_eq!(err, "Architecture 'binary-i386' is not allowed");
    let err = engine.check_path("/not/debian").unwrap_err();
    assert_eq!(err, "Invalid Debian path: Invalid Debian path");
}

#[test]
fn test_check_request_rejects_other_methods() {
    let engine = PolicyEngine::new();
    let path = "/debian/dists/bookworm/InRelease";
    assert!(engine.check_request(path, "GET"));
    assert!(engine.check_request(path, "HEAD"));
    assert!(!engine.check_request(path, "POST"));
    assert!(!engine.check_request(path, "PUT"));
}

#[test]
fn test_file_size_error_message() {
    let engine = PolicyEngine::new();
    let err = engine.check_file_size(600 * 1024 * 1024).unwrap_err();
    assert_eq!(err, "File size 600MB exceeds maximum allowed size 500MB");
}

#[test]
fn test_denied_package_name() {
    let name = PolicyEngine::extract_package_name("apt_2.6.1_amd64.deb");
    assert_eq!(name.as_deref(), Some("apt"));
    assert_eq!(PolicyEngine::extract_package_name("Packages.gz"), None);
}
