use aptg::paths::{PathParser, PathType};

#[test]
fn test_parse_release_path_simple() {
    let path = "/debian/dists/bookworm/InRelease";
    let result = PathParser::parse_debian_path(path).unwrap();

    assert_eq!(result.path_type, PathType::Release);
    assert_eq!(result.suite, "bookworm");
    assert!(result.component.is_none());
}

#[test]
fn test_parse_release_path_packages() {
    let path = "/debian/dists/bookworm/main/binary-amd64/Packages.gz";
    let result = PathParser::parse_debian_path(path).unwrap();

    assert_eq!(result.path_type, PathType::Release);
    assert_eq!(result.suite, "bookworm");
    assert_eq!(result.component.as_deref(), Some("main"));
    assert_eq!(result.architecture.as_deref(), Some("binary-amd64"));
    assert_eq!(result.filename.as_deref(), Some("Packages.gz"));
}

#[test]
fn test_parse_package_path() {
    let path = "/debian/pool/main/a/apt/apt_2.6.1_amd64.deb";
    let result = PathParser::parse_debian_path(path).unwrap();

    assert_eq!(result.path_type, PathType::Package);
    assert_eq!(result.component.as_deref(), Some("main"));
    assert_eq!(result.filename.as_deref(), Some("apt_2.6.1_amd64.deb"));
}

#[test]
fn test_invalid_path() {
    assert!(PathParser::parse_debian_path("/ubuntu/dists/noble/Release").is_err());
    assert!(PathParser::parse_debian_path("/debian/invalid/path").is_err());
}

#[test]
fn test_path_components_extraction() {
    let path = "/debian/dists/bullseye/main/source/Sources.gz";
    let result = PathParser::parse_debian_path(path).unwrap();

    assert_eq!(result.suite, "bullseye");
    assert_eq!(result.component.as_deref(), Some("main"));
    assert_eq!(result.architecture.as_deref(), Some("source"));
    assert_eq!(result.filename.as_deref(), Some("Sources.gz"));
}

#[test]
fn test_parse_is_deterministic() {
    let p = "/debian/dists/bookworm/main/binary-amd64/Packages.gz";
    let a = PathParser::parse_debian_path(p).unwrap();
    let b = PathParser::parse_debian_path(p).unwrap();
    assert_eq!(a.suite, b.suite);
    assert_eq!(a.component, b.component);
    assert_eq!(a.architecture, b.architecture);
    assert_eq!(a.filename, b.filename);
}

#[test]
fn test_package_path_always_has_component_and_filename() {
    let result = PathParser::parse_debian_path("/debian/pool/contrib/z/zip/zip_3.0_arm64.deb")
        .unwrap();
    assert_eq!(result.path_type, PathType::Package);
    assert!(result.component.is_some());
    assert!(result.filename.is_some());
    assert_eq!(result.suite, "");
}

#[test]
fn test_empty_and_prefix_only_paths() {
    assert!(PathParser::parse_debian_path("").is_err());
    assert!(PathParser::parse_debian_path("/debian/").is_err());
    assert!(PathParser::parse_debian_path("/debian/pool/main/a").is_err());
}

#[test]
fn test_empty_suite_segment_is_rejected() {
    assert!(PathParser::parse_debian_path("/debian/dists//InRelease").is_err());
    assert!(PathParser::parse_debian_path("/debian/dists/").is_err());
}

#[test]
fn test_deep_release_path_uses_fourth_element_as_architecture() {
    let result = PathParser::parse_debian_path(
        "/debian/dists/bookworm/main/extra/binary-amd64/Packages.gz",
    )
    .unwrap();
    assert_eq!(result.suite, "bookworm");
    assert_eq!(result.component.as_deref(), Some("main"));
    assert_eq!(result.architecture.as_deref(), Some("binary-amd64"));
    assert_eq!(result.filename.as_deref(), Some("Packages.gz"));
}
