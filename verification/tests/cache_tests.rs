use aptg::cache::{CacheManager, CachedResponse};

fn response(body: &[u8]) -> CachedResponse {
    CachedResponse { status: 200, headers: vec![], body: body.to_vec() }
}

#[test]
fn test_ttl_classes() {
    let cache = CacheManager::new();
    assert_eq!(cache.determine_ttl("/debian/dists/bookworm/InRelease"), 6 * 3600);
    assert_eq!(cache.determine_ttl("/debian/dists/bookworm/Release"), 6 * 3600);
    assert_eq!(cache.determine_ttl("/debian/dists/bookworm/Release.gpg"), 6 * 3600);
    assert_eq!(
        cache.determine_ttl("/debian/dists/bookworm/main/binary-amd64/Packages.gz"),
        12 * 3600
    );
    assert_eq!(cache.determine_ttl("/debian/dists/bookworm/main/source/Sources.gz"), 12 * 3600);
    assert_eq!(
        cache.determine_ttl("/debian/pool/main/a/apt/apt_2.6.1_amd64.deb"),
        365 * 24 * 3600
    );
    assert_eq!(cache.determine_ttl("/debian/pool/main/a/apt/apt.changelog"), 3600);
}

#[test]
fn test_ttl_is_deterministic() {
    let cache = CacheManager::new();
    let p = "/debian/pool/main/a/apt/apt_2.6.1_amd64.deb";
    assert_eq!(cache.determine_ttl(p), cache.determine_ttl(p));
}

#[test]
fn test_get_hit_within_ttl() {
    let mut cache = CacheManager::new();
    let path = "/debian/dists/bookworm/InRelease";
    cache.store_at(path, response(b"hello"), 1_000);
    // within six hours
    let hit = cache.get_at(path, 1_000 + 6 * 3600 * 1000 - 1).unwrap();
    assert_eq!(hit.body, b"hello".to_vec());
    assert_eq!(hit.status, 200);
}

#[test]
fn test_get_expired_is_absent() {
    let mut cache = CacheManager::new();
    let path = "/debian/dists/bookworm/InRelease";
    cache.store_at(path, response(b"hello"), 1_000);
    assert!(cache.get_at(path, 1_000 + 6 * 3600 * 1000).is_none());
}

#[test]
fn test_store_overwrites() {
    let mut cache = CacheManager::new();
    let path = "/debian/dists/bookworm/InRelease";
    cache.store_at(path, response(b"one"), 1_000);
    cache.store_at(path, response(b"two"), 2_000);
    let hit = cache.get_at(path, 3_000).unwrap();
    assert_eq!(hit.body, b"two".to_vec());
}

#[test]
fn test_clear_drops_everything() {
    let mut cache = CacheManager::new();
    cache.store_at("/debian/a", response(b"a"), 0);
    cache.store_at("/debian/b", response(b"b"), 0);
    cache.clear();
    assert!(cache.get_at("/debian/a", 1).is_none());
    assert!(cache.get_at("/debian/b", 1).is_none());
}

#[test]
fn test_cleanup_evicts_only_expired() {
    let mut cache = CacheManager::new();
    // one-hour class
    cache.store_at("/debian/x", response(b"x"), 0);
    // one-year class
    cache.store_at("/debian/pool/main/a/apt/apt_1_amd64.deb", response(b"y"), 0);
    cache.cleanup_expired_at(2 * 3600 * 1000);
    assert!(cache.get_at("/debian/x", 2 * 3600 * 1000).is_none());
    assert!(cache
        .get_at("/debian/pool/main/a/apt/apt_1_amd64.deb", 2 * 3600 * 1000)
        .is_some());
}

#[test]
fn test_deb_payload_cached_for_a_year() {
    let mut cache = CacheManager::new();
    let path = "/debian/pool/main/a/apt/apt_2.6.1_amd64.deb";
    cache.store_at(path, response(b"payload"), 0);
    // still there after 300 days
    let t = 300u64 * 24 * 3600 * 1000;
    assert!(cache.get_at(path, t).is_some());
    // gone after a year
    let t = 366u64 * 24 * 3600 * 1000;
    assert!(cache.get_at(path, t).is_none());
}
