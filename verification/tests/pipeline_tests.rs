use aptg::audit::{AuditLogger, AuditEventType};
use aptg::cache::CacheManager;
use aptg::geo::{GeoPolicy, GeoPolicyEngine, GeoRule, GeoCondition, GeoAction};
use aptg::gpg::GpgVerificationResult;
use aptg::location::LocationInfo;
use aptg::policy::PolicyEngine;
use aptg::router::{Router, Request, BeginOutcome, GeoOutcome, FetchStep, FetchOutcome};

fn request(path: &str) -> Request {
    Request {
        method: "GET".to_string(),
        path: path.to_string(),
        user_agent: Some("apt".to_string()),
        forwarded_for: None,
        real_ip: None,
        forwarded: None,
    }
}

fn router() -> Router {
    Router::new(
        PolicyEngine::new(),
        GeoPolicyEngine::new(GeoPolicy::default(), false),
        CacheManager::new(),
        AuditLogger::new(),
    )
}

fn event_types(r: &Router) -> Vec<AuditEventType> {
    r.audit.events().iter().map(|e| e.event_type).collect()
}

#[test]
fn test_cold_fetch_success_emits_request_then_fetch_success() {
    // GET Packages.gz under the default policy, cache cold, upstream 200
    let mut r = router();
    let req = request("/debian/dists/bookworm/main/binary-amd64/Packages.gz");
    let o = r.begin(&req, 0);
    assert!(matches!(o, BeginOutcome::NeedFetch));
    let fetched = FetchOutcome::Success { status: 200, headers: vec![], body: b"index".to_vec() };
    let o = r.on_fetch(&req, fetched, 0);
    match o {
        FetchStep::Done(resp) => {
            assert_eq!(resp.status, 200);
            assert_eq!(resp.body, b"index".to_vec());
        }
        _ => panic!("expected a direct response"),
    }
    assert_eq!(
        event_types(&r),
        vec![AuditEventType::Request, AuditEventType::FetchSuccess]
    );
}

#[test]
fn test_unknown_suite_is_denied() {
    // sid is not among the allowed suites
    let mut r = router();
    let req = request("/debian/dists/sid/main/binary-amd64/Packages.gz");
    let o = r.begin(&req, 0);
    match o {
        BeginOutcome::Done(resp) => {
            assert_eq!(resp.status, 403);
            assert_eq!(
                resp.body,
                b"{\"error\":\"Suite 'sid' is not allowed\"}".to_vec()
            );
        }
        _ => panic!("expected a response"),
    }
    assert_eq!(
        event_types(&r),
        vec![AuditEventType::Request, AuditEventType::PolicyViolation]
    );
    assert_eq!(
        r.audit.events().last().unwrap().message.as_deref(),
        Some("Policy violation: Suite 'sid' is not allowed")
    );
}

#[test]
fn test_denied_architecture_is_denied() {
    let mut r = router();
    let req = request("/debian/dists/bookworm/main/binary-i386/Packages.gz");
    let o = r.begin(&req, 0);
    match o {
        BeginOutcome::Done(resp) => assert_eq!(resp.status, 403),
        _ => panic!("expected a response"),
    }
    assert_eq!(
        event_types(&r),
        vec![AuditEventType::Request, AuditEventType::PolicyViolation]
    );
}

#[test]
fn test_deb_payload_cached_with_year_ttl() {
    // policy allows; upstream 200; 100 MiB payload under the 500 MB cap
    let mut r = router();
    let path = "/debian/pool/main/a/apt/apt_2.6.1_amd64.deb";
    let req = request(path);
    assert!(r.policy.check_file_size(100 * 1024 * 1024).is_ok());
    let o = r.begin(&req, 0);
    assert!(matches!(o, BeginOutcome::NeedFetch));
    let body = vec![7u8; 1024];
    let fetched = FetchOutcome::Success { status: 200, headers: vec![], body: body.clone() };
    let o = r.on_fetch(&req, fetched, 0);
    match o {
        FetchStep::Done(resp) => assert_eq!(resp.status, 200),
        _ => panic!("expected a direct response"),
    }
    // cached: a later identical request hits, still within a year
    let o = r.begin(&req, 300u64 * 24 * 3600 * 1000);
    match o {
        BeginOutcome::Done(resp) => {
            assert_eq!(resp.status, 200);
            assert_eq!(resp.body, body);
        }
        _ => panic!("expected a cache hit"),
    }
    assert_eq!(r.cache.determine_ttl(path), 365 * 24 * 3600);
}

#[test]
fn test_geo_risk_rule_denies() {
    // X-Forwarded-For present and a RiskScore{min: 80} rule firing
    let mut policy = GeoPolicy::default();
    policy.enabled = true;
    policy.rules = vec![GeoRule {
        name: "deny risky".to_string(),
        condition: GeoCondition::RiskScore { min: Some(80), max: None },
        action: GeoAction::Deny,
        priority: 100,
        enabled: true,
    }];
    let mut r = Router::new(
        PolicyEngine::new(),
        GeoPolicyEngine::new(policy, true),
        CacheManager::new(),
        AuditLogger::new(),
    );
    let mut req = request("/debian/dists/bookworm/InRelease");
    req.forwarded_for = Some("203.0.113.1".to_string());
    let o = r.begin(&req, 0);
    let ip = match o {
        BeginOutcome::NeedGeo { client_ip } => client_ip,
        _ => panic!("expected geo evaluation"),
    };
    assert_eq!(ip, "203.0.113.1");
    // the lookup names an anonymous proxy in a risky country: score 80
    let loc = LocationInfo::new("203.0.113.1", "CN", "China");
    let o = r.on_geo(&req, &ip, Some(loc), 12);
    match o {
        GeoOutcome::Done(resp) => assert_eq!(resp.status, 403),
        _ => panic!("expected a denial"),
    }
    assert_eq!(
        event_types(&r),
        vec![AuditEventType::Request, AuditEventType::GeoIPDenied]
    );
}

#[test]
fn test_release_verification_success_then_cache_hit() {
    // cache cold, upstream 200, signature valid -> 200 and admission;
    // an identical request shortly after answers from the cache
    let mut r = router();
    let req = request("/debian/dists/bookworm/InRelease");
    let o = r.begin(&req, 0);
    assert!(matches!(o, BeginOutcome::NeedFetch));
    let fetched = FetchOutcome::Success {
        status: 200,
        headers: vec![("etag".to_string(), "x".to_string())],
        body: b"signed index".to_vec(),
    };
    let o = r.on_fetch(&req, fetched, 0);
    let (status, headers, body) = match o {
        FetchStep::NeedVerify { status, headers, body } => (status, headers, body),
        _ => panic!("a release index goes to verification"),
    };
    let result = GpgVerificationResult {
        valid: true,
        key_id: Some("A1B2".to_string()),
        signature_date: String::new(),
        trust_level: "ultimate".to_string(),
        error_message: None,
    };
    let resp = r.on_verify(&req, status, headers, body, &result, 0);
    assert_eq!(resp.status, 200);
    assert_eq!(resp.body, b"signed index".to_vec());
    assert_eq!(
        event_types(&r),
        vec![
            AuditEventType::Request,
            AuditEventType::FetchSuccess,
            AuditEventType::VerificationSuccess,
        ]
    );
    // within six hours: served from cache
    let o = r.begin(&req, 3600 * 1000);
    match o {
        BeginOutcome::Done(resp) => {
            assert_eq!(resp.status, 200);
            assert_eq!(resp.body, b"signed index".to_vec());
        }
        _ => panic!("expected a cache hit"),
    }
    assert_eq!(
        event_types(&r)[3..],
        [AuditEventType::Request, AuditEventType::CacheHit]
    );
}

#[test]
fn test_release_verification_failure_is_400_and_not_cached() {
    let mut r = router();
    let req = request("/debian/dists/bookworm/InRelease");
    let o = r.begin(&req, 0);
    assert!(matches!(o, BeginOutcome::NeedFetch));
    let fetched = FetchOutcome::Success { status: 200, headers: vec![], body: b"bad".to_vec() };
    let o = r.on_fetch(&req, fetched, 0);
    let (status, headers, body) = match o {
        FetchStep::NeedVerify { status, headers, body } => (status, headers, body),
        _ => panic!("a release index goes to verification"),
    };
    let result = GpgVerificationResult {
        valid: false,
        key_id: None,
        signature_date: String::new(),
        trust_level: "unknown".to_string(),
        error_message: Some("bad signature".to_string()),
    };
    let resp = r.on_verify(&req, status, headers, body, &result, 0);
    assert_eq!(resp.status, 400);
    assert_eq!(
        event_types(&r),
        vec![
            AuditEventType::Request,
            AuditEventType::FetchSuccess,
            AuditEventType::VerificationFailed,
        ]
    );
    // nothing was admitted
    let o = r.begin(&req, 1);
    assert!(matches!(o, BeginOutcome::NeedFetch));
}

#[test]
fn test_fetch_failure_is_500() {
    let mut r = router();
    let req = request("/debian/dists/bookworm/main/binary-amd64/Packages.gz");
    let o = r.begin(&req, 0);
    assert!(matches!(o, BeginOutcome::NeedFetch));
    let o = r.on_fetch(
        &req,
        FetchOutcome::Failure { message: "Upstream returned status: 404".to_string() },
        0,
    );
    match o {
        FetchStep::Done(resp) => assert_eq!(resp.status, 500),
        _ => panic!("expected an error response"),
    }
    assert_eq!(
        event_types(&r),
        vec![AuditEventType::Request, AuditEventType::FetchError]
    );
}

#[test]
fn test_geo_redirect_and_rate_limit() {
    let mut policy = GeoPolicy::default();
    policy.enabled = true;
    policy.rules = vec![GeoRule {
        name: "redirect eu".to_string(),
        condition: GeoCondition::Continent { codes: vec!["EU".to_string()] },
        action: GeoAction::Redirect { url: "https://mirror.example/debian".to_string() },
        priority: 50,
        enabled: true,
    }];
    let mut r = Router::new(
        PolicyEngine::new(),
        GeoPolicyEngine::new(policy, true),
        CacheManager::new(),
        AuditLogger::new(),
    );
    let mut req = request("/debian/dists/bookworm/InRelease");
    req.forwarded_for = Some("198.51.100.7".to_string());
    let o = r.begin(&req, 0);
    let ip = match o {
        BeginOutcome::NeedGeo { client_ip } => client_ip,
        _ => panic!("expected geo evaluation"),
    };
    let loc = LocationInfo::new("198.51.100.7", "DE", "Germany").with_continent("EU");
    let o = r.on_geo(&req, &ip, Some(loc), 12);
    match o {
        GeoOutcome::Done(resp) => {
            assert_eq!(resp.status, 302);
            assert!(resp
                .headers
                .iter()
                .any(|(k, v)| k == "location" && v == "https://mirror.example/debian"));
        }
        _ => panic!("expected a redirect"),
    }
    assert_eq!(
        event_types(&r),
        vec![AuditEventType::Request, AuditEventType::GeoIPRedirect]
    );
}

#[test]
fn test_client_ip_extraction_order() {
    let mut req = request("/debian/dists/bookworm/InRelease");
    req.forwarded_for = Some(" 203.0.113.1 , 10.0.0.1".to_string());
    req.real_ip = Some("192.0.2.2".to_string());
    assert_eq!(aptg::router::extract_client_ip(&req).as_deref(), Some("203.0.113.1"));
    req.forwarded_for = None;
    assert_eq!(aptg::router::extract_client_ip(&req).as_deref(), Some("192.0.2.2"));
    req.real_ip = None;
    assert_eq!(aptg::router::extract_client_ip(&req), None);
    req.forwarded = Some("192.0.2.3".to_string());
    assert_eq!(aptg::router::extract_client_ip(&req).as_deref(), Some("192.0.2.3"));
}

#[test]
fn test_gpg_output_parsing() {
    let verifier = aptg::gpg::GpgVerifier::new("/tmp/test-keyring.gpg");
    let stdout_text = "gpg: Signature made Mon\ngpg: using RSA key ABCDEF\n";
    let r = verifier.parse_gpg_output(true, stdout_text, "");
    assert!(r.valid);
    // the third whitespace token of the matching line, trailing commas removed
    assert_eq!(r.key_id.as_deref(), Some("RSA"));
    assert_eq!(r.trust_level, "ultimate");
    let r = verifier.parse_gpg_output(false, "", "no key");
    assert!(!r.valid);
    assert_eq!(r.error_message.as_deref(), Some("no key"));
    let r = verifier.parse_gpg_output(false, "", "");
    assert_eq!(r.error_message.as_deref(), Some("GPG verification failed"));
}

#[test]
fn test_audit_event_json() {
    let event = aptg::audit::AuditEvent {
        timestamp_ms: 12,
        event_type: AuditEventType::Request,
        client_ip: None,
        method: Some("GET".to_string()),
        path: "/debian/dists/bookworm/InRelease".to_string(),
        user_agent: Some("apt \"quoted\"".to_string()),
        status: aptg::audit::AuditStatus::Info,
        message: Some("Request received".to_string()),
        duration_ms: None,
    };
    assert_eq!(
        event.to_json(),
        "{\"timestamp\":12,\"event_type\":\"Request\",\"client_ip\":null,\
         \"method\":\"GET\",\"path\":\"/debian/dists/bookworm/InRelease\",\
         \"user_agent\":\"apt \\\"quoted\\\"\",\"status\":\"Info\",\
         \"message\":\"Request received\",\"duration_ms\":null}"
    );
}
