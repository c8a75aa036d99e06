use aptg::geo::{GeoPolicy, GeoPolicyEngine, GeoAction, GeoCondition};
use aptg::location::LocationInfo;

#[test]
fn test_location_creation() {
    let location = LocationInfo::new("8.8.8.8", "US", "United States");
    assert_eq!(location.ip_address, "8.8.8.8");
    assert_eq!(location.country_code, "US");
    assert_eq!(location.country_name, "United States");
    assert!(location.is_in_country("US"));
    assert!(!location.is_in_country("CA"));
}

#[test]
fn test_country_grouping() {
    let us_location = LocationInfo::new("8.8.8.8", "US", "United States");
    assert_eq!(us_location.get_country_grouping(), "north_america");

    let de_location = LocationInfo::new("8.8.8.8", "DE", "Germany");
    assert_eq!(de_location.get_country_grouping(), "europe");

    let cn_location = LocationInfo::new("8.8.8.8", "CN", "China");
    assert_eq!(cn_location.get_country_grouping(), "asia_pacific");
}

#[test]
fn test_risk_score() {
    let safe_location = LocationInfo::new("8.8.8.8", "US", "United States");
    assert_eq!(safe_location.get_risk_score(), 40);

    let risky_location = LocationInfo::new("8.8.8.8", "CN", "China");
    assert_eq!(risky_location.get_risk_score(), 80);

    let proxy_location =
        LocationInfo::new("8.8.8.8", "US", "United States").with_anonymous_proxy(true);
    assert_eq!(proxy_location.get_risk_score(), 80);
}

#[test]
fn test_policy_creation() {
    let policy = GeoPolicy::default();
    assert!(!policy.enabled);
    assert_eq!(policy.rules.len(), 2);
    assert!(matches!(policy.default_action, GeoAction::Allow));
}

#[test]
fn test_rule_evaluation() {
    let policy = GeoPolicy::default();
    let engine = GeoPolicyEngine::new(policy.clone(), false);

    // Test with a location that would match the risk score rule
    let location = LocationInfo::new("8.8.8.8", "CN", "China");
    let result = engine.evaluate_condition(&policy.rules[0].condition, &location);
    assert!(result);
}

#[test]
fn test_risk_score_bounded() {
    // Highest-risk combination still caps at one hundred
    let loc = LocationInfo::new("1.2.3.4", "KP", "North Korea").with_anonymous_proxy(true);
    assert!(loc.get_risk_score() <= 100);
    assert_eq!(loc.get_risk_score(), 100);
}

#[test]
fn test_country_group_unmatched_is_other() {
    let loc = LocationInfo::new("1.2.3.4", "ZZ", "Nowhere");
    assert_eq!(loc.get_country_grouping(), "other");
}

#[test]
fn test_region_match_ignores_case() {
    let loc = LocationInfo::new("1.2.3.4", "US", "United States").with_region("California");
    assert!(loc.is_in_region("CALIFORNIA"));
    assert!(loc.is_in_region("california"));
    assert!(!loc.is_in_region("Nevada"));
}

#[test]
fn test_condition_country_code() {
    let engine = GeoPolicyEngine::new(GeoPolicy::default(), false);
    let loc = LocationInfo::new("1.2.3.4", "DE", "Germany");
    let cond = GeoCondition::CountryCode { codes: vec!["DE".to_string(), "FR".to_string()] };
    assert!(engine.evaluate_condition(&cond, &loc));
    let cond = GeoCondition::CountryCode { codes: vec!["FR".to_string()] };
    assert!(!engine.evaluate_condition(&cond, &loc));
}

#[test]
fn test_condition_custom_numeric() {
    let engine = GeoPolicyEngine::new(GeoPolicy::default(), false);
    let loc = LocationInfo::new("1.2.3.4", "CN", "China");
    // risk_score of CN is 80
    let gt = GeoCondition::Custom {
        field: "risk_score".to_string(),
        operator: "gt".to_string(),
        value: "79.5".to_string(),
    };
    assert!(engine.evaluate_condition(&gt, &loc));
    let lt = GeoCondition::Custom {
        field: "risk_score".to_string(),
        operator: "lt".to_string(),
        value: "80".to_string(),
    };
    assert!(!engine.evaluate_condition(&lt, &loc));
    let bad = GeoCondition::Custom {
        field: "risk_score".to_string(),
        operator: "gt".to_string(),
        value: "not-a-number".to_string(),
    };
    // an unparsable side fails the comparison
    assert!(!engine.evaluate_condition(&bad, &loc));
}

#[test]
fn test_condition_distance_window() {
    let engine = GeoPolicyEngine::new(GeoPolicy::default(), false);
    // Berlin at 52.52 N, 13.405 E
    let loc = LocationInfo::new("1.2.3.4", "DE", "Germany")
        .with_coordinates(52_520_000, 13_405_000);
    // Paris at 48.8566 N, 2.3522 E is about 878 km away
    let near = GeoCondition::Distance {
        latitude_udeg: 48_856_600,
        longitude_udeg: 2_352_200,
        radius_m: 1_000_000,
    };
    assert!(engine.evaluate_condition(&near, &loc));
    let far = GeoCondition::Distance {
        latitude_udeg: 48_856_600,
        longitude_udeg: 2_352_200,
        radius_m: 500_000,
    };
    assert!(!engine.evaluate_condition(&far, &loc));
}

#[test]
fn test_disabled_engine_answers_default() {
    let policy = GeoPolicy::default();
    let engine = GeoPolicyEngine::new(policy, true);
    let result = engine.check_request("8.8.8.8", None);
    assert!(matches!(result.action, GeoAction::Allow));
    assert!(result.rule_name.is_none());
    assert_eq!(result.reason, "GeoIP policy disabled");
}

#[test]
fn test_enabled_engine_without_database_takes_default() {
    let mut policy = GeoPolicy::default();
    policy.enabled = true;
    let engine = GeoPolicyEngine::new(policy, false);
    let result = engine.check_request("8.8.8.8", None);
    assert!(matches!(result.action, GeoAction::Allow));
    assert!(result.rule_name.is_none());
    assert_eq!(result.reason, "GeoIP database not available");
}

#[test]
fn test_highest_priority_rule_wins() {
    let mut policy = GeoPolicy::default();
    policy.enabled = true;
    let engine = GeoPolicyEngine::new(policy, true);
    // CN scores 80: matches the deny rule at priority 100
    let loc = LocationInfo::new("9.9.9.9", "CN", "China");
    let result = engine.check_request("9.9.9.9", Some(loc));
    assert!(matches!(result.action, GeoAction::Deny));
    assert_eq!(result.rule_name.as_deref(), Some("Block high-risk countries"));
    assert_eq!(result.reason, "Matched rule: Block high-risk countries");
}

#[test]
fn test_no_matching_rule_takes_default() {
    let mut policy = GeoPolicy::default();
    policy.enabled = true;
    let engine = GeoPolicyEngine::new(policy, true);
    let loc = LocationInfo::new("9.9.9.9", "US", "United States");
    let result = engine.check_request("9.9.9.9", Some(loc));
    assert!(matches!(result.action, GeoAction::Allow));
    assert!(result.rule_name.is_none());
    assert_eq!(result.reason, "No matching rule");
}

#[test]
fn test_priority_zero_rule_binds() {
    let mut policy = GeoPolicy::default();
    policy.enabled = true;
    policy.rules = vec![aptg::geo::GeoRule {
        name: "deny everyone".to_string(),
        condition: GeoCondition::RiskScore { min: None, max: None },
        action: GeoAction::Deny,
        priority: 0,
        enabled: true,
    }];
    let engine = GeoPolicyEngine::new(policy, true);
    let loc = LocationInfo::new("9.9.9.9", "US", "United States");
    let result = engine.check_request("9.9.9.9", Some(loc));
    assert!(matches!(result.action, GeoAction::Deny));
    assert_eq!(result.rule_name.as_deref(), Some("deny everyone"));
}

#[test]
fn test_business_hours_wraps_negative_sums() {
    // Anchorage is nine hours behind UTC: hour 0 UTC is 15 local
    let loc = LocationInfo::new("1.2.3.4", "US", "United States")
        .with_timezone("America/Anchorage");
    assert!(loc.is_business_hours_at(0));
    // and 17 UTC is 8 local, before opening
    assert!(!loc.is_business_hours_at(17));
}
