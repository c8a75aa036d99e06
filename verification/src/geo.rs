//! The geo policy engine: an ordered rule set over a location record.
//! The highest-priority enabled rule whose condition holds decides the
//! action; with none, the configured default action stands.

use vstd::prelude::*;
use vstd::string::*;
use crate::location::{LocationInfo, SpecLocation, spec_eq_ignore_case, eq_ignore_case, spec_country_group, spec_risk_score, spec_is_business_hours_at, spec_within_radius};
use crate::strutil::{str_eq, contains_str, starts_with, ends_with, spec_contains, spec_starts_with, spec_ends_with, parse_decimal, spec_parse_decimal, spec_dec_digits, u64_to_string, contains_string};

verus! {

/// An inclusive range of autonomous-system numbers.
#[derive(Debug, Clone)]
pub struct AsnRange {
    pub start: u32,
    pub end: u32,
}

/// What a matching rule does with the request.
#[derive(Debug, Clone)]
pub enum GeoAction {
    Allow,
    Deny,
    RateLimit { requests_per_minute: u32 },
    LogOnly,
    Redirect { url: String },
}

/// The closed set of conditions a rule may test.  Coordinates are in
/// micro-degrees and the distance radius in metres.
#[derive(Debug, Clone)]
pub enum GeoCondition {
    CountryCode { codes: Vec<String> },
    Continent { codes: Vec<String> },
    Region { regions: Vec<String> },
    City { cities: Vec<String> },
    CountryGroup { groups: Vec<String> },
    RiskScore { min: Option<u8>, max: Option<u8> },
    Distance { latitude_udeg: i64, longitude_udeg: i64, radius_m: u64 },
    Timezone { zones: Vec<String> },
    BusinessHours { enabled: bool },
    AnonymousProxy { blocked: bool },
    SatelliteProvider { blocked: bool },
    Asn { ranges: Vec<AsnRange> },
    Custom { field: String, operator: String, value: String },
}

/// One rule: a name, a condition, an action, a priority and a switch.
#[derive(Debug, Clone)]
pub struct GeoRule {
    pub name: String,
    pub condition: GeoCondition,
    pub action: GeoAction,
    pub priority: u8,
    pub enabled: bool,
}

/// The whole geo policy, as configuration carries it.
#[derive(Debug, Clone)]
pub struct GeoPolicy {
    pub enabled: bool,
    pub database_path: String,
    pub rules: Vec<GeoRule>,
    pub default_action: GeoAction,
    pub update_interval_hours: u64,
}

/// What an evaluation decided: the action, the matched rule if any, the
/// location it was decided on, and a human-readable reason.
#[derive(Debug, Clone)]
pub struct PolicyResult {
    pub action: GeoAction,
    pub rule_name: Option<String>,
    pub location: LocationInfo,
    pub reason: String,
}

/// A summary of the engine's state.
#[derive(Debug, Clone)]
pub struct GeoPolicyStats {
    pub enabled: bool,
    pub database_loaded: bool,
    pub total_rules: usize,
    pub enabled_rules: usize,
    pub default_action: GeoAction,
}

/// Whether two actions are the same action with the same payload.
pub open spec fn spec_action_eq(a: GeoAction, b: GeoAction) -> bool {
    match (a, b) {
        (GeoAction::Allow, GeoAction::Allow) => true,
        (GeoAction::Deny, GeoAction::Deny) => true,
        (
            GeoAction::RateLimit { requests_per_minute: x },
            GeoAction::RateLimit { requests_per_minute: y },
        ) => x == y,
        (GeoAction::LogOnly, GeoAction::LogOnly) => true,
        (GeoAction::Redirect { url: u }, GeoAction::Redirect { url: v }) => u@ == v@,
        _ => false,
    }
}

impl GeoAction {
    /// A field-for-field copy.
    pub fn clone_action(&self) -> (r: GeoAction)
        ensures
            spec_action_eq(r, *self),
    {
        match self {
            GeoAction::Allow => GeoAction::Allow,
            GeoAction::Deny => GeoAction::Deny,
            GeoAction::RateLimit { requests_per_minute } => GeoAction::RateLimit {
                requests_per_minute: *requests_per_minute,
            },
            GeoAction::LogOnly => GeoAction::LogOnly,
            GeoAction::Redirect { url } => GeoAction::Redirect { url: url.clone() },
        }
    }
}

/// The value a custom condition reads from a location, by field name;
/// `None` for a name outside the fixed set.
pub open spec fn spec_custom_field(loc: SpecLocation, field: Seq<char>) -> Option<Seq<char>> {
    if field == "country_code"@ {
        Some(loc.country_code)
    } else if field == "country_name"@ {
        Some(loc.country_name)
    } else if field == "city"@ {
        Some(loc.city.unwrap_or(Seq::<char>::empty()))
    } else if field == "region"@ {
        Some(loc.region.unwrap_or(Seq::<char>::empty()))
    } else if field == "postal_code"@ {
        Some(loc.postal_code.unwrap_or(Seq::<char>::empty()))
    } else if field == "timezone"@ {
        Some(loc.timezone.unwrap_or(Seq::<char>::empty()))
    } else if field == "continent_code"@ {
        Some(loc.continent_code)
    } else if field == "country_grouping"@ {
        Some(spec_country_group(loc.country_code))
    } else if field == "risk_score"@ {
        Some(
            spec_dec_digits(
                spec_risk_score(loc.country_code, loc.is_anonymous_proxy, loc.is_satellite_provider)
                    as int,
            ),
        )
    } else {
        None
    }
}

/// A numeric comparison of two decimal strings: false unless both sides
/// parse.
pub open spec fn spec_num_cmp(fv: Seq<char>, value: Seq<char>, strict: bool, greater: bool) -> bool {
    match (spec_parse_decimal(fv), spec_parse_decimal(value)) {
        (Some(f), Some(v)) => if greater {
            if strict {
                f > v
            } else {
                f >= v
            }
        } else {
            if strict {
                f < v
            } else {
                f <= v
            }
        },
        _ => false,
    }
}

/// What a custom condition answers: field lookup, then one of the fixed
/// operators; anything unknown answers false.
pub open spec fn spec_eval_custom(
    loc: SpecLocation,
    field: Seq<char>,
    operator: Seq<char>,
    value: Seq<char>,
) -> bool {
    match spec_custom_field(loc, field) {
        None => false,
        Some(fv) => if operator == "equals"@ {
            fv == value
        } else if operator == "not_equals"@ {
            fv != value
        } else if operator == "contains"@ {
            spec_contains(fv, value)
        } else if operator == "starts_with"@ {
            spec_starts_with(fv, value)
        } else if operator == "ends_with"@ {
            spec_ends_with(fv, value)
        } else if operator == "gt"@ {
            spec_num_cmp(fv, value, true, true)
        } else if operator == "lt"@ {
            spec_num_cmp(fv, value, true, false)
        } else if operator == "ge"@ {
            spec_num_cmp(fv, value, false, true)
        } else if operator == "le"@ {
            spec_num_cmp(fv, value, false, false)
        } else {
            false
        },
    }
}

/// What a condition answers on a location at a given UTC hour.
pub open spec fn spec_eval_condition(c: GeoCondition, loc: SpecLocation, utc_hour: u32) -> bool {
    match c {
        GeoCondition::CountryCode { codes } => codes.deep_view().contains(loc.country_code),
        GeoCondition::Continent { codes } => codes.deep_view().contains(loc.continent_code),
        GeoCondition::Region { regions } => (loc.region is Some && exists|i: int|
            0 <= i < regions.deep_view().len() && spec_eq_ignore_case(
                #[trigger] regions.deep_view()[i],
                loc.region->0,
            )),
        GeoCondition::City { cities } => (loc.city is Some && exists|i: int|
            0 <= i < cities.deep_view().len() && spec_eq_ignore_case(
                #[trigger] cities.deep_view()[i],
                loc.city->0,
            )),
        GeoCondition::CountryGroup { groups } => groups.deep_view().contains(
            spec_country_group(loc.country_code),
        ),
        GeoCondition::RiskScore { min, max } => {
            let score = spec_risk_score(
                loc.country_code,
                loc.is_anonymous_proxy,
                loc.is_satellite_provider,
            );
            (min is None || score >= min->0) && (max is None || score <= max->0)
        },
        GeoCondition::Distance { latitude_udeg, longitude_udeg, radius_m } => spec_within_radius(
            loc.latitude as int,
            loc.longitude as int,
            latitude_udeg as int,
            longitude_udeg as int,
            radius_m as int,
        ),
        GeoCondition::Timezone { zones } => (loc.timezone is Some && zones.deep_view().contains(
            loc.timezone->0,
        )),
        GeoCondition::BusinessHours { enabled } => enabled == spec_is_business_hours_at(
            loc.timezone,
            utc_hour,
        ),
        GeoCondition::AnonymousProxy { blocked } => blocked == loc.is_anonymous_proxy,
        GeoCondition::SatelliteProvider { blocked } => blocked == loc.is_satellite_provider,
        GeoCondition::Asn { ranges } => (loc.asn is Some && exists|i: int|
            0 <= i < ranges@.len() && (#[trigger] ranges@[i]).start <= loc.asn->0 && loc.asn->0
                <= ranges@[i].end),
        GeoCondition::Custom { field, operator, value } => spec_eval_custom(
            loc,
            field@,
            operator@,
            value@,
        ),
    }
}

/// The rule scan: walk the rules in order, keeping the enabled matching
/// rule of highest priority; among equal priorities the first match
/// stays.
pub open spec fn spec_scan_rules(
    rules: Seq<GeoRule>,
    loc: SpecLocation,
    utc_hour: u32,
) -> (Option<int>, u8)
    decreases rules.len(),
{
    if rules.len() == 0 {
        (None::<int>, 0u8)
    } else {
        let prev = spec_scan_rules(rules.drop_last(), loc, utc_hour);
        let r = rules.last();
        if r.enabled && spec_eval_condition(r.condition, loc, utc_hour) && (prev.0 is None
            || r.priority > prev.1) {
            (Some(rules.len() - 1), r.priority)
        } else {
            prev
        }
    }
}

/// The geo policy engine.  Whether the database could be loaded is fixed
/// at construction; the lookup itself happens outside and its result is
/// handed in.
pub struct GeoPolicyEngine {
    policy: GeoPolicy,
    database_available: bool,
}

impl GeoPolicyEngine {
    pub closed spec fn spec_policy(&self) -> GeoPolicy {
        self.policy
    }

    pub closed spec fn spec_database_available(&self) -> bool {
        self.database_available
    }

    /// An engine over a policy; `database_available` says whether the geo
    /// database behind it could be opened.
    pub fn new(policy: GeoPolicy, database_available: bool) -> (e: GeoPolicyEngine)
        ensures
            e.spec_policy() == policy,
            e.spec_database_available() == (policy.enabled && database_available),
    {
        let avail = policy.enabled && database_available;
        GeoPolicyEngine { policy, database_available: avail }
    }

    /// Whether the policy itself is switched on.
    pub fn policy_enabled(&self) -> (r: bool)
        ensures
            r == self.spec_policy().enabled,
    {
        self.policy.enabled
    }

    /// The configured default action.
    pub fn default_action(&self) -> (r: GeoAction)
        ensures
            spec_action_eq(r, self.spec_policy().default_action),
    {
        self.policy.default_action.clone_action()
    }

    /// Whether the engine will evaluate rules at all.
    pub fn is_enabled(&self) -> (r: bool)
        ensures
            r == (self.spec_policy().enabled && self.spec_database_available()),
    {
        self.policy.enabled && self.database_available
    }

    /// The engine's summary.
    pub fn get_policy_stats(&self) -> (r: GeoPolicyStats)
        ensures
            r.enabled == self.spec_policy().enabled,
            r.database_loaded == self.spec_database_available(),
            r.total_rules == self.spec_policy().rules@.len(),
            spec_action_eq(r.default_action, self.spec_policy().default_action),
    {
        let mut enabled_rules: usize = 0;
        let n = self.policy.rules.len();
        let mut i: usize = 0;
        while i < n
            invariant
                i <= n,
                n == self.policy.rules@.len(),
                enabled_rules <= i,
            decreases n - i,
        {
            if self.policy.rules[i].enabled {
                enabled_rules = enabled_rules + 1;
            }
            i = i + 1;
        }
        GeoPolicyStats {
            enabled: self.policy.enabled,
            database_loaded: self.database_available,
            total_rules: self.policy.rules.len(),
            enabled_rules,
            default_action: self.policy.default_action.clone_action(),
        }
    }

    /// Evaluate one condition on a location at a given UTC hour.
    #[verifier::loop_isolation(false)]
    pub fn evaluate_condition_at(
        &self,
        condition: &GeoCondition,
        location: &LocationInfo,
        utc_hour: u32,
    ) -> (r: bool)
        requires
            utc_hour < 24,
        ensures
            r == spec_eval_condition(*condition, location@, utc_hour),
    {
        match condition {
            GeoCondition::CountryCode { codes } => contains_string(
                codes,
                location.country_code.as_str(),
            ),
            GeoCondition::Continent { codes } => contains_string(
                codes,
                location.continent_code.as_str(),
            ),
            GeoCondition::Region { regions } => {
                match &location.region {
                    Some(region) => any_eq_ignore_case(regions, region.as_str()),
                    None => false,
                }
            },
            GeoCondition::City { cities } => {
                match &location.city {
                    Some(city) => any_eq_ignore_case(cities, city.as_str()),
                    None => false,
                }
            },
            GeoCondition::CountryGroup { groups } => {
                let group = location.get_country_grouping();
                contains_string(groups, group.as_str())
            },
            GeoCondition::RiskScore { min, max } => {
                let score = location.get_risk_score();
                let min_ok = match min {
                    Some(m) => score >= *m,
                    None => true,
                };
                let max_ok = match max {
                    Some(m) => score <= *m,
                    None => true,
                };
                min_ok && max_ok
            },
            GeoCondition::Distance { latitude_udeg, longitude_udeg, radius_m } => location
                .is_within_radius(*latitude_udeg, *longitude_udeg, *radius_m),
            GeoCondition::Timezone { zones } => {
                match &location.timezone {
                    Some(tz) => contains_string(zones, tz.as_str()),
                    None => false,
                }
            },
            GeoCondition::BusinessHours { enabled } => *enabled == location.is_business_hours_at(
                utc_hour,
            ),
            GeoCondition::AnonymousProxy { blocked } => *blocked == location.is_anonymous_proxy,
            GeoCondition::SatelliteProvider { blocked } => *blocked
                == location.is_satellite_provider,
            GeoCondition::Asn { ranges } => {
                match location.asn {
                    Some(asn) => {
                        let n = ranges.len();
                        let mut i: usize = 0;
                        while i < n
                            invariant
                                i <= n,
                                n == ranges@.len(),
                                forall|k: int|
                                    0 <= k < i ==> !((#[trigger] ranges@[k]).start <= asn && asn
                                        <= ranges@[k].end),
                            decreases n - i,
                        {
                            if ranges[i].start <= asn && asn <= ranges[i].end {
                                return true;
                            }
                            i = i + 1;
                        }
                        false
                    },
                    None => false,
                }
            },
            GeoCondition::Custom { field, operator, value } => self.evaluate_custom_field(
                field.as_str(),
                operator.as_str(),
                value.as_str(),
                location,
            ),
        }
    }

    /// Evaluate one condition on a location, reading the clock for the
    /// business-hours window.
    pub fn evaluate_condition(&self, condition: &GeoCondition, location: &LocationInfo) -> (r:
        bool)
        ensures
            exists|h: u32|
                h < 24 && r == #[trigger] spec_eval_condition(*condition, location@, h),
    {
        let now_ms = crate::clock::now_millis();
        let utc_hour = ((now_ms / 1000 / 3600) % 24) as u32;
        let r = self.evaluate_condition_at(condition, location, utc_hour);
        proof {
            assert(utc_hour < 24 && r == spec_eval_condition(*condition, location@, utc_hour));
        }
        r
    }

    /// Evaluate a custom field condition.
    pub fn evaluate_custom_field(
        &self,
        field: &str,
        operator: &str,
        value: &str,
        location: &LocationInfo,
    ) -> (r: bool)
        ensures
            r == spec_eval_custom(location@, field@, operator@, value@),
    {
        proof {
            reveal_strlit("country_code");
            reveal_strlit("country_name");
            reveal_strlit("city");
            reveal_strlit("region");
            reveal_strlit("postal_code");
            reveal_strlit("timezone");
            reveal_strlit("continent_code");
            reveal_strlit("country_grouping");
            reveal_strlit("risk_score");
            reveal_strlit("equals");
            reveal_strlit("not_equals");
            reveal_strlit("contains");
            reveal_strlit("starts_with");
            reveal_strlit("ends_with");
            reveal_strlit("gt");
            reveal_strlit("lt");
            reveal_strlit("ge");
            reveal_strlit("le");
        }
        let field_value: String = if str_eq(field, "country_code") {
            location.country_code.clone()
        } else if str_eq(field, "country_name") {
            location.country_name.clone()
        } else if str_eq(field, "city") {
            match &location.city {
                Some(v) => v.clone(),
                None => String::new(),
            }
        } else if str_eq(field, "region") {
            match &location.region {
                Some(v) => v.clone(),
                None => String::new(),
            }
        } else if str_eq(field, "postal_code") {
            match &location.postal_code {
                Some(v) => v.clone(),
                None => String::new(),
            }
        } else if str_eq(field, "timezone") {
            match &location.timezone {
                Some(v) => v.clone(),
                None => String::new(),
            }
        } else if str_eq(field, "continent_code") {
            location.continent_code.clone()
        } else if str_eq(field, "country_grouping") {
            location.get_country_grouping()
        } else if str_eq(field, "risk_score") {
            u64_to_string(location.get_risk_score() as u64)
        } else {
            return false;
        };
        let fv = field_value.as_str();
        if str_eq(operator, "equals") {
            str_eq(fv, value)
        } else if str_eq(operator, "not_equals") {
            !str_eq(fv, value)
        } else if str_eq(operator, "contains") {
            contains_str(fv, value)
        } else if str_eq(operator, "starts_with") {
            starts_with(fv, value)
        } else if str_eq(operator, "ends_with") {
            ends_with(fv, value)
        } else if str_eq(operator, "gt") {
            num_cmp(fv, value, true, true)
        } else if str_eq(operator, "lt") {
            num_cmp(fv, value, true, false)
        } else if str_eq(operator, "ge") {
            num_cmp(fv, value, false, true)
        } else if str_eq(operator, "le") {
            num_cmp(fv, value, false, false)
        } else {
            false
        }
    }
}

/// The location used when no lookup result is at hand: only the IP is
/// known.
pub open spec fn spec_unknown_location(ip: Seq<char>) -> SpecLocation {
    SpecLocation {
        ip_address: ip,
        country_code: "Unknown"@,
        country_name: "Unknown"@,
        city: None,
        region: None,
        postal_code: None,
        latitude: 0,
        longitude: 0,
        timezone: None,
        continent_code: Seq::<char>::empty(),
        is_in_european_union: false,
        asn: None,
        organization: None,
        is_anonymous_proxy: false,
        is_satellite_provider: false,
    }
}

/// The location an evaluation runs on: the lookup's record, or the
/// Unknown placeholder.
pub open spec fn spec_eval_location(ip: Seq<char>, lookup: Option<LocationInfo>) -> SpecLocation {
    match lookup {
        Some(l) => l@,
        None => spec_unknown_location(ip),
    }
}

/// The action an engine decides for a request: the default action when
/// the policy is off or the database is missing, else the scanned rule's
/// action, else the default.
pub open spec fn spec_engine_action(
    policy: GeoPolicy,
    database_available: bool,
    loc: SpecLocation,
    utc_hour: u32,
) -> GeoAction {
    if !policy.enabled || !database_available {
        policy.default_action
    } else {
        match spec_scan_rules(policy.rules@, loc, utc_hour).0 {
            Some(idx) => policy.rules@[idx].action,
            None => policy.default_action,
        }
    }
}

/// Everything an evaluation answers: the action, the matched rule's name
/// where one bound, the location evaluated, and the reason.
pub open spec fn spec_check_outcome(
    policy: GeoPolicy,
    database_available: bool,
    ip: Seq<char>,
    lookup: Option<LocationInfo>,
    utc_hour: u32,
    r: PolicyResult,
) -> bool {
    let loc = spec_eval_location(ip, lookup);
    spec_action_eq(r.action, spec_engine_action(policy, database_available, loc, utc_hour)) && (
    if !policy.enabled {
        r.rule_name is None && r.reason@ == "GeoIP policy disabled"@ && r.location@
            == spec_unknown_location(ip)
    } else if !database_available {
        r.rule_name is None && r.reason@ == "GeoIP database not available"@ && r.location@
            == spec_unknown_location(ip)
    } else {
        r.location@ == loc && match spec_scan_rules(policy.rules@, loc, utc_hour).0 {
            Some(idx) => r.rule_name is Some && r.rule_name->0@ == policy.rules@[idx].name@
                && r.reason@ == "Matched rule: "@ + policy.rules@[idx].name@,
            None => r.rule_name is None && r.reason@ == "No matching rule"@,
        }
    })
}

impl GeoPolicyEngine {
    /// Whether the database behind the engine could be opened.
    pub fn database_available(&self) -> (r: bool)
        ensures
            r == self.spec_database_available(),
    {
        self.database_available
    }

    /// Decide a request from an IP and an already-performed lookup, at a
    /// given UTC hour.  A disabled policy, and equally a missing
    /// database, answers the default action with the matching reason;
    /// otherwise the rule scan decides.
    #[verifier::loop_isolation(false)]
    pub fn check_request_with(
        &self,
        ip_address: &str,
        lookup: Option<LocationInfo>,
        utc_hour: u32,
    ) -> (r: PolicyResult)
        requires
            utc_hour < 24,
        ensures
            spec_check_outcome(
                self.spec_policy(),
                self.spec_database_available(),
                ip_address@,
                lookup,
                utc_hour,
                r,
            ),
    {
        proof {
            reveal_strlit("GeoIP policy disabled");
            reveal_strlit("GeoIP database not available");
            reveal_strlit("Unknown");
            reveal_strlit("No matching rule");
            reveal_strlit("Matched rule: ");
        }
        if !self.policy.enabled {
            return PolicyResult {
                action: self.policy.default_action.clone_action(),
                rule_name: None,
                location: LocationInfo::new(ip_address, "Unknown", "Unknown"),
                reason: String::from_str("GeoIP policy disabled"),
            };
        }
        if !self.database_available {
            return PolicyResult {
                action: self.policy.default_action.clone_action(),
                rule_name: None,
                location: LocationInfo::new(ip_address, "Unknown", "Unknown"),
                reason: String::from_str("GeoIP database not available"),
            };
        }
        let location = match lookup {
            Some(l) => l,
            None => LocationInfo::new(ip_address, "Unknown", "Unknown"),
        };
        proof {
            if lookup is None {
                assert(location@ == spec_unknown_location(ip_address@));
            }
        }
        let n = self.policy.rules.len();
        let mut best: Option<usize> = None;
        let mut highest: u8 = 0;
        let mut i: usize = 0;
        while i < n
            invariant
                i <= n,
                ({
                    let scan = spec_scan_rules(
                        self.spec_policy().rules@.take(i as int),
                        location@,
                        utc_hour,
                    );
                    (match best {
                        None => scan.0 is None,
                        Some(b) => 0 <= b < i && scan.0 == Some(b as int),
                    }) && highest == scan.1
                }),
            decreases n - i,
        {
            let rule = &self.policy.rules[i];
            let matched = rule.enabled && self.evaluate_condition_at(
                &rule.condition,
                &location,
                utc_hour,
            );
            proof {
                assert(self.spec_policy().rules@.take(i + 1).drop_last()
                    =~= self.spec_policy().rules@.take(i as int));
                assert(self.spec_policy().rules@.take(i + 1).last()
                    == self.spec_policy().rules@[i as int]);
            }
            if matched && (best.is_none() || rule.priority > highest) {
                best = Some(i);
                highest = rule.priority;
            }
            i = i + 1;
        }
        proof {
            assert(self.spec_policy().rules@.take(n as int) =~= self.spec_policy().rules@);
        }
        match best {
            Some(idx) => {
                let rule = &self.policy.rules[idx];
                let mut reason = String::from_str("Matched rule: ");
                reason.append(rule.name.as_str());
                PolicyResult {
                    action: rule.action.clone_action(),
                    rule_name: Some(rule.name.clone()),
                    location,
                    reason,
                }
            },
            None => PolicyResult {
                action: self.policy.default_action.clone_action(),
                rule_name: None,
                location,
                reason: String::from_str("No matching rule"),
            },
        }
    }

    /// Decide a request at the clock's hour now.
    pub fn check_request(&self, ip_address: &str, lookup: Option<LocationInfo>) -> (r:
        PolicyResult)
        ensures
            exists|h: u32|
                h < 24 && #[trigger] spec_check_outcome(
                    self.spec_policy(),
                    self.spec_database_available(),
                    ip_address@,
                    lookup,
                    h,
                    r,
                ),
    {
        let now_ms = crate::clock::now_millis();
        let utc_hour = ((now_ms / 1000 / 3600) % 24) as u32;
        let r = self.check_request_with(ip_address, lookup, utc_hour);
        proof {
            assert(spec_check_outcome(
                self.spec_policy(),
                self.spec_database_available(),
                ip_address@,
                lookup,
                utc_hour,
                r,
            ));
        }
        r
    }
}

impl Default for GeoPolicy {
    /// The stock geo policy: disabled, two rules (deny risk scores of
    /// eighty and above at priority one hundred; rate-limit the
    /// `high_risk` country group at priority ninety), default allow.
    fn default() -> (p: GeoPolicy)
        ensures
            !p.enabled,
            p.database_path@ == "geoip/GeoLite2-City.mmdb"@,
            p.rules@.len() == 2,
            p.rules@[0].name@ == "Block high-risk countries"@,
            (p.rules@[0].condition matches GeoCondition::RiskScore { min, max } && min == Some(
                80u8,
            ) && max is None),
            spec_action_eq(p.rules@[0].action, GeoAction::Deny),
            p.rules@[0].priority == 100,
            p.rules@[0].enabled,
            p.rules@[1].name@ == "Rate limit suspicious regions"@,
            (p.rules@[1].condition matches GeoCondition::CountryGroup { groups }
                && groups.deep_view() =~~= seq!["high_risk"@]),
            (p.rules@[1].action matches GeoAction::RateLimit { requests_per_minute }
                && requests_per_minute == 10),
            p.rules@[1].priority == 90,
            p.rules@[1].enabled,
            spec_action_eq(p.default_action, GeoAction::Allow),
            p.update_interval_hours == 24,
    {
        proof {
            reveal_strlit("geoip/GeoLite2-City.mmdb");
            reveal_strlit("Block high-risk countries");
            reveal_strlit("Rate limit suspicious regions");
            reveal_strlit("high_risk");
        }
        let rule0 = GeoRule {
            name: String::from_str("Block high-risk countries"),
            condition: GeoCondition::RiskScore { min: Some(80), max: None },
            action: GeoAction::Deny,
            priority: 100,
            enabled: true,
        };
        let rule1 = GeoRule {
            name: String::from_str("Rate limit suspicious regions"),
            condition: GeoCondition::CountryGroup {
                groups: vec![String::from_str("high_risk")],
            },
            action: GeoAction::RateLimit { requests_per_minute: 10 },
            priority: 90,
            enabled: true,
        };
        let rules = vec![rule0, rule1];
        GeoPolicy {
            enabled: false,
            database_path: String::from_str("geoip/GeoLite2-City.mmdb"),
            rules,
            default_action: GeoAction::Allow,
            update_interval_hours: 24,
        }
    }
}

/// Whether any string in `v` matches `x` ignoring case.
fn any_eq_ignore_case(v: &Vec<String>, x: &str) -> (r: bool)
    ensures
        r == exists|i: int|
            0 <= i < v.deep_view().len() && spec_eq_ignore_case(#[trigger] v.deep_view()[i], x@),
{
    let n = v.len();
    let mut i: usize = 0;
    while i < n
        invariant
            i <= n,
            n == v.len(),
            forall|k: int| 0 <= k < i ==> !spec_eq_ignore_case(#[trigger] v.deep_view()[k], x@),
        decreases n - i,
    {
        if eq_ignore_case(v[i].as_str(), x) {
            assert(spec_eq_ignore_case(v.deep_view()[i as int], x@));
            return true;
        }
        i = i + 1;
    }
    false
}

/// The executable numeric comparison.
fn num_cmp(fv: &str, value: &str, strict: bool, greater: bool) -> (r: bool)
    ensures
        r == spec_num_cmp(fv@, value@, strict, greater),
{
    match (parse_decimal(fv), parse_decimal(value)) {
        (Some(f), Some(v)) => {
            if greater {
                if strict {
                    f > v
                } else {
                    f >= v
                }
            } else {
                if strict {
                    f < v
                } else {
                    f <= v
                }
            }
        },
        _ => false,
    }
}

} // verus!
