//! The location record a geo lookup yields, and its derived functions:
//! country grouping, risk score, timezone offset, business hours, and the
//! spherical distance window.  Coordinates are carried in integer
//! micro-degrees so that every derived function is exact integer
//! arithmetic; the distance window evaluates the haversine formula in
//! fixed point (nine fractional decimal digits).

use vstd::prelude::*;
use vstd::string::*;
use crate::strutil::str_eq;

verus! {

/// What `str::to_lowercase` returns, named: the result depends on the
/// characters alone.
pub uninterp spec fn lower_of(s: Seq<char>) -> Seq<char>;

/// Relies on str::to_lowercase: the result is a function of the input
/// characters alone.
#[verifier::external_body]
pub fn lowercase(s: &str) -> (r: String)
    ensures
        r@ == lower_of(s@),
{
    s.to_lowercase()
}

/// Whether two strings match ignoring case, as the rule conditions compare
/// regions and cities.
pub open spec fn spec_eq_ignore_case(a: Seq<char>, b: Seq<char>) -> bool {
    lower_of(a) == lower_of(b)
}

pub fn eq_ignore_case(a: &str, b: &str) -> (r: bool)
    ensures
        r == spec_eq_ignore_case(a@, b@),
{
    let la = lowercase(a);
    let lb = lowercase(b);
    la == lb
}

/// A client location, as the geo database reports it.  Latitude and
/// longitude are in micro-degrees (degrees times one million).
#[derive(Debug, Clone)]
pub struct LocationInfo {
    pub ip_address: String,
    pub country_code: String,
    pub country_name: String,
    pub city: Option<String>,
    pub region: Option<String>,
    pub postal_code: Option<String>,
    pub latitude: i64,
    pub longitude: i64,
    pub timezone: Option<String>,
    pub continent_code: String,
    pub is_in_european_union: bool,
    pub asn: Option<u32>,
    pub organization: Option<String>,
    pub is_anonymous_proxy: bool,
    pub is_satellite_provider: bool,
}

/// The mathematical image of a location.
pub ghost struct SpecLocation {
    pub ip_address: Seq<char>,
    pub country_code: Seq<char>,
    pub country_name: Seq<char>,
    pub city: Option<Seq<char>>,
    pub region: Option<Seq<char>>,
    pub postal_code: Option<Seq<char>>,
    pub latitude: i64,
    pub longitude: i64,
    pub timezone: Option<Seq<char>>,
    pub continent_code: Seq<char>,
    pub is_in_european_union: bool,
    pub asn: Option<u32>,
    pub organization: Option<Seq<char>>,
    pub is_anonymous_proxy: bool,
    pub is_satellite_provider: bool,
}

impl View for LocationInfo {
    type V = SpecLocation;

    open spec fn view(&self) -> SpecLocation {
        SpecLocation {
            ip_address: self.ip_address@,
            country_code: self.country_code@,
            country_name: self.country_name@,
            city: self.city.deep_view(),
            region: self.region.deep_view(),
            postal_code: self.postal_code.deep_view(),
            latitude: self.latitude,
            longitude: self.longitude,
            timezone: self.timezone.deep_view(),
            continent_code: self.continent_code@,
            is_in_european_union: self.is_in_european_union,
            asn: self.asn,
            organization: self.organization.deep_view(),
            is_anonymous_proxy: self.is_anonymous_proxy,
            is_satellite_provider: self.is_satellite_provider,
        }
    }
}

/// The continental bucket of an ISO country code; `other` when unmatched.
pub open spec fn spec_country_group(cc: Seq<char>) -> Seq<char> {
    if cc == "US"@ || cc == "CA"@ || cc == "MX"@ {
        "north_america"@
    } else if cc == "GB"@ || cc == "DE"@ || cc == "FR"@ || cc == "IT"@ || cc == "ES"@ || cc
        == "NL"@ || cc == "BE"@ || cc == "AT"@ || cc == "CH"@ || cc == "SE"@ || cc == "NO"@ || cc
        == "DK"@ || cc == "FI"@ || cc == "PL"@ || cc == "CZ"@ || cc == "HU"@ || cc == "GR"@ || cc
        == "PT"@ || cc == "IE"@ {
        "europe"@
    } else if cc == "CN"@ || cc == "JP"@ || cc == "KR"@ || cc == "SG"@ || cc == "AU"@ || cc
        == "NZ"@ || cc == "IN"@ || cc == "TH"@ || cc == "MY"@ || cc == "ID"@ || cc == "PH"@ {
        "asia_pacific"@
    } else if cc == "BR"@ || cc == "AR"@ || cc == "CL"@ || cc == "CO"@ || cc == "PE"@ || cc
        == "VE"@ || cc == "EC"@ || cc == "BO"@ || cc == "UY"@ || cc == "PY"@ {
        "south_america"@
    } else if cc == "ZA"@ || cc == "EG"@ || cc == "NG"@ || cc == "KE"@ || cc == "MA"@ || cc
        == "TN"@ || cc == "GH"@ {
        "africa"@
    } else if cc == "SA"@ || cc == "AE"@ || cc == "IL"@ || cc == "IR"@ || cc == "IQ"@ || cc
        == "JO"@ || cc == "LB"@ || cc == "SY"@ || cc == "TR"@ {
        "middle_east"@
    } else {
        "other"@
    }
}

/// The risk heuristic over a location: a base of fifty, adjusted by
/// country, anonymity and satellite flags, capped at one hundred.
pub open spec fn spec_risk_score(cc: Seq<char>, anon: bool, sat: bool) -> u8 {
    let country: u8 = if cc == "CN"@ || cc == "RU"@ || cc == "KP"@ || cc == "IR"@ {
        80
    } else if cc == "IN"@ || cc == "BR"@ || cc == "ID"@ || cc == "PK"@ {
        65
    } else if cc == "US"@ || cc == "CA"@ || cc == "GB"@ || cc == "DE"@ || cc == "FR"@ || cc
        == "JP"@ || cc == "AU"@ {
        40
    } else {
        50
    };
    let with_anon: u8 = if anon {
        (country + 40) as u8
    } else {
        country
    };
    let with_sat: u8 = if sat {
        (with_anon + 20) as u8
    } else {
        with_anon
    };
    if with_sat > 100 {
        100
    } else {
        with_sat
    }
}

/// The static timezone-to-UTC-offset table, in hours.
pub open spec fn spec_timezone_offset(tz: Option<Seq<char>>) -> Option<i32> {
    match tz {
        None => None,
        Some(z) => if z == "UTC"@ || z == "Europe/London"@ {
            Some(0)
        } else if z == "Europe/Paris"@ || z == "Europe/Berlin"@ || z == "Europe/Rome"@ || z
            == "Europe/Spain"@ || z == "Europe/Amsterdam"@ || z == "Europe/Stockholm"@ || z
            == "Europe/Warsaw"@ {
            Some(1)
        } else if z == "America/New_York"@ {
            Some((-5) as i32)
        } else if z == "America/Chicago"@ {
            Some((-6) as i32)
        } else if z == "America/Denver"@ || z == "America/Phoenix"@ {
            Some((-7) as i32)
        } else if z == "America/Los_Angeles"@ {
            Some((-8) as i32)
        } else if z == "America/Anchorage"@ {
            Some((-9) as i32)
        } else if z == "Pacific/Auckland"@ {
            Some(12)
        } else if z == "Australia/Sydney"@ {
            Some(10)
        } else if z == "Asia/Tokyo"@ {
            Some(9)
        } else if z == "Asia/Shanghai"@ || z == "Asia/Singapore"@ {
            Some(8)
        } else if z == "Asia/Dubai"@ {
            Some(4)
        } else if z == "Asia/Kolkata"@ {
            Some(5)
        } else {
            None
        },
    }
}

/// Business hours at a given UTC hour: the local hour — the sum of the
/// UTC hour and the offset, reduced into zero to twenty-four — lies in
/// nine to seventeen.  An absent or unknown timezone is never business
/// hours.
pub open spec fn spec_is_business_hours_at(tz: Option<Seq<char>>, utc_hour: u32) -> bool {
    match spec_timezone_offset(tz) {
        None => false,
        Some(offset) => {
            let local = (utc_hour + offset) % 24;
            9 <= local && local < 17
        },
    }
}

impl LocationInfo {
    /// A minimal record: the IP and country, everything else absent,
    /// coordinates at the origin.
    pub fn new(ip: &str, country_code: &str, country_name: &str) -> (r: LocationInfo)
        ensures
            r@.ip_address == ip@,
            r@.country_code == country_code@,
            r@.country_name == country_name@,
            r@.city is None,
            r@.region is None,
            r@.postal_code is None,
            r@.latitude == 0,
            r@.longitude == 0,
            r@.timezone is None,
            r@.continent_code == Seq::<char>::empty(),
            !r@.is_in_european_union,
            r@.asn is None,
            r@.organization is None,
            !r@.is_anonymous_proxy,
            !r@.is_satellite_provider,
    {
        LocationInfo {
            ip_address: ip.to_owned(),
            country_code: country_code.to_owned(),
            country_name: country_name.to_owned(),
            city: None,
            region: None,
            postal_code: None,
            latitude: 0,
            longitude: 0,
            timezone: None,
            continent_code: String::new(),
            is_in_european_union: false,
            asn: None,
            organization: None,
            is_anonymous_proxy: false,
            is_satellite_provider: false,
        }
    }

    /// The record with coordinates set, in micro-degrees.
    pub fn with_coordinates(self, lat_udeg: i64, lon_udeg: i64) -> (r: LocationInfo)
        ensures
            r@ == (SpecLocation { latitude: lat_udeg, longitude: lon_udeg, ..self@ }),
    {
        LocationInfo { latitude: lat_udeg, longitude: lon_udeg, ..self }
    }

    /// The record with the city set.
    pub fn with_city(self, city: &str) -> (r: LocationInfo)
        ensures
            r@ == (SpecLocation { city: Some(city@), ..self@ }),
    {
        LocationInfo { city: Some(city.to_owned()), ..self }
    }

    /// The record with the region set.
    pub fn with_region(self, region: &str) -> (r: LocationInfo)
        ensures
            r@ == (SpecLocation { region: Some(region@), ..self@ }),
    {
        LocationInfo { region: Some(region.to_owned()), ..self }
    }

    /// The record with the anonymous-proxy flag set.
    pub fn with_anonymous_proxy(self, is_proxy: bool) -> (r: LocationInfo)
        ensures
            r@ == (SpecLocation { is_anonymous_proxy: is_proxy, ..self@ }),
    {
        LocationInfo { is_anonymous_proxy: is_proxy, ..self }
    }

    /// The record with the timezone set.
    pub fn with_timezone(self, timezone: &str) -> (r: LocationInfo)
        ensures
            r@ == (SpecLocation { timezone: Some(timezone@), ..self@ }),
    {
        LocationInfo { timezone: Some(timezone.to_owned()), ..self }
    }

    /// The record with the continent code set.
    pub fn with_continent(self, continent: &str) -> (r: LocationInfo)
        ensures
            r@ == (SpecLocation { continent_code: continent@, ..self@ }),
    {
        LocationInfo { continent_code: continent.to_owned(), ..self }
    }

    /// Whether the record's country is the named one.
    pub fn is_in_country(&self, country_code: &str) -> (r: bool)
        ensures
            r == (self@.country_code == country_code@),
    {
        str_eq(self.country_code.as_str(), country_code)
    }

    /// Whether the record's region matches, ignoring case.
    pub fn is_in_region(&self, region: &str) -> (r: bool)
        ensures
            r == match self@.region {
                Some(own) => spec_eq_ignore_case(own, region@),
                None => false,
            },
    {
        match &self.region {
            Some(own) => eq_ignore_case(own.as_str(), region),
            None => false,
        }
    }

    /// Whether the record's continent is the named one.
    pub fn is_in_continent(&self, continent_code: &str) -> (r: bool)
        ensures
            r == (self@.continent_code == continent_code@),
    {
        str_eq(self.continent_code.as_str(), continent_code)
    }

    /// Whether the record lies in the European Union.
    pub fn is_in_eu(&self) -> (r: bool)
        ensures
            r == self@.is_in_european_union,
    {
        self.is_in_european_union
    }

    /// The timezone's UTC offset in hours, by the static table.
    pub fn get_timezone_offset(&self) -> (r: Option<i32>)
        ensures
            r == spec_timezone_offset(self@.timezone),
    {
        proof {
            reveal_strlit("UTC");
            reveal_strlit("Europe/London");
            reveal_strlit("Europe/Paris");
            reveal_strlit("Europe/Berlin");
            reveal_strlit("Europe/Rome");
            reveal_strlit("Europe/Spain");
            reveal_strlit("Europe/Amsterdam");
            reveal_strlit("Europe/Stockholm");
            reveal_strlit("Europe/Warsaw");
            reveal_strlit("America/New_York");
            reveal_strlit("America/Chicago");
            reveal_strlit("America/Denver");
            reveal_strlit("America/Phoenix");
            reveal_strlit("America/Los_Angeles");
            reveal_strlit("America/Anchorage");
            reveal_strlit("Pacific/Auckland");
            reveal_strlit("Australia/Sydney");
            reveal_strlit("Asia/Tokyo");
            reveal_strlit("Asia/Shanghai");
            reveal_strlit("Asia/Singapore");
            reveal_strlit("Asia/Dubai");
            reveal_strlit("Asia/Kolkata");
        }
        let tz = match &self.timezone {
            None => {
                return None;
            },
            Some(z) => z.as_str(),
        };
        if str_eq(tz, "UTC") || str_eq(tz, "Europe/London") {
            Some(0)
        } else if str_eq(tz, "Europe/Paris") || str_eq(tz, "Europe/Berlin") || str_eq(
            tz,
            "Europe/Rome",
        ) || str_eq(tz, "Europe/Spain") || str_eq(tz, "Europe/Amsterdam") || str_eq(
            tz,
            "Europe/Stockholm",
        ) || str_eq(tz, "Europe/Warsaw") {
            Some(1)
        } else if str_eq(tz, "America/New_York") {
            Some(-5)
        } else if str_eq(tz, "America/Chicago") {
            Some(-6)
        } else if str_eq(tz, "America/Denver") || str_eq(tz, "America/Phoenix") {
            Some(-7)
        } else if str_eq(tz, "America/Los_Angeles") {
            Some(-8)
        } else if str_eq(tz, "America/Anchorage") {
            Some(-9)
        } else if str_eq(tz, "Pacific/Auckland") {
            Some(12)
        } else if str_eq(tz, "Australia/Sydney") {
            Some(10)
        } else if str_eq(tz, "Asia/Tokyo") {
            Some(9)
        } else if str_eq(tz, "Asia/Shanghai") || str_eq(tz, "Asia/Singapore") {
            Some(8)
        } else if str_eq(tz, "Asia/Dubai") {
            Some(4)
        } else if str_eq(tz, "Asia/Kolkata") {
            Some(5)
        } else {
            None
        }
    }

    /// Business hours at a given UTC hour.
    pub fn is_business_hours_at(&self, utc_hour: u32) -> (r: bool)
        requires
            utc_hour < 24,
        ensures
            r == spec_is_business_hours_at(self@.timezone, utc_hour),
    {
        match self.get_timezone_offset() {
            None => false,
            Some(offset) => {
                let sum: i32 = utc_hour as i32 + offset;
                let local: i32 = if sum >= 0 {
                    sum % 24
                } else {
                    sum + 24
                };
                proof {
                    assert(-9 <= offset <= 12);
                    assert(local == (utc_hour + offset) % 24);
                }
                9 <= local && local < 17
            },
        }
    }

    /// Business hours at the clock's time now.
    pub fn is_business_hours(&self) -> (r: bool)
        ensures
            exists|h: u32| h < 24 && r == #[trigger] spec_is_business_hours_at(self@.timezone, h),
    {
        let now_ms = crate::clock::now_millis();
        let utc_hour = ((now_ms / 1000 / 3600) % 24) as u32;
        let r = self.is_business_hours_at(utc_hour);
        proof {
            assert(utc_hour < 24 && r == spec_is_business_hours_at(self@.timezone, utc_hour));
        }
        r
    }

    /// The continental bucket of the record's country.
    pub fn get_country_grouping(&self) -> (r: String)
        ensures
            r@ == spec_country_group(self@.country_code),
    {
        proof {
            reveal_strlit("north_america");
            reveal_strlit("europe");
            reveal_strlit("asia_pacific");
            reveal_strlit("south_america");
            reveal_strlit("africa");
            reveal_strlit("middle_east");
            reveal_strlit("other");
        }
        if self.cc_in(&["US", "CA", "MX"]) {
            String::from_str("north_america")
        } else if self.cc_in(
            &[
                "GB",
                "DE",
                "FR",
                "IT",
                "ES",
                "NL",
                "BE",
                "AT",
                "CH",
                "SE",
                "NO",
                "DK",
                "FI",
                "PL",
                "CZ",
                "HU",
                "GR",
                "PT",
                "IE",
            ],
        ) {
            String::from_str("europe")
        } else if self.cc_in(
            &["CN", "JP", "KR", "SG", "AU", "NZ", "IN", "TH", "MY", "ID", "PH"],
        ) {
            String::from_str("asia_pacific")
        } else if self.cc_in(&["BR", "AR", "CL", "CO", "PE", "VE", "EC", "BO", "UY", "PY"]) {
            String::from_str("south_america")
        } else if self.cc_in(&["ZA", "EG", "NG", "KE", "MA", "TN", "GH"]) {
            String::from_str("africa")
        } else if self.cc_in(&["SA", "AE", "IL", "IR", "IQ", "JO", "LB", "SY", "TR"]) {
            String::from_str("middle_east")
        } else {
            String::from_str("other")
        }
    }

    /// Whether the record's country code is one of the named ones.
    fn cc_in(&self, codes: &[&str]) -> (r: bool)
        ensures
            r == exists|i: int|
                0 <= i < codes@.len() && self@.country_code == #[trigger] codes@[i]@,
    {
        let n = codes.len();
        let mut i: usize = 0;
        while i < n
            invariant
                i <= n,
                n == codes@.len(),
                forall|k: int| 0 <= k < i ==> self@.country_code != #[trigger] codes@[k]@,
            decreases n - i,
        {
            if str_eq(self.country_code.as_str(), codes[i]) {
                return true;
            }
            i = i + 1;
        }
        false
    }

    /// The risk score: deterministic in the country code and the two
    /// flags, and never above one hundred.
    pub fn get_risk_score(&self) -> (r: u8)
        ensures
            r == spec_risk_score(
                self@.country_code,
                self@.is_anonymous_proxy,
                self@.is_satellite_provider,
            ),
            r <= 100,
    {
        proof {
            reveal_strlit("CN");
            reveal_strlit("RU");
            reveal_strlit("KP");
            reveal_strlit("IR");
            reveal_strlit("IN");
            reveal_strlit("BR");
            reveal_strlit("ID");
            reveal_strlit("PK");
            reveal_strlit("US");
            reveal_strlit("CA");
            reveal_strlit("GB");
            reveal_strlit("DE");
            reveal_strlit("FR");
            reveal_strlit("JP");
            reveal_strlit("AU");
        }
        let cc = self.country_code.as_str();
        let mut score: u8 = 50;
        if str_eq(cc, "CN") || str_eq(cc, "RU") || str_eq(cc, "KP") || str_eq(cc, "IR") {
            score = score + 30;
        } else if str_eq(cc, "IN") || str_eq(cc, "BR") || str_eq(cc, "ID") || str_eq(cc, "PK") {
            score = score + 15;
        } else if str_eq(cc, "US") || str_eq(cc, "CA") || str_eq(cc, "GB") || str_eq(cc, "DE")
            || str_eq(cc, "FR") || str_eq(cc, "JP") || str_eq(cc, "AU") {
            score = score - 10;
        }
        if self.is_anonymous_proxy {
            score = score + 40;
        }
        if self.is_satellite_provider {
            score = score + 20;
        }
        if score > 100 {
            score = 100;
        }
        score
    }
}

/// Law: the country grouping is total — every code falls in exactly one of
/// the seven buckets.
pub proof fn lemma_country_group_total(cc: Seq<char>)
    ensures
        spec_country_group(cc) == "north_america"@ || spec_country_group(cc) == "europe"@
            || spec_country_group(cc) == "asia_pacific"@ || spec_country_group(cc)
            == "south_america"@ || spec_country_group(cc) == "africa"@ || spec_country_group(cc)
            == "middle_east"@ || spec_country_group(cc) == "other"@,
{
}

/// Law: the risk score is a function of the country code and the two
/// flags alone, and always lies in zero to one hundred.
pub proof fn lemma_risk_score_bounded(cc: Seq<char>, anon: bool, sat: bool)
    ensures
        spec_risk_score(cc, anon, sat) <= 100,
{
}

/// One billion: the fixed-point scale (nine fractional decimal digits).
pub open spec fn sc() -> int {
    1_000_000_000
}

/// Pi, half pi, and micro-degree-to-radian conversion, all at scale.
pub open spec fn pi_q9() -> int {
    3_141_592_653
}

pub open spec fn half_pi_q9() -> int {
    1_570_796_327
}

/// Radians at scale for a count of micro-degrees.
pub open spec fn spec_rad_q9(udeg: int) -> int {
    udeg * 17_453_292_519 / 1_000_000_000
}

/// The sine of `x` (radians at scale, within the first quadrant), by the
/// first six terms of the Taylor series, floored at zero.
pub open spec fn spec_sin_q9(x: int) -> int {
    let x2 = x * x / 1_000_000_000;
    let t1 = x;
    let t3 = t1 * x2 / 6_000_000_000;
    let t5 = t3 * x2 / 20_000_000_000;
    let t7 = t5 * x2 / 42_000_000_000;
    let t9 = t7 * x2 / 72_000_000_000;
    let t11 = t9 * x2 / 110_000_000_000;
    let s = t1 + t5 + t9;
    let u = t3 + t7 + t11;
    if s > u {
        s - u
    } else {
        0
    }
}

/// The sine at scale, executable.
fn sin_q9(x: u64) -> (r: u64)
    requires
        x <= 1_570_796_327,
    ensures
        r == spec_sin_q9(x as int),
        r <= 1_700_000_000,
{
    let xw: u128 = x as u128;
    assert(xw * xw <= 1_570_796_327u128 * 1_570_796_327u128) by (nonlinear_arith)
        requires
            xw <= 1_570_796_327u128,
    ;
    let x2: u128 = xw * xw / 1_000_000_000;
    assert(x2 <= 2_467_401_101u128);
    let t1: u128 = xw;
    assert(t1 * x2 <= 1_570_796_327u128 * 2_467_401_101u128) by (nonlinear_arith)
        requires
            t1 <= 1_570_796_327u128,
            x2 <= 2_467_401_101u128,
    ;
    let t3: u128 = t1 * x2 / 6_000_000_000;
    assert(t3 <= 646_000_000u128);
    assert(t3 * x2 <= 646_000_000u128 * 2_467_401_101u128) by (nonlinear_arith)
        requires
            t3 <= 646_000_000u128,
            x2 <= 2_467_401_101u128,
    ;
    let t5: u128 = t3 * x2 / 20_000_000_000;
    assert(t5 <= 80_000_000u128);
    assert(t5 * x2 <= 80_000_000u128 * 2_467_401_101u128) by (nonlinear_arith)
        requires
            t5 <= 80_000_000u128,
            x2 <= 2_467_401_101u128,
    ;
    let t7: u128 = t5 * x2 / 42_000_000_000;
    assert(t7 <= 4_700_000u128);
    assert(t7 * x2 <= 4_700_000u128 * 2_467_401_101u128) by (nonlinear_arith)
        requires
            t7 <= 4_700_000u128,
            x2 <= 2_467_401_101u128,
    ;
    let t9: u128 = t7 * x2 / 72_000_000_000;
    assert(t9 <= 162_000u128);
    assert(t9 * x2 <= 162_000u128 * 2_467_401_101u128) by (nonlinear_arith)
        requires
            t9 <= 162_000u128,
            x2 <= 2_467_401_101u128,
    ;
    let t11: u128 = t9 * x2 / 110_000_000_000;
    assert(t11 <= 3_700u128);
    let s: u128 = t1 + t5 + t9;
    let u: u128 = t3 + t7 + t11;
    let r128: u128 = if s > u {
        s - u
    } else {
        0
    };
    assert(r128 <= 1_700_000_000u128);
    r128 as u64
}

/// Clamp a coordinate into the valid range, in micro-degrees.
pub open spec fn spec_clamp(v: int, lo: int, hi: int) -> int {
    if v < lo {
        lo
    } else if v > hi {
        hi
    } else {
        v
    }
}

fn clamp_i64(v: i64, lo: i64, hi: i64) -> (r: i64)
    requires
        lo <= hi,
    ensures
        r == spec_clamp(v as int, lo as int, hi as int),
        lo <= r <= hi,
{
    if v < lo {
        lo
    } else if v > hi {
        hi
    } else {
        v
    }
}

/// The haversine quantity of two coordinates at scale:
/// `hav(dphi) + cos(phi1) * cos(phi2) * hav(dlambda)`, in fixed point,
/// with coordinates clamped into range.
pub open spec fn spec_hav_q9(lat1: int, lon1: int, lat2: int, lon2: int) -> int {
    let p1 = spec_clamp(lat1, -90_000_000, 90_000_000);
    let p2 = spec_clamp(lat2, -90_000_000, 90_000_000);
    let l1 = spec_clamp(lon1, -180_000_000, 180_000_000);
    let l2 = spec_clamp(lon2, -180_000_000, 180_000_000);
    let dphi = if p1 >= p2 {
        p1 - p2
    } else {
        p2 - p1
    };
    let dlam = if l1 >= l2 {
        l1 - l2
    } else {
        l2 - l1
    };
    let hphi = spec_rad_q9(dphi) / 2;
    let hlam0 = spec_rad_q9(dlam) / 2;
    let hlam = if hlam0 > half_pi_q9() {
        pi_q9() - hlam0
    } else {
        hlam0
    };
    let s1 = spec_sin_q9(hphi);
    let s2 = spec_sin_q9(if hlam < 0 {
        0
    } else {
        hlam
    });
    let a1 = spec_abs_lat_cos(p1);
    let a2 = spec_abs_lat_cos(p2);
    s1 * s1 / sc() + (a1 * a2 / sc()) * (s2 * s2 / sc()) / sc()
}

/// The cosine of a clamped latitude, as the sine of its complement.
pub open spec fn spec_abs_lat_cos(lat: int) -> int {
    let a = if lat >= 0 {
        lat
    } else {
        -lat
    };
    spec_sin_q9(half_pi_q9() - spec_rad_q9(a))
}

fn abs_lat_cos(lat: i64) -> (r: u64)
    requires
        -90_000_000 <= lat <= 90_000_000,
    ensures
        r == spec_abs_lat_cos(lat as int),
        r <= 1_700_000_000,
{
    let a: u64 = if lat >= 0 {
        lat as u64
    } else {
        (-lat) as u64
    };
    let rad: u128 = (a as u128) * 17_453_292_519 / 1_000_000_000;
    assert(rad <= 1_570_796_327u128);
    sin_q9(1_570_796_327 - (rad as u64))
}

/// The distance window: whether the two points lie within `radius_m`
/// metres of one another on the sphere of radius 6371 km, evaluated by
/// comparing haversine quantities in fixed point.
pub open spec fn spec_within_radius(
    lat1: int,
    lon1: int,
    lat2: int,
    lon2: int,
    radius_m: int,
) -> bool {
    let theta = radius_m * sc() / 12_742_000;
    if theta > half_pi_q9() {
        true
    } else {
        let st = spec_sin_q9(theta);
        spec_hav_q9(lat1, lon1, lat2, lon2) <= st * st / sc()
    }
}

/// Evaluate the distance window on executable values.
pub fn within_radius(lat1: i64, lon1: i64, lat2: i64, lon2: i64, radius_m: u64) -> (r: bool)
    ensures
        r == spec_within_radius(lat1 as int, lon1 as int, lat2 as int, lon2 as int, radius_m as int),
{
    let theta128: u128 = (radius_m as u128) * 1_000_000_000 / 12_742_000;
    if theta128 > 1_570_796_327 {
        return true;
    }
    let st = sin_q9(theta128 as u64);
    assert((st as u128) * (st as u128) <= 1_700_000_000u128 * 1_700_000_000u128)
        by (nonlinear_arith)
        requires
            (st as u128) <= 1_700_000_000u128,
    ;
    let thr: u128 = (st as u128) * (st as u128) / 1_000_000_000;
    let p1 = clamp_i64(lat1, -90_000_000, 90_000_000);
    let p2 = clamp_i64(lat2, -90_000_000, 90_000_000);
    let l1 = clamp_i64(lon1, -180_000_000, 180_000_000);
    let l2 = clamp_i64(lon2, -180_000_000, 180_000_000);
    let dphi: u64 = if p1 >= p2 {
        (p1 - p2) as u64
    } else {
        (p2 - p1) as u64
    };
    let dlam: u64 = if l1 >= l2 {
        (l1 - l2) as u64
    } else {
        (l2 - l1) as u64
    };
    let hphi: u128 = (dphi as u128) * 17_453_292_519 / 1_000_000_000 / 2;
    assert(hphi <= 1_570_796_327u128);
    let hlam0: u128 = (dlam as u128) * 17_453_292_519 / 1_000_000_000 / 2;
    assert(hlam0 <= 3_141_592_653u128);
    let hlam: u128 = if hlam0 > 1_570_796_327 {
        3_141_592_653 - hlam0
    } else {
        hlam0
    };
    let s1 = sin_q9(hphi as u64);
    let s2 = sin_q9(hlam as u64);
    let a1 = abs_lat_cos(p1);
    let a2 = abs_lat_cos(p2);
    assert((s1 as u128) * (s1 as u128) <= 1_700_000_000u128 * 1_700_000_000u128)
        by (nonlinear_arith)
        requires
            (s1 as u128) <= 1_700_000_000u128,
    ;
    let h1: u128 = (s1 as u128) * (s1 as u128) / 1_000_000_000;
    assert((s2 as u128) * (s2 as u128) <= 1_700_000_000u128 * 1_700_000_000u128)
        by (nonlinear_arith)
        requires
            (s2 as u128) <= 1_700_000_000u128,
    ;
    let h2: u128 = (s2 as u128) * (s2 as u128) / 1_000_000_000;
    assert((a1 as u128) * (a2 as u128) <= 1_700_000_000u128 * 1_700_000_000u128)
        by (nonlinear_arith)
        requires
            (a1 as u128) <= 1_700_000_000u128,
            (a2 as u128) <= 1_700_000_000u128,
    ;
    let cc2: u128 = (a1 as u128) * (a2 as u128) / 1_000_000_000;
    assert(cc2 <= 2_890_000_000u128);
    assert(h2 <= 2_890_000_000u128);
    assert(cc2 * h2 <= 2_890_000_000u128 * 2_890_000_000u128) by (nonlinear_arith)
        requires
            cc2 <= 2_890_000_000u128,
            h2 <= 2_890_000_000u128,
    ;
    let a9: u128 = h1 + cc2 * h2 / 1_000_000_000;
    proof {
        let g_hphi = spec_rad_q9(if p1 >= p2 {
            p1 - p2
        } else {
            p2 - p1
        } as int) / 2;
        assert(hphi == g_hphi);
    }
    a9 <= thr
}

impl LocationInfo {
    /// Whether this record lies within `radius_m` metres of the given
    /// point, by the fixed-point haversine window.
    pub fn is_within_radius(&self, lat_udeg: i64, lon_udeg: i64, radius_m: u64) -> (r: bool)
        ensures
            r == spec_within_radius(
                self@.latitude as int,
                self@.longitude as int,
                lat_udeg as int,
                lon_udeg as int,
                radius_m as int,
            ),
    {
        within_radius(self.latitude, self.longitude, lat_udeg, lon_udeg, radius_m)
    }
}

} // verus!
