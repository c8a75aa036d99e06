//! The request pipeline: cache probe, archive policy, geo policy,
//! upstream fetch, signature verification, cache admission and audit
//! emission, strictly in that order.  The outside work — the geo lookup,
//! the fetch, the signature run — happens beyond the library; each step
//! here takes its outcome as a value and decides what follows.

use vstd::prelude::*;
use vstd::string::*;
use crate::audit::{AuditLogger, AuditEvent, AuditEventType, AuditStatus, spec_types_of};
use crate::cache::{CacheManager, CachedResponse, spec_entry_valid, spec_determine_ttl, SpecCacheEntry};
use crate::policy::{PolicyEngine, spec_check_path};
use crate::geo::{GeoPolicyEngine, GeoAction};
use crate::gpg::GpgVerificationResult;
use crate::location::LocationInfo;
use crate::strutil::{split_char, spec_split, trim, spec_trim, ends_with, spec_ends_with};

verus! {

/// An inbound request, reduced to what the pipeline reads.
#[derive(Debug, Clone)]
pub struct Request {
    pub method: String,
    pub path: String,
    pub user_agent: Option<String>,
    pub forwarded_for: Option<String>,
    pub real_ip: Option<String>,
    pub forwarded: Option<String>,
}

/// An outbound response.
#[derive(Debug, Clone)]
pub struct Response {
    pub status: u16,
    pub headers: Vec<(String, String)>,
    pub body: Vec<u8>,
}

impl View for Response {
    type V = crate::cache::SpecCachedResponse;

    open spec fn view(&self) -> crate::cache::SpecCachedResponse {
        crate::cache::SpecCachedResponse {
            status: self.status,
            headers: crate::cache::spec_headers(self.headers@),
            body: self.body@,
        }
    }
}

/// What the upstream fetch came back with: a complete success, or the
/// reason it failed (a non-2xx status counts as a failure).
#[derive(Debug, Clone)]
pub enum FetchOutcome {
    Success { status: u16, headers: Vec<(String, String)>, body: Vec<u8> },
    Failure { message: String },
}

/// Where the pipeline stands after the local steps.
pub enum BeginOutcome {
    Done(Response),
    NeedGeo { client_ip: String },
    NeedFetch,
}

/// Where the pipeline stands after the geo step.
pub enum GeoOutcome {
    Done(Response),
    NeedFetch,
}

/// Where the pipeline stands after the fetch step.
pub enum FetchStep {
    Done(Response),
    NeedVerify { status: u16, headers: Vec<(String, String)>, body: Vec<u8> },
}

/// The client IP a request names: the first comma-separated element of
/// `X-Forwarded-For`, trimmed; else `X-Real-IP`; else `X-Forwarded`.
pub open spec fn spec_client_ip(r: Request) -> Option<Seq<char>> {
    match r.forwarded_for {
        Some(ff) => Some(spec_trim(spec_split(ff@, ',')[0])),
        None => match r.real_ip {
            Some(ri) => Some(ri@),
            None => match r.forwarded {
                Some(fw) => Some(fw@),
                None => None,
            },
        },
    }
}

/// Extract the client IP from the request's headers.
pub fn extract_client_ip(req: &Request) -> (r: Option<String>)
    ensures
        r.deep_view() == spec_client_ip(*req),
{
    match &req.forwarded_for {
        Some(ff) => {
            let parts = split_char(ff.as_str(), ',');
            proof {
                crate::strutil::lemma_split_len(ff@, ',');
                assert(parts.deep_view()[0] == spec_split(ff@, ',')[0]);
            }
            Some(trim(parts[0].as_str()))
        },
        None => match &req.real_ip {
            Some(ri) => Some(ri.clone()),
            None => match &req.forwarded {
                Some(fw) => Some(fw.clone()),
                None => None,
            },
        },
    }
}

/// A JSON string body with one key and a literal value.
pub open spec fn spec_json_kv(key: Seq<char>, value: Seq<char>) -> Seq<char> {
    "{\""@ + key + "\":\""@ + value + "\"}"@
}

fn json_kv(key: &str, value: &str) -> (r: String)
    ensures
        r@ == spec_json_kv(key@, value@),
{
    proof {
        reveal_strlit("{\"");
        reveal_strlit("\":\"");
        reveal_strlit("\"}");
    }
    let mut r = String::from_str("{\"");
    r.append(key);
    r.append("\":\"");
    r.append(value);
    r.append("\"}");
    r
}

/// Text as bytes: each character below 128 is itself, anything else a
/// question mark.
pub open spec fn spec_text_bytes(body: Seq<char>) -> Seq<u8> {
    body.map_values(
        |c: char|
            if (c as u32) < 128 {
                c as u8
            } else {
                63u8
            },
    )
}

/// A response carrying a JSON body and the matching content type.
pub open spec fn spec_json_response(status: u16, body: Seq<char>, r: Response) -> bool {
    r.status == status && r.headers@.len() == 1 && r.headers@[0].0@ == "content-type"@
        && r.headers@[0].1@ == "application/json"@ && r.body@ == spec_text_bytes(body)
}

fn json_response(status: u16, body: String) -> (r: Response)
    ensures
        spec_json_response(status, body@, r),
{
    proof {
        reveal_strlit("content-type");
        reveal_strlit("application/json");
    }
    let headers = vec![
        (String::from_str("content-type"), String::from_str("application/json")),
    ];
    let body_bytes = text_bytes(&body);
    let r = Response { status, headers, body: body_bytes };
    proof {
        assert(r.headers@[0].0@ == "content-type"@);
    }
    r
}

/// The bytes of a string, lossily.
fn text_bytes(s: &String) -> (r: Vec<u8>)
    ensures
        r@ == spec_text_bytes(s@),
{
    let n = s.as_str().unicode_len();
    let mut r: Vec<u8> = Vec::new();
    let mut i: usize = 0;
    while i < n
        invariant
            i <= n,
            n == s@.len(),
            r@ =~= spec_text_bytes(s@).take(i as int),
        decreases n - i,
    {
        let c = s.as_str().get_char(i);
        let b: u8 = if (c as u32) < 128 {
            c as u8
        } else {
            63
        };
        r.push(b);
        proof {
            assert(r@ =~= spec_text_bytes(s@).take(i + 1));
        }
        i = i + 1;
    }
    proof {
        assert(r@ =~= spec_text_bytes(s@));
    }
    r
}

/// A 302 redirect: the target in the `location` header, the JSON body
/// naming it, and the content type.
pub open spec fn spec_redirect_response(url: Seq<char>, r: Response) -> bool {
    r.status == 302 && r.headers@.len() == 2 && r.headers@[0].0@ == "location"@
        && r.headers@[0].1@ == url && r.headers@[1].0@ == "content-type"@ && r.headers@[1].1@
        == "application/json"@ && r.body@ == spec_text_bytes(spec_json_kv("redirect"@, url))
}

fn redirect_response(url: &String) -> (r: Response)
    ensures
        spec_redirect_response(url@, r),
{
    proof {
        reveal_strlit("location");
        reveal_strlit("content-type");
        reveal_strlit("application/json");
        reveal_strlit("redirect");
    }
    let body = json_kv("redirect", url.as_str());
    let body_bytes = text_bytes(&body);
    let headers = vec![
        (String::from_str("location"), url.clone()),
        (String::from_str("content-type"), String::from_str("application/json")),
    ];
    let r = Response { status: 302, headers, body: body_bytes };
    proof {
        assert(r.headers@[0].0@ == "location"@);
        assert(r.headers@[1].0@ == "content-type"@);
    }
    r
}

/// The events one request appends in its local phase.
pub open spec fn spec_begin_types(o: BeginOutcome, hit: bool) -> Seq<AuditEventType> {
    match o {
        BeginOutcome::Done(_) => if hit {
            seq![AuditEventType::Request, AuditEventType::CacheHit]
        } else {
            seq![AuditEventType::Request, AuditEventType::PolicyViolation]
        },
        _ => seq![AuditEventType::Request],
    }
}

/// The router: the policy engines, the cache and the audit trail, with
/// the pipeline steps over them.
pub struct Router {
    pub policy: PolicyEngine,
    pub geo: GeoPolicyEngine,
    pub cache: CacheManager,
    pub audit: AuditLogger,
}

impl Router {
    /// The router's standing invariant: the cache keeps its keys unique.
    pub open spec fn wf(&self) -> bool {
        self.cache.wf()
    }

    /// A router from its four parts.
    pub fn new(
        policy: PolicyEngine,
        geo: GeoPolicyEngine,
        cache: CacheManager,
        audit: AuditLogger,
    ) -> (r: Router)
        requires
            cache.wf(),
        ensures
            r.wf(),
            r.policy == policy,
            r.geo == geo,
            r.cache == cache,
            r.audit == audit,
    {
        Router { policy, geo, cache, audit }
    }

    /// The local phase: record the request, probe the cache, check the
    /// archive policy, and say whether geo evaluation or a fetch follows.
    /// A cache hit answers the stored response verbatim; a policy
    /// rejection answers 403.
    pub fn begin(&mut self, req: &Request, now_ms: u64) -> (o: BeginOutcome)
        requires
            old(self).wf(),
        ensures
            final(self).wf(),
            final(self).policy == old(self).policy,
            final(self).geo == old(self).geo,
            final(self).cache == old(self).cache,
            ({
                let hit = final(self).cache.spec_map().dom().contains(req.path@)
                    && spec_entry_valid(final(self).cache.spec_map()[req.path@], now_ms);
                let policy_ok = ((req.method@ == "GET"@) || (req.method@ == "HEAD"@))
                    && spec_check_path(old(self).policy@, req.path@) is Ok;
                let reason = if !((req.method@ == "GET"@) || (req.method@ == "HEAD"@)) {
                    "Access denied by policy"@
                } else {
                    spec_check_path(old(self).policy@, req.path@)->Err_0
                };
                spec_types_of(final(self).audit.spec_events()) == spec_types_of(
                    old(self).audit.spec_events(),
                ) + spec_begin_types(o, hit) && (match o {
                    BeginOutcome::Done(resp) => (hit && resp@
                        == final(self).cache.spec_map()[req.path@].data) || (!hit && !policy_ok
                        && spec_json_response(
                        403,
                        spec_json_kv("error"@, crate::audit::spec_json_escape(reason)),
                        resp,
                    ) && final(self).audit.spec_events().last().message.deep_view() == Some(
                        "Policy violation: "@ + reason,
                    )),
                    BeginOutcome::NeedGeo { client_ip } => !hit && policy_ok && spec_client_ip(
                        *req,
                    ) == Some(client_ip@) && old(self).geo.spec_policy().enabled,
                    BeginOutcome::NeedFetch => !hit && policy_ok && (spec_client_ip(*req)
                        is None || !old(self).geo.spec_policy().enabled),
                })
            }),
    {
        proof {
            reveal_strlit("GET");
            reveal_strlit("HEAD");
            reveal_strlit("Request received");
            reveal_strlit("Cache hit");
            reveal_strlit("Access denied by policy");
            reveal_strlit("error");
        }
        let client_ip = extract_client_ip(req);
        self.audit.log(
            AuditEventType::Request,
            None,
            Some(req.method.clone()),
            req.path.as_str(),
            match &req.user_agent {
                Some(ua) => Some(ua.clone()),
                None => None,
            },
            AuditStatus::Info,
            Some(String::from_str("Request received")),
        );
        if let Some(cached) = self.cache.get_at(req.path.as_str(), now_ms) {
            self.audit.log(
                AuditEventType::CacheHit,
                None,
                None,
                req.path.as_str(),
                None,
                AuditStatus::Info,
                Some(String::from_str("Cache hit")),
            );
            let resp = Response {
                status: cached.status,
                headers: cached.headers,
                body: cached.body,
            };
            proof {
                assert(spec_types_of(self.audit.spec_events()) =~= spec_types_of(
                    old(self).audit.spec_events(),
                ) + seq![AuditEventType::Request, AuditEventType::CacheHit]);
            }
            return BeginOutcome::Done(resp);
        }
        let method_ok = crate::strutil::str_eq(req.method.as_str(), "GET")
            || crate::strutil::str_eq(req.method.as_str(), "HEAD");
        let violation: Option<String> = if !method_ok {
            Some(String::from_str("Access denied by policy"))
        } else {
            match self.policy.check_path(req.path.as_str()) {
                Ok(()) => None,
                Err(e) => Some(e),
            }
        };
        if let Some(reason) = violation {
            proof {
                reveal_strlit("Policy violation: ");
            }
            let mut msg = String::from_str("Policy violation: ");
            msg.append(reason.as_str());
            self.audit.log(
                AuditEventType::PolicyViolation,
                None,
                None,
                req.path.as_str(),
                None,
                AuditStatus::Warning,
                Some(msg),
            );
            let escaped = crate::audit::json_escape(reason.as_str());
            let body = json_kv("error", escaped.as_str());
            proof {
                assert(spec_types_of(self.audit.spec_events()) =~= spec_types_of(
                    old(self).audit.spec_events(),
                ) + seq![AuditEventType::Request, AuditEventType::PolicyViolation]);
            }
            return BeginOutcome::Done(json_response(403, body));
        }
        proof {
            assert(spec_types_of(self.audit.spec_events()) =~= spec_types_of(
                old(self).audit.spec_events(),
            ) + seq![AuditEventType::Request]);
        }
        match client_ip {
            Some(ip) => {
                if self.geo.policy_enabled() {
                    BeginOutcome::NeedGeo { client_ip: ip }
                } else {
                    BeginOutcome::NeedFetch
                }
            },
            None => BeginOutcome::NeedFetch,
        }
    }

    /// The geo phase: the engine decides on the looked-up location, and
    /// the decided action is applied — Deny answers 403, a rate limit
    /// 429, a redirect 302 with the target in the `location` header;
    /// allow and log-only continue.  A missing database falls back to
    /// the default action after a `GeoIPError` event.
    pub fn on_geo(
        &mut self,
        req: &Request,
        client_ip: &str,
        lookup: Option<LocationInfo>,
        utc_hour: u32,
    ) -> (o: GeoOutcome)
        requires
            old(self).wf(),
            utc_hour < 24,
        ensures
            final(self).wf(),
            final(self).policy == old(self).policy,
            final(self).geo == old(self).geo,
            final(self).cache == old(self).cache,
            ({
                let oldt = spec_types_of(old(self).audit.spec_events());
                let fint = spec_types_of(final(self).audit.spec_events());
                let err_path = old(self).geo.spec_policy().enabled && !old(
                    self,
                ).geo.spec_database_available();
                let act = crate::geo::spec_engine_action(
                    old(self).geo.spec_policy(),
                    old(self).geo.spec_database_available(),
                    crate::geo::spec_eval_location(client_ip@, lookup),
                    utc_hour,
                );
                match act {
                    GeoAction::Allow => (o is NeedFetch) && fint == oldt + (if err_path {
                        seq![AuditEventType::GeoIPError]
                    } else {
                        seq![AuditEventType::GeoIPAllowed]
                    }),
                    GeoAction::LogOnly => (o is NeedFetch) && fint == oldt + (if err_path {
                        seq![AuditEventType::GeoIPError]
                    } else {
                        seq![AuditEventType::GeoIPLogOnly]
                    }),
                    GeoAction::Deny => (o matches GeoOutcome::Done(resp) && spec_json_response(
                        403,
                        spec_json_kv("error"@, "Access denied by GeoIP policy"@),
                        resp,
                    )) && fint == oldt + (if err_path {
                        seq![AuditEventType::GeoIPError]
                    } else {
                        seq![AuditEventType::GeoIPDenied]
                    }),
                    GeoAction::RateLimit { requests_per_minute } => (o matches GeoOutcome::Done(
                        resp,
                    ) && spec_json_response(
                        429,
                        spec_json_kv("error"@, "Rate limited by GeoIP policy"@),
                        resp,
                    )) && fint == oldt + (if err_path {
                        seq![AuditEventType::GeoIPError]
                    } else {
                        seq![AuditEventType::GeoIPRateLimit]
                    }),
                    GeoAction::Redirect { url } => (o matches GeoOutcome::Done(resp)
                        && spec_redirect_response(url@, resp)) && fint == oldt + (if err_path {
                        seq![AuditEventType::GeoIPError]
                    } else {
                        seq![AuditEventType::GeoIPRedirect]
                    }),
                }
            }),
    {
        let ghost oldt = spec_types_of(self.audit.spec_events());
        if self.geo.policy_enabled() && !self.geo.database_available() {
            proof {
                reveal_strlit("GeoIP error: ");
                reveal_strlit("GeoIP database not available");
            }
            let mut emsg = String::from_str("GeoIP error: ");
            emsg.append("GeoIP database not available");
            self.audit.log(
                AuditEventType::GeoIPError,
                Some(String::from_str(client_ip)),
                None,
                req.path.as_str(),
                None,
                AuditStatus::Error,
                Some(emsg),
            );
            let ghost midt = spec_types_of(self.audit.spec_events());
            proof {
                assert(midt =~= oldt + seq![AuditEventType::GeoIPError]);
            }
            let action = self.geo.default_action();
            let o = self.apply_geo_action(req, client_ip, action, true);
            o
        } else {
            let decided = self.geo.check_request_with(client_ip, lookup, utc_hour);
            let action = decided.action.clone_action();
            proof {
                let act = crate::geo::spec_engine_action(
                    self.geo.spec_policy(),
                    self.geo.spec_database_available(),
                    crate::geo::spec_eval_location(client_ip@, lookup),
                    utc_hour,
                );
                assert(crate::geo::spec_action_eq(action, act));
            }
            let o = self.apply_geo_action(req, client_ip, action, false);
            o
        }
    }

    /// Apply a geo action, recording its event unless one was already
    /// recorded for this step.
    fn apply_geo_action(
        &mut self,
        req: &Request,
        client_ip: &str,
        action: GeoAction,
        already_logged: bool,
    ) -> (o: GeoOutcome)
        requires
            old(self).wf(),
        ensures
            final(self).wf(),
            final(self).policy == old(self).policy,
            final(self).geo == old(self).geo,
            final(self).cache == old(self).cache,
            ({
                let oldt = spec_types_of(old(self).audit.spec_events());
                let fint = spec_types_of(final(self).audit.spec_events());
                match action {
                    GeoAction::Allow => (o is NeedFetch) && fint == oldt + (if already_logged {
                        Seq::<AuditEventType>::empty()
                    } else {
                        seq![AuditEventType::GeoIPAllowed]
                    }),
                    GeoAction::LogOnly => (o is NeedFetch) && fint == oldt + (if already_logged {
                        Seq::<AuditEventType>::empty()
                    } else {
                        seq![AuditEventType::GeoIPLogOnly]
                    }),
                    GeoAction::Deny => (o matches GeoOutcome::Done(resp) && spec_json_response(
                        403,
                        spec_json_kv("error"@, "Access denied by GeoIP policy"@),
                        resp,
                    )) && fint == oldt + (if already_logged {
                        Seq::<AuditEventType>::empty()
                    } else {
                        seq![AuditEventType::GeoIPDenied]
                    }),
                    GeoAction::RateLimit { requests_per_minute } => (o matches GeoOutcome::Done(
                        resp,
                    ) && spec_json_response(
                        429,
                        spec_json_kv("error"@, "Rate limited by GeoIP policy"@),
                        resp,
                    )) && fint == oldt + (if already_logged {
                        Seq::<AuditEventType>::empty()
                    } else {
                        seq![AuditEventType::GeoIPRateLimit]
                    }),
                    GeoAction::Redirect { url } => (o matches GeoOutcome::Done(resp)
                        && spec_redirect_response(url@, resp)) && fint == oldt + (
                    if already_logged {
                        Seq::<AuditEventType>::empty()
                    } else {
                        seq![AuditEventType::GeoIPRedirect]
                    }),
                }
            }),
    {
        proof {
            reveal_strlit("Policy denied");
            reveal_strlit("GeoIP denied: ");
            reveal_strlit("Access denied by GeoIP policy");
            reveal_strlit("Rate limited by GeoIP policy");
            reveal_strlit("GeoIP rate limited");
            reveal_strlit("GeoIP redirect to: ");
            reveal_strlit("GeoIP allowed: Allowed");
            reveal_strlit("GeoIP log only: Log only");
            reveal_strlit("error");
        }
        match action {
            GeoAction::Deny => {
                if !already_logged {
                    let mut msg = String::from_str("GeoIP denied: ");
                    msg.append("Policy denied");
                    self.audit.log(
                        AuditEventType::GeoIPDenied,
                        Some(String::from_str(client_ip)),
                        None,
                        req.path.as_str(),
                        None,
                        AuditStatus::Warning,
                        Some(msg),
                    );
                }
                let body = json_kv("error", "Access denied by GeoIP policy");
                GeoOutcome::Done(json_response(403, body))
            },
            GeoAction::RateLimit { requests_per_minute } => {
                if !already_logged {
                    self.audit.log(
                        AuditEventType::GeoIPRateLimit,
                        Some(String::from_str(client_ip)),
                        None,
                        req.path.as_str(),
                        None,
                        AuditStatus::Warning,
                        Some(String::from_str("GeoIP rate limited")),
                    );
                }
                let body = json_kv("error", "Rate limited by GeoIP policy");
                GeoOutcome::Done(json_response(429, body))
            },
            GeoAction::Redirect { url } => {
                if !already_logged {
                    let mut msg = String::from_str("GeoIP redirect to: ");
                    msg.append(url.as_str());
                    self.audit.log(
                        AuditEventType::GeoIPRedirect,
                        Some(String::from_str(client_ip)),
                        None,
                        req.path.as_str(),
                        None,
                        AuditStatus::Info,
                        Some(msg),
                    );
                }
                let resp = redirect_response(&url);
                GeoOutcome::Done(resp)
            },
            GeoAction::Allow => {
                if !already_logged {
                    self.audit.log(
                        AuditEventType::GeoIPAllowed,
                        Some(String::from_str(client_ip)),
                        None,
                        req.path.as_str(),
                        None,
                        AuditStatus::Success,
                        Some(String::from_str("GeoIP allowed: Allowed")),
                    );
                }
                GeoOutcome::NeedFetch
            },
            GeoAction::LogOnly => {
                if !already_logged {
                    self.audit.log(
                        AuditEventType::GeoIPLogOnly,
                        Some(String::from_str(client_ip)),
                        None,
                        req.path.as_str(),
                        None,
                        AuditStatus::Info,
                        Some(String::from_str("GeoIP log only: Log only")),
                    );
                }
                GeoOutcome::NeedFetch
            },
        }
    }

    /// The fetch phase: a failure answers 500 after a `FetchError`
    /// event; a success is recorded, and a release index goes on to
    /// signature verification while anything else is admitted to the
    /// cache and answered as fetched.
    pub fn on_fetch(&mut self, req: &Request, outcome: FetchOutcome, now_ms: u64) -> (o: FetchStep)
        requires
            old(self).wf(),
        ensures
            final(self).wf(),
            final(self).policy == old(self).policy,
            final(self).geo == old(self).geo,
            ({
                let oldt = spec_types_of(old(self).audit.spec_events());
                let fint = spec_types_of(final(self).audit.spec_events());
                match outcome {
                    FetchOutcome::Failure { message } => fint == oldt + seq![
                        AuditEventType::FetchError,
                    ] && (o matches FetchStep::Done(resp) && resp.status == 500)
                        && final(self).cache == old(self).cache,
                    FetchOutcome::Success { status, headers, body } => fint == oldt + seq![
                        AuditEventType::FetchSuccess,
                    ] && (if spec_ends_with(req.path@, "InRelease"@) || spec_ends_with(
                        req.path@,
                        "Release"@,
                    ) {
                        final(self).cache == old(self).cache && (o matches FetchStep::NeedVerify {
                            status: s,
                            headers: h,
                            body: b,
                        } && s == status && h@ == headers@ && b@ == body@)
                    } else {
                        (o matches FetchStep::Done(resp) && resp@ == (
                        crate::cache::SpecCachedResponse {
                            status,
                            headers: crate::cache::spec_headers(headers@),
                            body: body@,
                        }) && final(self).cache.spec_map()
                            == old(self).cache.spec_map().insert(
                            req.path@,
                            SpecCacheEntry {
                                data: resp@,
                                created_at_ms: now_ms,
                                ttl_secs: spec_determine_ttl(
                                    old(self).cache.spec_ttl(),
                                    req.path@,
                                ),
                            },
                        ))
                    }),
                }
            }),
    {
        proof {
            reveal_strlit("Fetch error: ");
            reveal_strlit("Successfully fetched from upstream");
            reveal_strlit("InRelease");
            reveal_strlit("Release");
            reveal_strlit("error");
        }
        match outcome {
            FetchOutcome::Failure { message } => {
                let mut msg = String::from_str("Fetch error: ");
                msg.append(message.as_str());
                self.audit.log(
                    AuditEventType::FetchError,
                    None,
                    None,
                    req.path.as_str(),
                    None,
                    AuditStatus::Error,
                    Some(msg),
                );
                let body = json_kv("error", "Fetch failed");
                proof {
                    reveal_strlit("Fetch failed");
                    assert(spec_types_of(self.audit.spec_events()) =~= spec_types_of(
                        old(self).audit.spec_events(),
                    ) + seq![AuditEventType::FetchError]);
                }
                FetchStep::Done(json_response(500, body))
            },
            FetchOutcome::Success { status, headers, body } => {
                self.audit.log(
                    AuditEventType::FetchSuccess,
                    None,
                    None,
                    req.path.as_str(),
                    None,
                    AuditStatus::Success,
                    Some(String::from_str("Successfully fetched from upstream")),
                );
                proof {
                    assert(spec_types_of(self.audit.spec_events()) =~= spec_types_of(
                        old(self).audit.spec_events(),
                    ) + seq![AuditEventType::FetchSuccess]);
                }
                if ends_with(req.path.as_str(), "InRelease") || ends_with(
                    req.path.as_str(),
                    "Release",
                ) {
                    FetchStep::NeedVerify { status, headers, body }
                } else {
                    let resp = Response { status, headers, body };
                    let stored = CachedResponse {
                        status: resp.status,
                        headers: clone_headers(&resp.headers),
                        body: clone_bytes(&resp.body),
                    };
                    proof {
                        assert(stored@ == resp@);
                    }
                    self.cache.store_at(req.path.as_str(), stored, now_ms);
                    FetchStep::Done(resp)
                }
            },
        }
    }

    /// The verification phase: a valid signature is recorded, the body
    /// admitted to the cache, and the fetched response answered; an
    /// invalid one answers 400 and nothing is cached.
    pub fn on_verify(
        &mut self,
        req: &Request,
        status: u16,
        headers: Vec<(String, String)>,
        body: Vec<u8>,
        result: &GpgVerificationResult,
        now_ms: u64,
    ) -> (resp: Response)
        requires
            old(self).wf(),
        ensures
            final(self).wf(),
            final(self).policy == old(self).policy,
            final(self).geo == old(self).geo,
            ({
                let oldt = spec_types_of(old(self).audit.spec_events());
                let fint = spec_types_of(final(self).audit.spec_events());
                (if result.valid {
                    fint == oldt + seq![AuditEventType::VerificationSuccess] && resp@ == (
                    crate::cache::SpecCachedResponse {
                        status,
                        headers: crate::cache::spec_headers(headers@),
                        body: body@,
                    }) && final(self).cache.spec_map()
                        == old(self).cache.spec_map().insert(
                        req.path@,
                        SpecCacheEntry {
                            data: resp@,
                            created_at_ms: now_ms,
                            ttl_secs: spec_determine_ttl(old(self).cache.spec_ttl(), req.path@),
                        },
                    )
                } else {
                    fint == oldt + seq![AuditEventType::VerificationFailed] && resp.status == 400
                        && final(self).cache == old(self).cache
                })
            }),
    {
        proof {
            reveal_strlit("GPG verification successful");
            reveal_strlit("GPG verification failed: ");
            reveal_strlit("GPG verification failed");
            reveal_strlit("Unknown error");
            reveal_strlit("error");
        }
        if result.valid {
            self.audit.log(
                AuditEventType::VerificationSuccess,
                None,
                None,
                req.path.as_str(),
                None,
                AuditStatus::Success,
                Some(String::from_str("GPG verification successful")),
            );
            proof {
                assert(spec_types_of(self.audit.spec_events()) =~= spec_types_of(
                    old(self).audit.spec_events(),
                ) + seq![AuditEventType::VerificationSuccess]);
            }
            let resp = Response { status, headers, body };
            let stored = CachedResponse {
                status: resp.status,
                headers: clone_headers(&resp.headers),
                body: clone_bytes(&resp.body),
            };
            proof {
                assert(stored@ == resp@);
            }
            self.cache.store_at(req.path.as_str(), stored, now_ms);
            resp
        } else {
            let reason = match &result.error_message {
                Some(m) => m.clone(),
                None => String::from_str("Unknown error"),
            };
            let mut msg = String::from_str("GPG verification failed: ");
            msg.append(reason.as_str());
            self.audit.log(
                AuditEventType::VerificationFailed,
                None,
                None,
                req.path.as_str(),
                None,
                AuditStatus::Failed,
                Some(msg),
            );
            let body_json = json_kv("error", "GPG verification failed");
            proof {
                assert(spec_types_of(self.audit.spec_events()) =~= spec_types_of(
                    old(self).audit.spec_events(),
                ) + seq![AuditEventType::VerificationFailed]);
            }
            json_response(400, body_json)
        }
    }
}

/// A field-for-field copy of a header list.
fn clone_headers(h: &Vec<(String, String)>) -> (r: Vec<(String, String)>)
    ensures
        crate::cache::spec_headers(r@) == crate::cache::spec_headers(h@),
{
    let mut r: Vec<(String, String)> = Vec::new();
    let n = h.len();
    let mut i: usize = 0;
    while i < n
        invariant
            i <= n,
            n == h@.len(),
            r@.len() == i,
            forall|k: int|
                0 <= k < i ==> (#[trigger] r@[k]).0@ == h@[k].0@ && r@[k].1@ == h@[k].1@,
        decreases n - i,
    {
        let pair = (h[i].0.clone(), h[i].1.clone());
        r.push(pair);
        i = i + 1;
    }
    proof {
        assert(crate::cache::spec_headers(r@) =~= crate::cache::spec_headers(h@));
    }
    r
}

/// A copy of a byte body.
fn clone_bytes(b: &Vec<u8>) -> (r: Vec<u8>)
    ensures
        r@ == b@,
{
    let mut r: Vec<u8> = Vec::new();
    let n = b.len();
    let mut i: usize = 0;
    while i < n
        invariant
            i <= n,
            n == b@.len(),
            r@ =~= b@.take(i as int),
        decreases n - i,
    {
        r.push(b[i]);
        i = i + 1;
    }
    proof {
        assert(r@ =~= b@);
    }
    r
}

/// The whole-trace shapes a successful request may leave: a cache hit,
/// or a fetch with an optional geo event before it and an optional
/// verification after it.
pub open spec fn spec_ok_event_trace(t: Seq<AuditEventType>) -> bool {
    t == seq![AuditEventType::Request, AuditEventType::CacheHit] || exists|g: Seq<AuditEventType>|
        exists|v: Seq<AuditEventType>|
            (#[trigger] spec_geo_opt(g)) && (#[trigger] spec_verify_opt(v)) && t == seq![
                AuditEventType::Request,
            ] + g + seq![AuditEventType::FetchSuccess] + v
}

/// Zero or one continuing geo event.
pub open spec fn spec_geo_opt(g: Seq<AuditEventType>) -> bool {
    g == Seq::<AuditEventType>::empty() || g == seq![AuditEventType::GeoIPAllowed] || g == seq![
        AuditEventType::GeoIPLogOnly,
    ] || g == seq![AuditEventType::GeoIPError]
}

/// Zero or one verification-success event.
pub open spec fn spec_verify_opt(v: Seq<AuditEventType>) -> bool {
    v == Seq::<AuditEventType>::empty() || v == seq![AuditEventType::VerificationSuccess]
}

/// Law: any successful request's audit trail reads
/// `Request (CacheHit | Geo? FetchSuccess VerificationSuccess?)` — the
/// concatenation of what the pipeline steps append, in pipeline order,
/// lies in that language.
pub proof fn lemma_pipeline_event_order(
    geo_added: Seq<AuditEventType>,
    verify_added: Seq<AuditEventType>,
    cache_hit: bool,
)
    requires
        spec_geo_opt(geo_added),
        spec_verify_opt(verify_added),
    ensures
        cache_hit ==> spec_ok_event_trace(
            seq![AuditEventType::Request, AuditEventType::CacheHit],
        ),
        !cache_hit ==> spec_ok_event_trace(
            seq![AuditEventType::Request] + geo_added + seq![AuditEventType::FetchSuccess]
                + verify_added,
        ),
{
}

} // verus!
