//! The audit trail: one typed event for every interesting step of a
//! request, kept in order.

use vstd::prelude::*;
use vstd::string::*;
use crate::strutil::{u64_to_string, spec_dec_digits};

verus! {

/// The closed set of event kinds.
#[derive(Debug, Clone, Copy, PartialEq, Eq, Structural)]
pub enum AuditEventType {
    Request,
    CacheHit,
    FetchSuccess,
    FetchError,
    PolicyViolation,
    VerificationFailed,
    VerificationSuccess,
    GeoIPDenied,
    GeoIPAllowed,
    GeoIPRateLimit,
    GeoIPRedirect,
    GeoIPLogOnly,
    GeoIPError,
}

/// The closed set of event outcomes.
#[derive(Debug, Clone, Copy, PartialEq, Eq, Structural)]
pub enum AuditStatus {
    Success,
    Warning,
    Error,
    Info,
    Failed,
}

/// One audit event.  The timestamp is Unix milliseconds.
#[derive(Debug, Clone)]
pub struct AuditEvent {
    pub timestamp_ms: u64,
    pub event_type: AuditEventType,
    pub client_ip: Option<String>,
    pub method: Option<String>,
    pub path: String,
    pub user_agent: Option<String>,
    pub status: AuditStatus,
    pub message: Option<String>,
    pub duration_ms: Option<u64>,
}

/// The recorder.  Its model is the sequence of events recorded so far.
pub struct AuditLogger {
    events: Vec<AuditEvent>,
}

/// The event kinds of a sequence of events, in order.
pub open spec fn spec_types_of(events: Seq<AuditEvent>) -> Seq<AuditEventType> {
    events.map_values(|e: AuditEvent| e.event_type)
}

impl AuditLogger {
    /// The events recorded so far.
    pub closed spec fn spec_events(&self) -> Seq<AuditEvent> {
        self.events@
    }

    /// An empty trail.
    pub fn new() -> (r: AuditLogger)
        ensures
            r.spec_events() == Seq::<AuditEvent>::empty(),
    {
        let r = AuditLogger { events: Vec::new() };
        proof {
            assert(r.spec_events() =~= Seq::<AuditEvent>::empty());
        }
        r
    }

    /// Every event recorded, oldest first.
    pub fn events(&self) -> (r: &Vec<AuditEvent>)
        ensures
            r@ == self.spec_events(),
    {
        &self.events
    }

    /// Record one event.
    pub fn record(&mut self, event: AuditEvent)
        ensures
            final(self).spec_events() == old(self).spec_events().push(event),
    {
        self.events.push(event);
    }

    /// Record an event of the given kind and fields, timestamped now.
    pub fn log(
        &mut self,
        event_type: AuditEventType,
        client_ip: Option<String>,
        method: Option<String>,
        path: &str,
        user_agent: Option<String>,
        status: AuditStatus,
        message: Option<String>,
    )
        ensures
            final(self).spec_events().len() == old(self).spec_events().len() + 1,
            final(self).spec_events().drop_last() == old(self).spec_events(),
            ({
                let e = final(self).spec_events().last();
                e.event_type == event_type && e.client_ip.deep_view() == client_ip.deep_view()
                    && e.method.deep_view() == method.deep_view() && e.path@ == path@
                    && e.user_agent.deep_view() == user_agent.deep_view() && e.status == status
                    && e.message.deep_view() == message.deep_view() && e.duration_ms is None
            }),
    {
        let event = AuditEvent {
            timestamp_ms: crate::clock::now_millis(),
            event_type,
            client_ip,
            method,
            path: path.to_owned(),
            user_agent,
            status,
            message,
            duration_ms: None,
        };
        self.events.push(event);
        proof {
            assert(self.spec_events().drop_last() =~= old(self).spec_events());
        }
    }
}

impl AuditEventType {
    /// The kind's name, as the event schema spells it.
    pub fn name(&self) -> (r: &'static str)
        ensures
            r@ == spec_type_name(*self),
    {
        proof {
            reveal_strlit("Request");
            reveal_strlit("CacheHit");
            reveal_strlit("FetchSuccess");
            reveal_strlit("FetchError");
            reveal_strlit("PolicyViolation");
            reveal_strlit("VerificationFailed");
            reveal_strlit("VerificationSuccess");
            reveal_strlit("GeoIPDenied");
            reveal_strlit("GeoIPAllowed");
            reveal_strlit("GeoIPRateLimit");
            reveal_strlit("GeoIPRedirect");
            reveal_strlit("GeoIPLogOnly");
            reveal_strlit("GeoIPError");
        }
        match self {
            AuditEventType::Request => "Request",
            AuditEventType::CacheHit => "CacheHit",
            AuditEventType::FetchSuccess => "FetchSuccess",
            AuditEventType::FetchError => "FetchError",
            AuditEventType::PolicyViolation => "PolicyViolation",
            AuditEventType::VerificationFailed => "VerificationFailed",
            AuditEventType::VerificationSuccess => "VerificationSuccess",
            AuditEventType::GeoIPDenied => "GeoIPDenied",
            AuditEventType::GeoIPAllowed => "GeoIPAllowed",
            AuditEventType::GeoIPRateLimit => "GeoIPRateLimit",
            AuditEventType::GeoIPRedirect => "GeoIPRedirect",
            AuditEventType::GeoIPLogOnly => "GeoIPLogOnly",
            AuditEventType::GeoIPError => "GeoIPError",
        }
    }
}

/// The schema name of each event kind.
pub open spec fn spec_type_name(t: AuditEventType) -> Seq<char> {
    match t {
        AuditEventType::Request => "Request"@,
        AuditEventType::CacheHit => "CacheHit"@,
        AuditEventType::FetchSuccess => "FetchSuccess"@,
        AuditEventType::FetchError => "FetchError"@,
        AuditEventType::PolicyViolation => "PolicyViolation"@,
        AuditEventType::VerificationFailed => "VerificationFailed"@,
        AuditEventType::VerificationSuccess => "VerificationSuccess"@,
        AuditEventType::GeoIPDenied => "GeoIPDenied"@,
        AuditEventType::GeoIPAllowed => "GeoIPAllowed"@,
        AuditEventType::GeoIPRateLimit => "GeoIPRateLimit"@,
        AuditEventType::GeoIPRedirect => "GeoIPRedirect"@,
        AuditEventType::GeoIPLogOnly => "GeoIPLogOnly"@,
        AuditEventType::GeoIPError => "GeoIPError"@,
    }
}

impl AuditStatus {
    /// The status's name, as the event schema spells it.
    pub fn name(&self) -> (r: &'static str)
        ensures
            r@ == spec_status_name(*self),
    {
        proof {
            reveal_strlit("Success");
            reveal_strlit("Warning");
            reveal_strlit("Error");
            reveal_strlit("Info");
            reveal_strlit("Failed");
        }
        match self {
            AuditStatus::Success => "Success",
            AuditStatus::Warning => "Warning",
            AuditStatus::Error => "Error",
            AuditStatus::Info => "Info",
            AuditStatus::Failed => "Failed",
        }
    }
}

/// The schema name of each status.
pub open spec fn spec_status_name(s: AuditStatus) -> Seq<char> {
    match s {
        AuditStatus::Success => "Success"@,
        AuditStatus::Warning => "Warning"@,
        AuditStatus::Error => "Error"@,
        AuditStatus::Info => "Info"@,
        AuditStatus::Failed => "Failed"@,
    }
}

/// A hexadecimal digit, lower case.
pub open spec fn spec_hex_digit(d: int) -> char {
    if d == 0 {
        '0'
    } else if d == 1 {
        '1'
    } else if d == 2 {
        '2'
    } else if d == 3 {
        '3'
    } else if d == 4 {
        '4'
    } else if d == 5 {
        '5'
    } else if d == 6 {
        '6'
    } else if d == 7 {
        '7'
    } else if d == 8 {
        '8'
    } else if d == 9 {
        '9'
    } else if d == 10 {
        'a'
    } else if d == 11 {
        'b'
    } else if d == 12 {
        'c'
    } else if d == 13 {
        'd'
    } else if d == 14 {
        'e'
    } else {
        'f'
    }
}

/// How one character reads inside a JSON string: quotes, backslashes and
/// the short control escapes by name, other control characters as
/// four-digit escapes, anything else as itself.
pub open spec fn spec_escape_char(c: char) -> Seq<char> {
    if c == '"' {
        seq!['\\', '"']
    } else if c == '\\' {
        seq!['\\', '\\']
    } else if c == '\n' {
        seq!['\\', 'n']
    } else if c == '\r' {
        seq!['\\', 'r']
    } else if c == '\t' {
        seq!['\\', 't']
    } else if c == '\u{0008}' {
        seq!['\\', 'b']
    } else if c == '\u{000C}' {
        seq!['\\', 'f']
    } else if (c as u32) < 32 {
        seq!['\\', 'u', '0', '0', spec_hex_digit(c as int / 16), spec_hex_digit(c as int % 16)]
    } else {
        seq![c]
    }
}

/// A string's characters escaped for JSON.
pub open spec fn spec_json_escape(s: Seq<char>) -> Seq<char>
    decreases s.len(),
{
    if s.len() == 0 {
        Seq::<char>::empty()
    } else {
        spec_json_escape(s.drop_last()) + spec_escape_char(s.last())
    }
}

/// A JSON string literal.
pub open spec fn spec_json_str(s: Seq<char>) -> Seq<char> {
    seq!['"'] + spec_json_escape(s) + seq!['"']
}

/// An optional JSON string: `null` when absent.
pub open spec fn spec_json_opt_str(o: Option<Seq<char>>) -> Seq<char> {
    match o {
        None => "null"@,
        Some(s) => spec_json_str(s),
    }
}

/// The JSON record of one audit event, fields in schema order.
pub open spec fn spec_event_json(e: AuditEvent) -> Seq<char> {
    "{\"timestamp\":"@ + spec_dec_digits(e.timestamp_ms as int) + ",\"event_type\":"@
        + spec_json_str(spec_type_name(e.event_type)) + ",\"client_ip\":"@ + spec_json_opt_str(
        e.client_ip.deep_view(),
    ) + ",\"method\":"@ + spec_json_opt_str(e.method.deep_view()) + ",\"path\":"@
        + spec_json_str(e.path@) + ",\"user_agent\":"@ + spec_json_opt_str(
        e.user_agent.deep_view(),
    ) + ",\"status\":"@ + spec_json_str(spec_status_name(e.status)) + ",\"message\":"@
        + spec_json_opt_str(e.message.deep_view()) + ",\"duration_ms\":"@ + (match e
        .duration_ms {
        None => "null"@,
        Some(d) => spec_dec_digits(d as int),
    }) + "}"@
}

fn hex_digit(d: u32) -> (r: &'static str)
    requires
        d < 16,
    ensures
        r@ == seq![spec_hex_digit(d as int)],
{
    proof {
        reveal_strlit("0");
        reveal_strlit("1");
        reveal_strlit("2");
        reveal_strlit("3");
        reveal_strlit("4");
        reveal_strlit("5");
        reveal_strlit("6");
        reveal_strlit("7");
        reveal_strlit("8");
        reveal_strlit("9");
        reveal_strlit("a");
        reveal_strlit("b");
        reveal_strlit("c");
        reveal_strlit("d");
        reveal_strlit("e");
        reveal_strlit("f");
    }
    let r = if d == 0 {
        "0"
    } else if d == 1 {
        "1"
    } else if d == 2 {
        "2"
    } else if d == 3 {
        "3"
    } else if d == 4 {
        "4"
    } else if d == 5 {
        "5"
    } else if d == 6 {
        "6"
    } else if d == 7 {
        "7"
    } else if d == 8 {
        "8"
    } else if d == 9 {
        "9"
    } else if d == 10 {
        "a"
    } else if d == 11 {
        "b"
    } else if d == 12 {
        "c"
    } else if d == 13 {
        "d"
    } else if d == 14 {
        "e"
    } else {
        "f"
    };
    assert(r@ =~= seq![spec_hex_digit(d as int)]);
    r
}

/// Escape a string for a JSON literal.
#[verifier::loop_isolation(false)]
pub fn json_escape(s: &str) -> (r: String)
    ensures
        r@ == spec_json_escape(s@),
{
    proof {
        reveal_strlit("\\\"");
        reveal_strlit("\\\\");
        reveal_strlit("\\n");
        reveal_strlit("\\r");
        reveal_strlit("\\t");
        reveal_strlit("\\b");
        reveal_strlit("\\f");
        reveal_strlit("\\u00");
    }
    let n = s.unicode_len();
    let mut r = String::new();
    let mut i: usize = 0;
    while i < n
        invariant
            i <= n,
            r@ == spec_json_escape(s@.take(i as int)),
        decreases n - i,
    {
        let c = s.get_char(i);
        proof {
            assert(s@.take(i + 1).drop_last() =~= s@.take(i as int));
            assert(s@.take(i + 1).last() == s@[i as int]);
        }
        if c == '"' {
            r.append("\\\"");
        } else if c == '\\' {
            r.append("\\\\");
        } else if c == '\n' {
            r.append("\\n");
        } else if c == '\r' {
            r.append("\\r");
        } else if c == '\t' {
            r.append("\\t");
        } else if c == '\u{0008}' {
            r.append("\\b");
        } else if c == '\u{000C}' {
            r.append("\\f");
        } else if (c as u32) < 32 {
            r.append("\\u00");
            r.append(hex_digit(c as u32 / 16));
            r.append(hex_digit(c as u32 % 16));
        } else {
            let one = s.substring_char(i, i + 1);
            r.append(one);
            proof {
                assert(one@ =~= seq![s@[i as int]]);
            }
        }
        proof {
            assert(r@ =~= spec_json_escape(s@.take(i + 1)));
        }
        i = i + 1;
    }
    proof {
        assert(s@.take(n as int) =~= s@);
    }
    r
}

fn append_json_str(out: &mut String, s: &str)
    ensures
        final(out)@ == old(out)@ + spec_json_str(s@),
{
    proof {
        reveal_strlit("\"");
    }
    out.append("\"");
    let escaped = json_escape(s);
    out.append(escaped.as_str());
    out.append("\"");
    proof {
        assert(out@ =~= old(out)@ + spec_json_str(s@));
    }
}

fn append_json_opt_str(out: &mut String, s: &Option<String>)
    ensures
        final(out)@ == old(out)@ + spec_json_opt_str(s.deep_view()),
{
    proof {
        reveal_strlit("null");
    }
    match s {
        None => out.append("null"),
        Some(v) => append_json_str(out, v.as_str()),
    }
}

impl AuditEvent {
    /// The event as one JSON record, fields in schema order, absent
    /// optional fields as `null`.
    pub fn to_json(&self) -> (r: String)
        ensures
            r@ == spec_event_json(*self),
    {
        proof {
            reveal_strlit("{\"timestamp\":");
            reveal_strlit(",\"event_type\":");
            reveal_strlit(",\"client_ip\":");
            reveal_strlit(",\"method\":");
            reveal_strlit(",\"path\":");
            reveal_strlit(",\"user_agent\":");
            reveal_strlit(",\"status\":");
            reveal_strlit(",\"message\":");
            reveal_strlit(",\"duration_ms\":");
            reveal_strlit("null");
            reveal_strlit("}");
        }
        let mut out = String::from_str("{\"timestamp\":");
        out.append(u64_to_string(self.timestamp_ms).as_str());
        out.append(",\"event_type\":");
        append_json_str(&mut out, self.event_type.name());
        out.append(",\"client_ip\":");
        append_json_opt_str(&mut out, &self.client_ip);
        out.append(",\"method\":");
        append_json_opt_str(&mut out, &self.method);
        out.append(",\"path\":");
        append_json_str(&mut out, self.path.as_str());
        out.append(",\"user_agent\":");
        append_json_opt_str(&mut out, &self.user_agent);
        out.append(",\"status\":");
        append_json_str(&mut out, self.status.name());
        out.append(",\"message\":");
        append_json_opt_str(&mut out, &self.message);
        out.append(",\"duration_ms\":");
        match self.duration_ms {
            None => out.append("null"),
            Some(d) => out.append(u64_to_string(d).as_str()),
        }
        out.append("}");
        proof {
            assert(out@ =~= spec_event_json(*self));
        }
        out
    }
}

} // verus!
