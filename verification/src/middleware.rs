//! The decisions of the HTTP middlewares: which builtin middlewares a
//! configuration enables and in what order they wrap the router, who is let
//! through by the JWT check, how requests are keyed and answered by the rate
//! limiter, what the audit trail records, and when error bodies are translated.
use vstd::prelude::*;
use crate::error::{AppError, ErrorCode, spec_http_status};
use crate::text::{chars_of, concat_str, is_prefix, lowercased, starts_with, string_from_chars, sub_chars, to_lowercase, trim, trimmed};
use crate::i18n::{before, before_char, spec_translate, FileI18n};
use crate::codec::{
    json_parses, json_set_text, json_text_field, json_text_member, json_text_of, json_value_of, json_with_text_of,
    parse_json, write_json,
};

verus! {

/// The JSON body and status of an error answer.
pub struct ErrorBody {
    pub status: u16,
    pub code: String,
    pub message: String,
}

/// The answer for an error code: its HTTP status, its wire code and a message.
pub fn error_response(code: ErrorCode, message: &str) -> (b: ErrorBody)
    ensures
        b.status == spec_http_status(code),
        b.code@ == code.text(),
        b.message@ == message@,
{
    ErrorBody { status: code.http_status(), code: code.as_str().to_string(), message: message.to_string() }
}

// ── JWT check ────────────────────────────────────────────────────────

/// The claims a valid token carries.
pub struct JwtClaims {
    pub sub: String,
    pub exp: u64,
}

/// Settings of the JWT check.
pub struct AuthState {
    pub secret: String,
    pub exclude_paths: Vec<String>,
}

/// Whether some excluded prefix starts `path`.
pub open spec fn excluded(prefixes: Seq<String>, path: Seq<char>) -> bool {
    exists|i: int| 0 <= i < prefixes.len() && is_prefix(prefixes[i]@, path)
}

/// The token of an `Authorization: Bearer <token>` header.
pub open spec fn bearer_token(header: Option<Seq<char>>) -> Option<Seq<char>> {
    match header {
        Some(h) => if is_prefix("Bearer "@, h) { Some(h.subrange(7, h.len() as int)) } else { None },
        None => None,
    }
}

/// What happens to a request before any token is checked.
#[derive(Debug)]
pub enum AuthDecision {
    /// The path is excluded: let the request through.
    Pass,
    /// No usable bearer token: answer with this error.
    Reject(ErrorCode),
    /// Check this token.
    Verify(String),
}

/// How a token check ended.
#[derive(Debug, Clone, Copy, PartialEq, Eq, Structural)]
pub enum JwtCheck {
    Valid,
    Expired,
    Invalid,
}

fn path_excluded(prefixes: &Vec<String>, path: &str) -> (b: bool)
    ensures
        b == excluded(prefixes@, path@),
{
    let p = chars_of(path);
    let mut i: usize = 0;
    while i < prefixes.len()
        invariant
            i <= prefixes@.len(),
            p@ == path@,
            forall|j: int| 0 <= j < i ==> !is_prefix(#[trigger] prefixes@[j]@, path@),
        decreases prefixes@.len() - i,
    {
        let q = chars_of(prefixes[i].as_str());
        if starts_with(p.as_slice(), q.as_slice()) {
            return true;
        }
        i = i + 1;
    }
    false
}

impl AuthState {
    pub fn new(secret: String, exclude_paths: Vec<String>) -> (s: AuthState)
        ensures
            s.secret@ == secret@,
            s.exclude_paths@ == exclude_paths@,
    {
        AuthState { secret, exclude_paths }
    }

    /// The first decision for a request to `path` with the given
    /// `Authorization` header text.
    pub fn decide(&self, path: &str, authorization: Option<&str>) -> (g: AuthDecision)
        ensures
            excluded(self.exclude_paths@, path@) ==> g is Pass,
            !excluded(self.exclude_paths@, path@) ==> match bearer_token(match authorization {
                Some(h) => Some(h@),
                None => None,
            }) {
                Some(t) => g matches AuthDecision::Verify(tok) && tok@ == t,
                None => g == AuthDecision::Reject(ErrorCode::AuthTokenMissing),
            },
    {
        if path_excluded(&self.exclude_paths, path) {
            return AuthDecision::Pass;
        }
        match authorization {
            Some(h) => {
                let cs = chars_of(h);
                let prefix = chars_of("Bearer ");
                proof { reveal_strlit("Bearer "); }
                if starts_with(cs.as_slice(), prefix.as_slice()) {
                    let t = sub_chars(cs.as_slice(), 7, cs.len());
                    AuthDecision::Verify(string_from_chars(t.as_slice()))
                } else {
                    AuthDecision::Reject(ErrorCode::AuthTokenMissing)
                }
            },
            None => AuthDecision::Reject(ErrorCode::AuthTokenMissing),
        }
    }
}

/// The verdict once the token was checked: an expired token and any
/// other invalid token are told apart.
pub fn jwt_verdict(check: JwtCheck) -> (r: Result<(), ErrorCode>)
    ensures
        match check {
            JwtCheck::Valid => r is Ok,
            JwtCheck::Expired => r == Err::<(), ErrorCode>(ErrorCode::AuthTokenExpired),
            JwtCheck::Invalid => r == Err::<(), ErrorCode>(ErrorCode::AuthTokenInvalid),
        },
{
    match check {
        JwtCheck::Valid => Ok(()),
        JwtCheck::Expired => Err(ErrorCode::AuthTokenExpired),
        JwtCheck::Invalid => Err(ErrorCode::AuthTokenInvalid),
    }
}

/// Decodes and validates a bearer token with `jsonwebtoken::decode`, under
/// an HMAC key made from `secret` and the default validation with the
/// expiry checked, reading the claims as a JSON value. The outcome depends
/// on the clock, so nothing is stated of it; a failure comes back as
/// whether the signature had expired, and the error's message.
#[verifier::external_body]
fn jwt_decode(token: &str, secret: &str) -> (r: Result<serde_json::Value, (bool, String)>) {
    let key = jsonwebtoken::DecodingKey::from_secret(secret.as_bytes());
    let mut validation = jsonwebtoken::Validation::default();
    validation.validate_exp = true;
    jsonwebtoken::decode::<serde_json::Value>(token, &key, &validation)
        .map(|d| d.claims)
        .map_err(|e| (e.kind() == &jsonwebtoken::errors::ErrorKind::ExpiredSignature, e.to_string()))
}

/// The error code of a failed token check.
pub fn token_failure(expired: bool) -> (c: ErrorCode)
    ensures
        c == (if expired { ErrorCode::AuthTokenExpired } else { ErrorCode::AuthTokenInvalid }),
{
    let check = if expired { JwtCheck::Expired } else { JwtCheck::Invalid };
    match jwt_verdict(check) {
        Err(c) => c,
        Ok(()) => ErrorCode::AuthTokenInvalid,
    }
}

impl AuthState {
    /// Checks a bearer token against this state's secret: the claims, or
    /// the error code and message it is refused with (expired or invalid).
    pub fn check_token(&self, token: &str) -> (r: Result<serde_json::Value, (ErrorCode, String)>)
        ensures
            r matches Err((c, _)) ==> (c == ErrorCode::AuthTokenExpired || c == ErrorCode::AuthTokenInvalid),
    {
        match jwt_decode(token, self.secret.as_str()) {
            Ok(claims) => Ok(claims),
            Err((expired, msg)) => Err((token_failure(expired), msg)),
        }
    }
}

// ── Rate limiting ───────────────────────────────────────────────────

/// The first value of the header `name` among `(lowercase name, text)` pairs.
pub open spec fn header_value(headers: Seq<(String, String)>, name: Seq<char>) -> Option<Seq<char>> {
    if exists|i: int| 0 <= i < headers.len() && headers[i].0@ == name {
        let i = choose|i: int| 0 <= i < headers.len() && headers[i].0@ == name
            && forall|j: int| 0 <= j < i ==> headers[j].0@ != name;
        Some(headers[i].1@)
    } else {
        None
    }
}

/// Looks up the first value of a header, by lowercase name.
pub fn find_header(headers: &Vec<(String, String)>, name: &str) -> (r: Option<String>)
    ensures
        match r {
            Some(v) => header_value(headers@, name@) == Some(v@),
            None => header_value(headers@, name@) is None,
        },
{
    let wanted = name.to_string();
    let mut i: usize = 0;
    while i < headers.len()
        invariant
            i <= headers@.len(),
            wanted@ == name@,
            forall|j: int| 0 <= j < i ==> (#[trigger] headers@[j]).0@ != name@,
        decreases headers@.len() - i,
    {
        if headers[i].0 == wanted {
            proof {
                let k = choose|k: int| 0 <= k < headers@.len() && headers@[k].0@ == name@
                    && forall|j: int| 0 <= j < k ==> headers@[j].0@ != name@;
                if k < i {
                    assert(headers@[k].0@ != name@);
                }
                assert(k == i);
            }
            return Some(headers[i].1.clone());
        }
        i = i + 1;
    }
    None
}

/// The key a request is counted under: `global` for the global strategy,
/// the value of the named header for `header:<name>` (or `unknown`), and
/// otherwise the peer's IP address (or `unknown`).
pub open spec fn spec_rate_key(strategy: Seq<char>, headers: Seq<(String, String)>, peer_ip: Option<Seq<char>>) -> Seq<char> {
    if strategy == "global"@ {
        "global"@
    } else if is_prefix("header:"@, strategy) {
        match header_value(headers, lowercased(strategy.subrange(7, strategy.len() as int))) {
            Some(v) => v,
            None => "unknown"@,
        }
    } else {
        match peer_ip {
            Some(ip) => ip,
            None => "unknown"@,
        }
    }
}

/// Computes the rate-limit key of a request from its headers (lowercase
/// names, textual values only) and its peer address.
pub fn extract_key(strategy: &str, headers: &Vec<(String, String)>, peer_ip: Option<String>) -> (k: String)
    ensures
        k@ == spec_rate_key(strategy@, headers@, match peer_ip { Some(ip) => Some(ip@), None => None }),
{
    proof {
        reveal_strlit("global");
        reveal_strlit("header:");
        reveal_strlit("unknown");
    }
    let global = "global".to_string();
    if strategy.to_string() == global {
        return global;
    }
    let cs = chars_of(strategy);
    let prefix = chars_of("header:");
    if starts_with(cs.as_slice(), prefix.as_slice()) {
        let rest = string_from_chars(sub_chars(cs.as_slice(), 7, cs.len()).as_slice());
        let name = to_lowercase(rest.as_str());
        return match find_header(headers, name.as_str()) {
            Some(v) => v,
            None => "unknown".to_string(),
        };
    }
    match peer_ip {
        Some(ip) => ip,
        None => "unknown".to_string(),
    }
}

/// A limiter's answer for one key.
pub struct RateLimitResult {
    pub allowed: bool,
    pub remaining: u64,
    pub retry_after_ms: Option<u64>,
}

/// What the rate-limit middleware does with a request.
#[derive(Debug, PartialEq, Eq, Structural)]
pub enum RateVerdict {
    /// Let the request through.
    Allow,
    /// Answer 429 with `Retry-After: retry_after_secs` and `X-RateLimit-Remaining: remaining`.
    Deny { retry_after_secs: u64, remaining: u64 },
}

/// `ms` in whole seconds, rounded up.
pub open spec fn ceil_secs(ms: u64) -> u64 {
    (ms / 1000 + if ms % 1000 == 0 { 0u64 } else { 1u64 }) as u64
}

/// The middleware's verdict from the limiter's answer: a denial waits the
/// advised time rounded up to seconds (one second when none is given), and
/// a failing limiter lets the request through.
pub fn rate_limit_verdict(check: Result<RateLimitResult, AppError>) -> (v: RateVerdict)
    ensures
        match check {
            Ok(r) => if r.allowed {
                v == RateVerdict::Allow
            } else {
                v == RateVerdict::Deny {
                    retry_after_secs: ceil_secs(match r.retry_after_ms { Some(ms) => ms, None => 1000 }),
                    remaining: r.remaining,
                }
            },
            Err(_) => v == RateVerdict::Allow,
        },
{
    match check {
        Ok(r) => {
            if r.allowed {
                RateVerdict::Allow
            } else {
                let ms = match r.retry_after_ms {
                    Some(ms) => ms,
                    None => 1000,
                };
                let secs = ms / 1000 + if ms % 1000 == 0 { 0 } else { 1 };
                RateVerdict::Deny { retry_after_secs: secs, remaining: r.remaining }
            }
        },
        Err(_) => RateVerdict::Allow,
    }
}

// ── Audit ───────────────────────────────────────────────────────────

/// How an audited operation ended.
#[derive(Debug, Clone, Copy, PartialEq, Eq, Structural)]
pub enum AuditOutcome {
    Success,
    Failure,
    Denied,
}

/// One audit trail record.
pub struct AuditRecord {
    pub actor: String,
    pub action: String,
    pub resource_type: String,
    pub resource_id: Option<String>,
    pub ip: Option<String>,
    pub outcome: AuditOutcome,
}

/// The outcome recorded for an HTTP status: 2xx succeeded, 401 and 403
/// were denied, anything else failed.
pub open spec fn spec_http_outcome(status: u16) -> AuditOutcome {
    if 200 <= status <= 299 {
        AuditOutcome::Success
    } else if status == 401 || status == 403 {
        AuditOutcome::Denied
    } else {
        AuditOutcome::Failure
    }
}

pub fn http_outcome(status: u16) -> (o: AuditOutcome)
    ensures
        o == spec_http_outcome(status),
{
    if 200 <= status && status <= 299 {
        AuditOutcome::Success
    } else if status == 401 || status == 403 {
        AuditOutcome::Denied
    } else {
        AuditOutcome::Failure
    }
}

/// The client address of a request: the first entry of `X-Forwarded-For`
/// if that header is present, else `X-Real-IP`, trimmed. Each header is given
/// as absent (`None`), present but not text (`Some(None)`), or its text.
pub open spec fn spec_client_ip(forwarded_for: Option<Option<Seq<char>>>, real_ip: Option<Option<Seq<char>>>) -> Option<Seq<char>> {
    let chosen = match forwarded_for {
        Some(v) => v,
        None => match real_ip {
            Some(v) => v,
            None => None,
        },
    };
    match chosen {
        Some(s) => Some(trimmed(before_char(s, ','))),
        None => None,
    }
}

pub fn extract_client_ip(forwarded_for: Option<Option<String>>, real_ip: Option<Option<String>>) -> (r: Option<String>)
    ensures
        r matches Some(ip) ==> spec_client_ip(
            match forwarded_for { Some(Some(s)) => Some(Some(s@)), Some(None) => Some(None), None => None },
            match real_ip { Some(Some(s)) => Some(Some(s@)), Some(None) => Some(None), None => None },
        ) == Some(ip@),
        r is None ==> spec_client_ip(
            match forwarded_for { Some(Some(s)) => Some(Some(s@)), Some(None) => Some(None), None => None },
            match real_ip { Some(Some(s)) => Some(Some(s@)), Some(None) => Some(None), None => None },
        ) is None,
{
    let chosen = match forwarded_for {
        Some(v) => v,
        None => match real_ip {
            Some(v) => v,
            None => None,
        },
    };
    match chosen {
        Some(s) => {
            let cs = chars_of(s.as_str());
            let first = before(&cs, ',');
            let t = trim(first.as_slice());
            Some(string_from_chars(t.as_slice()))
        },
        None => None,
    }
}

/// The record of an HTTP request: the client (or `unknown`) did
/// `http.<method in lowercase>` on the path, with the outcome of the status.
pub fn http_audit_record(method: &str, path: &str, status: u16, client_ip: Option<String>) -> (r: AuditRecord)
    ensures
        r.actor@ == match client_ip { Some(ip) => ip@, None => "unknown"@ },
        r.action@ == "http."@ + lowercased(method@),
        r.resource_type@ == "http"@,
        r.resource_id matches Some(id) && id@ == path@,
        r.ip == client_ip,
        r.outcome == spec_http_outcome(status),
{
    let lower = to_lowercase(method);
    let action = concat_str("http.", lower.as_str());
    let actor = match &client_ip {
        Some(ip) => ip.clone(),
        None => "unknown".to_string(),
    };
    AuditRecord {
        actor,
        action,
        resource_type: "http".to_string(),
        resource_id: Some(path.to_string()),
        ip: client_ip,
        outcome: http_outcome(status),
    }
}

/// The record of a TCP peer connecting (`tcp.connect`) or leaving (`tcp.disconnect`).
pub fn tcp_audit_record(peer: &str, peer_ip: &str, connected: bool) -> (r: AuditRecord)
    ensures
        r.actor@ == peer@,
        r.action@ == (if connected { "tcp.connect"@ } else { "tcp.disconnect"@ }),
        r.resource_type@ == "tcp"@,
        r.resource_id is None,
        r.ip matches Some(ip) && ip@ == peer_ip@,
        r.outcome == AuditOutcome::Success,
{
    AuditRecord {
        actor: peer.to_string(),
        action: if connected { "tcp.connect".to_string() } else { "tcp.disconnect".to_string() },
        resource_type: "tcp".to_string(),
        resource_id: None,
        ip: Some(peer_ip.to_string()),
        outcome: AuditOutcome::Success,
    }
}

/// Audits TCP connects and disconnects.
pub struct AuditTcpMiddleware;

impl AuditTcpMiddleware {
    pub fn name(&self) -> (n: &'static str)
        ensures
            n@ == "audit"@,
    {
        "audit"
    }

    pub fn order(&self) -> (o: i32)
        ensures
            o == 50,
    {
        50
    }
}

/// The indices of the lines an audit query returns: the first matches in
/// file order, `limit` of them (at least one when any line matches, as the
/// limit is checked after each match is taken).
pub open spec fn spec_take_matches(matches: Seq<bool>, limit: usize) -> Seq<usize>
    decreases matches.len(),
{
    if matches.len() == 0 {
        Seq::empty()
    } else {
        let prev = spec_take_matches(matches.drop_last(), limit);
        if matches.last() && (prev.len() == 0 || prev.len() < limit) {
            prev.push((matches.len() - 1) as usize)
        } else {
            prev
        }
    }
}

proof fn lemma_take_matches_len(matches: Seq<bool>, limit: usize)
    ensures
        spec_take_matches(matches, limit).len() <= matches.len(),
        spec_take_matches(matches, limit).len() <= (if limit == 0 { 1 } else { limit as int }),
    decreases matches.len(),
{
    if matches.len() > 0 {
        lemma_take_matches_len(matches.drop_last(), limit);
    }
}

/// An audit trail kept as JSON lines in a file.
pub struct FileAuditLogger {
    pub path: String,
}

impl FileAuditLogger {
    pub fn new(path: &str) -> (l: FileAuditLogger)
        ensures
            l.path@ == path@,
    {
        FileAuditLogger { path: path.to_string() }
    }

    pub fn logger_name(&self) -> (n: &'static str)
        ensures
            n@ == "file"@,
    {
        "file"
    }

    /// The lines a query returns, given which lines parsed and matched the
    /// filter.
    pub fn select(&self, matches: &[bool], limit: usize) -> (r: Vec<usize>)
        ensures
            r@ == spec_take_matches(matches@, limit),
    {
        take_matches(matches, limit)
    }
}

/// What a query of the audit trail asks for: records whose `actor`,
/// `action` and `resource_type` equal the given texts (any, where `None`),
/// at most `limit` of them.
#[derive(Debug, Clone)]
pub struct AuditFilter {
    pub actor: Option<String>,
    pub action: Option<String>,
    pub resource_type: Option<String>,
    pub limit: usize,
}

/// Whether member `name` of record `v` is the text wanted, if one is.
pub open spec fn field_ok(want: Option<String>, v: serde_json::Value, name: Seq<char>) -> bool {
    match want {
        Some(w) => json_text_member(v, name) == Some(w@),
        None => true,
    }
}

/// Whether a record matches the filter.
pub open spec fn filter_matches(f: AuditFilter, v: serde_json::Value) -> bool {
    &&& field_ok(f.actor, v, "actor"@)
    &&& field_ok(f.action, v, "action"@)
    &&& field_ok(f.resource_type, v, "resource_type"@)
}

/// Whether a line of the trail is a record that matches: not blank, JSON,
/// and matching the filter.
pub open spec fn line_hit(f: AuditFilter, line: Seq<char>) -> bool {
    &&& trimmed(line).len() > 0
    &&& json_parses(vstd::utf8::encode_utf8(line))
    &&& filter_matches(f, json_value_of(vstd::utf8::encode_utf8(line)))
}

/// The record a line holds.
pub open spec fn line_record(line: String) -> serde_json::Value {
    json_value_of(vstd::utf8::encode_utf8(line@))
}

fn field_matches(want: &Option<String>, v: &serde_json::Value, name: &str) -> (b: bool)
    ensures
        b == field_ok(*want, *v, name@),
{
    match want {
        Some(w) => match json_text_field(v, name) {
            Some(t) => t == *w,
            None => false,
        },
        None => true,
    }
}

impl AuditFilter {
    /// Whether record `v` matches.
    pub fn matches(&self, v: &serde_json::Value) -> (b: bool)
        ensures
            b == filter_matches(*self, *v),
    {
        field_matches(&self.actor, v, "actor") && field_matches(&self.action, v, "action")
            && field_matches(&self.resource_type, v, "resource_type")
    }
}

/// The records an audit query returns from the trail's lines: the lines
/// that are records matching the filter, in file order, as many as
/// `spec_take_matches` selects.
pub fn query_lines(lines: &Vec<String>, filter: &AuditFilter) -> (r: Vec<serde_json::Value>)
    ensures
        r@ == spec_take_matches(lines@.map_values(|l: String| line_hit(*filter, l@)), filter.limit).map_values(
            |i: usize| line_record(lines@[i as int]),
        ),
{
    let ghost hits = lines@.map_values(|l: String| line_hit(*filter, l@));
    let mut r: Vec<serde_json::Value> = Vec::new();
    let mut i: usize = 0;
    while i < lines.len()
        invariant
            i <= lines@.len(),
            hits == lines@.map_values(|l: String| line_hit(*filter, l@)),
            r@ == spec_take_matches(hits.subrange(0, i as int), filter.limit).map_values(
                |k: usize| line_record(lines@[k as int]),
            ),
        decreases lines@.len() - i,
    {
        let ghost prev = spec_take_matches(hits.subrange(0, i as int), filter.limit);
        assert(hits.subrange(0, i as int + 1).drop_last() =~= hits.subrange(0, i as int));
        assert(hits.subrange(0, i as int + 1).last() == hits[i as int]);
        let line = &lines[i];
        let cs = chars_of(line.as_str());
        let t = trim(cs.as_slice());
        let mut kept = false;
        if t.len() > 0 {
            match parse_json(line.as_str().as_bytes()) {
                Some(v) => {
                    if filter.matches(&v) && (r.len() == 0 || r.len() < filter.limit) {
                        let ghost before = r@;
                        r.push(v);
                        kept = true;
                        assert(r@ =~= prev.push(i).map_values(|k: usize| line_record(lines@[k as int])));
                    }
                },
                None => {},
            }
        }
        proof {
            if !kept {
                assert(r@ == prev.map_values(|k: usize| line_record(lines@[k as int])));
            }
        }
        i = i + 1;
    }
    assert(hits.subrange(0, lines@.len() as int) =~= hits);
    r
}

/// Selects the lines an audit query returns, given which lines parsed and
/// matched the filter.
fn take_matches(matches: &[bool], limit: usize) -> (r: Vec<usize>)
    ensures
        r@ == spec_take_matches(matches@, limit),
{
    let mut r: Vec<usize> = Vec::new();
    let mut i: usize = 0;
    while i < matches.len()
        invariant
            i <= matches@.len(),
            r@ == spec_take_matches(matches@.subrange(0, i as int), limit),
        decreases matches@.len() - i,
    {
        proof { lemma_take_matches_len(matches@.subrange(0, i as int), limit); }
        assert(matches@.subrange(0, i as int + 1).drop_last() =~= matches@.subrange(0, i as int));
        if matches[i] && (r.len() == 0 || r.len() < limit) {
            r.push(i);
        }
        i = i + 1;
    }
    assert(matches@.subrange(0, matches@.len() as int) =~= matches@);
    r
}

// ── Error translation ───────────────────────────────────────────────

/// Whether `needle` occurs in `s`.
pub open spec fn contains_text(s: Seq<char>, needle: Seq<char>) -> bool {
    exists|i: int| 0 <= i && i + needle.len() <= s.len() && #[trigger] s.subrange(i, i + needle.len()) == needle
}

pub(crate) fn contains_chars(s: &[char], needle: &[char]) -> (b: bool)
    ensures
        b == contains_text(s@, needle@),
{
    if needle.len() > s.len() {
        return false;
    }
    if needle.len() == 0 {
        assert(s@.subrange(0, 0 + needle@.len() as int) =~= needle@);
        return true;
    }
    let last = s.len() - needle.len();
    let mut i: usize = 0;
    while i <= last
        invariant
            needle@.len() <= s@.len(),
            last == s@.len() - needle@.len(),
            last < s@.len(),
            i <= last + 1,
            forall|k: int| 0 <= k < i ==> #[trigger] s@.subrange(k, k + needle@.len()) != needle@,
        decreases last + 1 - i,
    {
        let tail = vstd::slice::slice_subrange(s, i, s.len());
        if starts_with(tail, needle) {
            assert(tail@.subrange(0, needle@.len() as int) =~= s@.subrange(i as int, i + needle@.len()));
            return true;
        }
        assert(tail@.subrange(0, needle@.len() as int) =~= s@.subrange(i as int, i + needle@.len()));
        i = i + 1;
    }
    false
}

/// Whether an answer is a candidate for translation: not a success, and
/// declared as JSON.
pub open spec fn spec_translatable(status: u16, content_type: Option<Seq<char>>) -> bool {
    !(200 <= status <= 299) && match content_type {
        Some(ct) => contains_text(ct, "application/json"@),
        None => false,
    }
}

/// Law: an answer is translated exactly when it is not a success (outside
/// 200..=299, so 4xx and 5xx alike) and its content type contains
/// `application/json`.
pub proof fn lemma_translatable(status: u16, ct: Seq<char>, at: int)
    ensures
        !(200 <= status <= 299) && 0 <= at && at + 16 <= ct.len()
            && ct.subrange(at, at + 16) == seq!['a', 'p', 'p', 'l', 'i', 'c', 'a', 't', 'i', 'o', 'n', '/', 'j', 's', 'o', 'n']
            ==> spec_translatable(status, Some(ct)),
        200 <= status <= 299 ==> !spec_translatable(status, Some(ct)),
        !spec_translatable(status, None),
{
    reveal_strlit("application/json");
    let lit = seq!['a', 'p', 'p', 'l', 'i', 'c', 'a', 't', 'i', 'o', 'n', '/', 'j', 's', 'o', 'n'];
    assert("application/json"@ =~= lit);
    if !(200 <= status <= 299) && 0 <= at && at + 16 <= ct.len() && ct.subrange(at, at + 16) == lit {
        assert(ct.subrange(at, at + "application/json"@.len()) == "application/json"@);
        assert(contains_text(ct, "application/json"@));
    }
}

pub fn translatable(status: u16, content_type: Option<&str>) -> (b: bool)
    ensures
        b == spec_translatable(status, match content_type { Some(c) => Some(c@), None => None }),
{
    if 200 <= status && status <= 299 {
        return false;
    }
    match content_type {
        Some(ct) => {
            let cs = chars_of(ct);
            let needle = chars_of("application/json");
            contains_chars(cs.as_slice(), needle.as_slice())
        },
        None => false,
    }
}

/// The translated message for an error code, as `FileI18n::error_message`
/// gives it.
pub open spec fn spec_error_message(i: FileI18n, code: Seq<char>, locale: Seq<char>) -> Option<Seq<char>> {
    let key = "error."@ + lowercased(code);
    let t = spec_translate(i.catalog(), i.default_locale_view(), key, locale);
    if t == key { None } else { Some(t) }
}

/// An error body after translation: a body that is not JSON is kept as it
/// is; a JSON body is written again, with its `message` replaced by the
/// translation of its text `code` where the catalog has one.
pub open spec fn spec_localized_body(i: FileI18n, body: Seq<u8>, locale: Seq<char>) -> Seq<u8> {
    if !json_parses(body) {
        body
    } else {
        let v = json_value_of(body);
        match json_text_member(v, "code"@) {
            Some(code) => match spec_error_message(i, code, locale) {
                Some(m) => json_text_of(json_with_text_of(v, "message"@, m)),
                None => json_text_of(v),
            },
            None => json_text_of(v),
        }
    }
}

/// Translates the message of a JSON error body for `locale`.
pub fn localize_error_body(i18n: &FileI18n, body: &[u8], locale: &str) -> (r: Vec<u8>)
    requires
        i18n.wf(),
    ensures
        r@ == spec_localized_body(*i18n, body@, locale@),
{
    match parse_json(body) {
        None => vstd::slice::slice_to_vec(body),
        Some(v) => {
            let mut v = v;
            match json_text_field(&v, "code") {
                Some(code) => match i18n.error_message(code.as_str(), locale) {
                    Some(m) => {
                        json_set_text(&mut v, "message", m);
                        write_json(&v)
                    },
                    None => write_json(&v),
                },
                None => write_json(&v),
            }
        },
    }
}

// ── Builtin middleware set ──────────────────────────────────────────

/// Settings of the builtin HTTP middlewares.
pub struct MiddlewareConfig {
    pub auth_enabled: bool,
    pub jwt_secret_env: String,
    pub auth_exclude_paths: Vec<String>,
    pub rate_limit_enabled: bool,
    pub rate_limit_key_strategy: String,
    pub request_id_enabled: bool,
    pub timeout_enabled: bool,
    pub timeout_secs: u64,
    pub cors_enabled: bool,
    pub cors_allow_origins: Vec<String>,
}

/// What the server has at hand when it assembles its middlewares.
pub struct MiddlewareInputs {
    /// Metrics are enabled and a Prometheus handle exists.
    pub metrics_ready: bool,
    pub metrics_endpoint: String,
    /// The JWT secret read from the configured variable (empty when unset).
    pub jwt_secret: String,
    pub has_rate_limiter: bool,
    pub telemetry_enabled: bool,
    pub has_audit_logger: bool,
    pub has_i18n: bool,
}

/// A builtin middleware with its settings.
pub enum BuiltinMiddleware {
    Metrics { endpoint: String },
    Auth(AuthState),
    RateLimit { key_strategy: String },
    Trace(TraceHttpMiddleware),
    Otel(OtelHttpMiddleware),
    RequestId(RequestIdHttpMiddleware),
    Timeout(TimeoutHttpMiddleware),
    Cors { allow_origins: Vec<String> },
    Audit,
    I18nError,
}

/// The kind of a builtin middleware, as plain data.
#[derive(Debug, Clone, Copy, PartialEq, Eq, Structural)]
pub enum MiddlewareKind {
    Metrics,
    Auth,
    RateLimit,
    Trace,
    Otel,
    RequestId,
    Timeout,
    Cors,
    Audit,
    I18nError,
}

pub open spec fn kind_of(m: BuiltinMiddleware) -> MiddlewareKind {
    match m {
        BuiltinMiddleware::Metrics { .. } => MiddlewareKind::Metrics,
        BuiltinMiddleware::Auth(_) => MiddlewareKind::Auth,
        BuiltinMiddleware::RateLimit { .. } => MiddlewareKind::RateLimit,
        BuiltinMiddleware::Trace(_) => MiddlewareKind::Trace,
        BuiltinMiddleware::Otel(_) => MiddlewareKind::Otel,
        BuiltinMiddleware::RequestId(_) => MiddlewareKind::RequestId,
        BuiltinMiddleware::Timeout(_) => MiddlewareKind::Timeout,
        BuiltinMiddleware::Cors { .. } => MiddlewareKind::Cors,
        BuiltinMiddleware::Audit => MiddlewareKind::Audit,
        BuiltinMiddleware::I18nError => MiddlewareKind::I18nError,
    }
}

/// The name a middleware is registered under.
pub open spec fn kind_name(k: MiddlewareKind) -> Seq<char> {
    match k {
        MiddlewareKind::Metrics => "metrics"@,
        MiddlewareKind::Auth => "auth"@,
        MiddlewareKind::RateLimit => "rate_limit"@,
        MiddlewareKind::Trace => "trace"@,
        MiddlewareKind::Otel => "otel"@,
        MiddlewareKind::RequestId => "request_id"@,
        MiddlewareKind::Timeout => "timeout"@,
        MiddlewareKind::Cors => "cors"@,
        MiddlewareKind::Audit => "audit"@,
        MiddlewareKind::I18nError => "i18n_error"@,
    }
}

/// The position of a middleware in the stack: lower values are applied first.
pub open spec fn kind_order(k: MiddlewareKind) -> i32 {
    match k {
        MiddlewareKind::I18nError => 8,
        MiddlewareKind::Metrics => 10,
        MiddlewareKind::Auth => 20,
        MiddlewareKind::RateLimit => 25,
        MiddlewareKind::Trace => 30,
        MiddlewareKind::Otel => 35,
        MiddlewareKind::RequestId => 40,
        MiddlewareKind::Timeout => 50,
        MiddlewareKind::Audit => 55,
        MiddlewareKind::Cors => 60,
    }
}

/// `k` when `on`, else nothing.
pub open spec fn opt_kind(on: bool, k: MiddlewareKind) -> Seq<MiddlewareKind> {
    if on { seq![k] } else { Seq::empty() }
}

/// The kinds a configuration enables, in the order they are listed.
pub open spec fn enabled_kinds(c: MiddlewareConfig, inputs: MiddlewareInputs) -> Seq<MiddlewareKind> {
    opt_kind(inputs.metrics_ready, MiddlewareKind::Metrics)
    + opt_kind(c.auth_enabled, MiddlewareKind::Auth)
    + opt_kind(c.rate_limit_enabled && inputs.has_rate_limiter, MiddlewareKind::RateLimit)
    + seq![MiddlewareKind::Trace]
    + opt_kind(inputs.telemetry_enabled, MiddlewareKind::Otel)
    + opt_kind(c.request_id_enabled, MiddlewareKind::RequestId)
    + opt_kind(c.timeout_enabled, MiddlewareKind::Timeout)
    + opt_kind(c.cors_enabled, MiddlewareKind::Cors)
    + opt_kind(inputs.has_audit_logger, MiddlewareKind::Audit)
    + opt_kind(inputs.has_i18n, MiddlewareKind::I18nError)
}

impl BuiltinMiddleware {
    pub fn kind(&self) -> (k: MiddlewareKind)
        ensures
            k == kind_of(*self),
    {
        match self {
            BuiltinMiddleware::Metrics { .. } => MiddlewareKind::Metrics,
            BuiltinMiddleware::Auth(_) => MiddlewareKind::Auth,
            BuiltinMiddleware::RateLimit { .. } => MiddlewareKind::RateLimit,
            BuiltinMiddleware::Trace(_) => MiddlewareKind::Trace,
            BuiltinMiddleware::Otel(_) => MiddlewareKind::Otel,
            BuiltinMiddleware::RequestId(_) => MiddlewareKind::RequestId,
            BuiltinMiddleware::Timeout(_) => MiddlewareKind::Timeout,
            BuiltinMiddleware::Cors { .. } => MiddlewareKind::Cors,
            BuiltinMiddleware::Audit => MiddlewareKind::Audit,
            BuiltinMiddleware::I18nError => MiddlewareKind::I18nError,
        }
    }

    pub fn name(&self) -> (n: &'static str)
        ensures
            n@ == kind_name(kind_of(*self)),
    {
        match self {
            BuiltinMiddleware::Metrics { .. } => "metrics",
            BuiltinMiddleware::Auth(_) => "auth",
            BuiltinMiddleware::RateLimit { .. } => "rate_limit",
            BuiltinMiddleware::Trace(_) => "trace",
            BuiltinMiddleware::Otel(_) => "otel",
            BuiltinMiddleware::RequestId(_) => "request_id",
            BuiltinMiddleware::Timeout(_) => "timeout",
            BuiltinMiddleware::Cors { .. } => "cors",
            BuiltinMiddleware::Audit => "audit",
            BuiltinMiddleware::I18nError => "i18n_error",
        }
    }

    pub fn order(&self) -> (o: i32)
        ensures
            o == kind_order(kind_of(*self)),
    {
        match self {
            BuiltinMiddleware::Metrics { .. } => 10,
            BuiltinMiddleware::Auth(_) => 20,
            BuiltinMiddleware::RateLimit { .. } => 25,
            BuiltinMiddleware::Trace(_) => 30,
            BuiltinMiddleware::Otel(_) => 35,
            BuiltinMiddleware::RequestId(_) => 40,
            BuiltinMiddleware::Timeout(_) => 50,
            BuiltinMiddleware::Cors { .. } => 60,
            BuiltinMiddleware::Audit => 55,
            BuiltinMiddleware::I18nError => 8,
        }
    }
}

pub open spec fn kinds_of(ms: Seq<BuiltinMiddleware>) -> Seq<MiddlewareKind> {
    ms.map_values(|m: BuiltinMiddleware| kind_of(m))
}

fn clone_strings(v: &Vec<String>) -> (r: Vec<String>)
    ensures
        r@.len() == v@.len(),
        forall|i: int| 0 <= i < v@.len() ==> (#[trigger] r@[i])@ == v@[i]@,
{
    let mut r: Vec<String> = Vec::new();
    let mut i: usize = 0;
    while i < v.len()
        invariant
            i <= v@.len(),
            r@.len() == i,
            forall|j: int| 0 <= j < i ==> (#[trigger] r@[j])@ == v@[j]@,
        decreases v@.len() - i,
    {
        r.push(v[i].clone());
        i = i + 1;
    }
    r
}

/// The builtin middlewares a configuration enables, in registration order;
/// the server then applies them by ascending `order()`.
pub fn builtin_http_middlewares(config: &MiddlewareConfig, inputs: &MiddlewareInputs) -> (ms: Vec<BuiltinMiddleware>)
    ensures
        kinds_of(ms@) == enabled_kinds(*config, *inputs),
        forall|i: int| 0 <= i < ms@.len() ==> configured(#[trigger] ms@[i], *config, *inputs),
{
    let ghost c = *config;
    let ghost inp = *inputs;
    let mut ms: Vec<BuiltinMiddleware> = Vec::new();
    assert(kinds_of(ms@) =~= Seq::<MiddlewareKind>::empty());
    push_if(&mut ms, inputs.metrics_ready,
        BuiltinMiddleware::Metrics { endpoint: inputs.metrics_endpoint.clone() }, config, inputs);
    assert(kinds_of(ms@) =~= opt_kind(inp.metrics_ready, MiddlewareKind::Metrics));
    let paths = clone_strings(&config.auth_exclude_paths);
    assert(paths@.map_values(|p: String| p@) =~= config.auth_exclude_paths@.map_values(|p: String| p@));
    push_if(&mut ms, config.auth_enabled,
        BuiltinMiddleware::Auth(AuthState::new(inputs.jwt_secret.clone(), paths)), config, inputs);
    push_if(&mut ms, config.rate_limit_enabled && inputs.has_rate_limiter,
        BuiltinMiddleware::RateLimit { key_strategy: config.rate_limit_key_strategy.clone() }, config, inputs);
    push_if(&mut ms, true, BuiltinMiddleware::Trace(TraceHttpMiddleware), config, inputs);
    push_if(&mut ms, inputs.telemetry_enabled, BuiltinMiddleware::Otel(OtelHttpMiddleware), config, inputs);
    push_if(&mut ms, config.request_id_enabled, BuiltinMiddleware::RequestId(RequestIdHttpMiddleware), config, inputs);
    push_if(&mut ms, config.timeout_enabled,
        BuiltinMiddleware::Timeout(TimeoutHttpMiddleware::new(config.timeout_secs)), config, inputs);
    let origins = clone_strings(&config.cors_allow_origins);
    assert(origins@.map_values(|p: String| p@) =~= config.cors_allow_origins@.map_values(|p: String| p@));
    push_if(&mut ms, config.cors_enabled, BuiltinMiddleware::Cors { allow_origins: origins }, config, inputs);
    push_if(&mut ms, inputs.has_audit_logger, BuiltinMiddleware::Audit, config, inputs);
    push_if(&mut ms, inputs.has_i18n, BuiltinMiddleware::I18nError, config, inputs);
    assert(opt_kind(true, MiddlewareKind::Trace) =~= seq![MiddlewareKind::Trace]);
    ms
}

/// Whether a middleware carries the settings the configuration gives it.
pub open spec fn configured(m: BuiltinMiddleware, config: MiddlewareConfig, inputs: MiddlewareInputs) -> bool {
    match m {
        BuiltinMiddleware::Metrics { endpoint } => endpoint@ == inputs.metrics_endpoint@,
        BuiltinMiddleware::Auth(s) => s.secret@ == inputs.jwt_secret@
            && s.exclude_paths@.map_values(|p: String| p@) == config.auth_exclude_paths@.map_values(|p: String| p@),
        BuiltinMiddleware::RateLimit { key_strategy } => key_strategy@ == config.rate_limit_key_strategy@,
        BuiltinMiddleware::Timeout(t) => t.timeout_secs() == config.timeout_secs,
        BuiltinMiddleware::Cors { allow_origins } => allow_origins@.map_values(|p: String| p@)
            == config.cors_allow_origins@.map_values(|p: String| p@),
        _ => true,
    }
}

fn push_if(ms: &mut Vec<BuiltinMiddleware>, on: bool, m: BuiltinMiddleware, config: &MiddlewareConfig, inputs: &MiddlewareInputs)
    requires
        configured(m, *config, *inputs),
        forall|i: int| 0 <= i < old(ms)@.len() ==> configured(#[trigger] old(ms)@[i], *config, *inputs),
    ensures
        kinds_of(final(ms)@) == kinds_of(old(ms)@) + opt_kind(on, kind_of(m)),
        forall|i: int| 0 <= i < final(ms)@.len() ==> configured(#[trigger] final(ms)@[i], *config, *inputs),
{
    if on {
        ms.push(m);
        assert(kinds_of(ms@) =~= kinds_of(old(ms)@) + opt_kind(on, kind_of(m)));
    } else {
        assert(kinds_of(ms@) =~= kinds_of(old(ms)@) + opt_kind(on, kind_of(m)));
    }
}

/// Law: the builtin middlewares have pairwise different positions, so
/// applying them by ascending `order()` puts them in one fixed order
/// whatever the configuration: i18n errors, metrics, auth, rate limit,
/// trace, otel, request id, timeout, audit, CORS.
pub proof fn lemma_builtin_orders_distinct(a: MiddlewareKind, b: MiddlewareKind)
    requires
        a != b,
    ensures
        kind_order(a) != kind_order(b),
{
}

/// Law: request tracing is enabled by every configuration.
pub proof fn lemma_trace_always_enabled(c: MiddlewareConfig, inputs: MiddlewareInputs)
    ensures
        enabled_kinds(c, inputs).contains(MiddlewareKind::Trace),
{
    let pre = opt_kind(inputs.metrics_ready, MiddlewareKind::Metrics)
        + opt_kind(c.auth_enabled, MiddlewareKind::Auth)
        + opt_kind(c.rate_limit_enabled && inputs.has_rate_limiter, MiddlewareKind::RateLimit);
    let with_trace = pre + seq![MiddlewareKind::Trace];
    assert(with_trace[pre.len() as int] == MiddlewareKind::Trace);
    let ks = enabled_kinds(c, inputs);
    assert(ks.subrange(0, with_trace.len() as int) =~= with_trace);
    assert(ks[pre.len() as int] == MiddlewareKind::Trace);
}

// ── Individual middlewares ──────────────────────────────────────────

/// Request tracing spans.
#[derive(Debug, Clone, Copy)]
pub struct TraceHttpMiddleware;

/// Trace-context propagation to OpenTelemetry.
#[derive(Debug, Clone, Copy)]
pub struct OtelHttpMiddleware;

/// `X-Request-Id` assignment.
#[derive(Debug, Clone, Copy)]
pub struct RequestIdHttpMiddleware;

/// A per-request time limit, answered with 503 when exceeded.
#[derive(Debug, Clone, Copy)]
pub struct TimeoutHttpMiddleware {
    timeout_secs: u64,
}

impl TimeoutHttpMiddleware {
    pub closed spec fn timeout_secs(&self) -> u64 {
        self.timeout_secs
    }

    pub fn new(timeout_secs: u64) -> (m: TimeoutHttpMiddleware)
        ensures
            m.timeout_secs() == timeout_secs,
    {
        TimeoutHttpMiddleware { timeout_secs }
    }

    pub fn timeout(&self) -> (s: u64)
        ensures
            s == self.timeout_secs(),
    {
        self.timeout_secs
    }
}

/// The JWT check as a middleware.
pub struct AuthHttpMiddleware {
    pub state: AuthState,
}

impl AuthHttpMiddleware {
    pub fn new(state: AuthState) -> (m: AuthHttpMiddleware)
        ensures
            m.state == state,
    {
        AuthHttpMiddleware { state }
    }
}

/// Whether CORS allows any origin: exactly one configured origin, `*`.
pub open spec fn spec_cors_any(origins: Seq<String>) -> bool {
    origins.len() == 1 && origins[0]@ == "*"@
}

pub fn cors_allows_any(origins: &Vec<String>) -> (b: bool)
    ensures
        b == spec_cors_any(origins@),
{
    proof { reveal_strlit("*"); }
    origins.len() == 1 && origins[0] == "*".to_string()
}


// ── Request ids and trace context ───────────────────────────────────

/// The header that carries a request's id.
pub fn request_id_header() -> (n: &'static str)
    ensures
        n@ == "x-request-id"@,
{
    "x-request-id"
}

/// Tags every response with a fresh request id.
#[derive(Debug, Clone, Copy)]
pub struct RequestIdLayer;

/// A service wrapped by `RequestIdLayer`.
#[derive(Debug, Clone)]
pub struct RequestIdService<S> {
    pub inner: S,
}

impl RequestIdLayer {
    pub fn layer<S>(&self, inner: S) -> (s: RequestIdService<S>)
        ensures
            s.inner == inner,
    {
        RequestIdService { inner }
    }
}

impl<S> RequestIdService<S> {
    /// A fresh random id (a UUID v4) for the next response.
    pub fn next_request_id(&self) -> (id: String)
        ensures
            crate::lock::uuid_v4_text(id@),
    {
        crate::lock::new_token()
    }
}

/// Makes incoming trace context the parent of the request's span.
#[derive(Debug, Clone, Copy)]
pub struct OtelPropagationLayer;

/// A service wrapped by `OtelPropagationLayer`.
#[derive(Debug, Clone)]
pub struct OtelPropagationService<S> {
    pub inner: S,
}

impl OtelPropagationLayer {
    pub fn layer<S>(&self, inner: S) -> (s: OtelPropagationService<S>)
        ensures
            s.inner == inner,
    {
        OtelPropagationService { inner }
    }
}

/// Reads trace-context fields out of a request's textual headers
/// (lowercase names).
pub struct HeaderExtractor {
    pub headers: Vec<(String, String)>,
}

impl HeaderExtractor {
    /// The first value of the header `key`.
    pub fn get(&self, key: &str) -> (r: Option<String>)
        ensures
            match r {
                Some(v) => header_value(self.headers@, key@) == Some(v@),
                None => header_value(self.headers@, key@) is None,
            },
    {
        find_header(&self.headers, key)
    }

    /// The names of all headers, in order.
    pub fn keys(&self) -> (r: Vec<String>)
        ensures
            r@.len() == self.headers@.len(),
            forall|i: int| 0 <= i < r@.len() ==> #[trigger] r@[i] == self.headers@[i].0,
    {
        let mut r: Vec<String> = Vec::new();
        let mut i: usize = 0;
        while i < self.headers.len()
            invariant
                i <= self.headers@.len(),
                r@.len() == i,
                forall|j: int| 0 <= j < i ==> #[trigger] r@[j] == self.headers@[j].0,
            decreases self.headers@.len() - i,
        {
            r.push(self.headers[i].0.clone());
            i = i + 1;
        }
        r
    }
}

/// The path label of a request's metrics: the matched route when there is
/// one (so that ids in paths do not multiply the series), else the path.
pub fn metrics_path_label(matched_route: Option<&str>, path: &str) -> (r: String)
    ensures
        r@ == match matched_route { Some(m) => m@, None => path@ },
{
    match matched_route {
        Some(m) => m.to_string(),
        None => path.to_string(),
    }
}

} // verus!
