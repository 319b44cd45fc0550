//! `fetch()` and `XMLHttpRequest` of page scripts: who may ask for what, which redirects
//! are followed, and what the script gets to see.

use vstd::prelude::*;
use vstd::string::*;

use crate::assoc::StringMap;
use crate::assoc;
use crate::base64;
use crate::js::state::{
    InterceptResolution, InterceptedRequest, ObscuraState, ResolutionView, StateView,
};
use crate::json::{Json, JsonView};
use crate::net::client::DEFAULT_USER_AGENT;
use crate::net::headers;
use crate::net::policy;
use crate::net::url::{HostView, UrlHost, UrlRecord, UrlView};
use crate::net::url;
use crate::text;

verus! {

/// The most redirects that a script's request follows.
pub const FETCH_REDIRECT_LIMIT: usize = 10;

/// What a script asks for.
pub struct FetchCall {
    pub url: String,
    pub method: String,
    pub headers_json: String,
    pub body: String,
    pub origin: String,
    pub mode: String,
}

/// What a script asks for, as plain data.
pub struct CallView {
    pub url: Seq<char>,
    pub method: Seq<char>,
    pub headers_json: Seq<char>,
    pub body: Seq<char>,
    pub origin: Seq<char>,
    pub mode: Seq<char>,
}

impl View for FetchCall {
    type V = CallView;

    open spec fn view(&self) -> CallView {
        CallView {
            url: self.url@,
            method: self.method@,
            headers_json: self.headers_json@,
            body: self.body@,
            origin: self.origin@,
            mode: self.mode@,
        }
    }
}

/// Whether a URL fits a pattern: `*` stands for anything at the ends of the pattern.
pub open spec fn glob_matches(pattern: Seq<char>, url: Seq<char>) -> bool {
    let n = pattern.len() as int;
    if pattern == "*"@ {
        true
    } else if n > 0 && pattern[0] == '*' && pattern[n - 1] == '*' {
        text::has_text(url, pattern.subrange(1, n - 1))
    } else if n > 0 && pattern[0] == '*' {
        text::has_suffix(url, pattern.subrange(1, n))
    } else if n > 0 && pattern[n - 1] == '*' {
        text::has_prefix(url, pattern.subrange(0, n - 1))
    } else {
        url == pattern
    }
}

/// Whether a URL fits a pattern.
pub fn glob_match(pattern: &str, url: &str) -> (r: bool)
    ensures
        r == glob_matches(pattern@, url@),
{
    proof {
        reveal_strlit("*");
    }
    if text::same(pattern, "*") {
        return true;
    }
    let cs: Vec<char> = text::chars_of(pattern);
    let n: usize = cs.len();
    if n > 0 && cs[0] == '*' && cs[n - 1] == '*' {
        proof {
            if n == 1 {
                assert(pattern@ =~= "*"@);
            }
        }
        return text::contains(url, text::text_of(&cs, 1, n - 1).as_str());
    }
    if n > 0 && cs[0] == '*' {
        return text::ends_with(url, text::text_of(&cs, 1, n).as_str());
    }
    if n > 0 && cs[n - 1] == '*' {
        return text::starts_with(url, text::text_of(&cs, 0, n - 1).as_str());
    }
    text::same(url, pattern)
}

/// Whether a pattern blocks a URL.
pub open spec fn blocks(pattern: Seq<char>, url: Seq<char>) -> bool {
    pattern == "*"@ || text::has_text(url, pattern) || glob_matches(pattern, url)
}

/// Whether one of the patterns blocks a URL.
pub open spec fn any_blocks(patterns: Seq<Seq<char>>, url: Seq<char>) -> bool {
    exists|i: int| 0 <= i < patterns.len() && blocks(#[trigger] patterns[i], url)
}

fn is_blocked(patterns: &Vec<String>, url: &str) -> (r: bool)
    ensures
        r == any_blocks(text::texts(patterns@), url@),
{
    let mut i: usize = 0;
    while i < patterns.len()
        invariant
            i <= patterns.len(),
            forall|j: int| 0 <= j < i ==> !blocks(#[trigger] text::texts(patterns@)[j], url@),
        decreases patterns.len() - i,
    {
        let p: &str = patterns[i].as_str();
        assert(text::texts(patterns@)[i as int] == p@);
        if text::same(p, "*") || text::contains(url, p) || glob_match(p, url) {
            return true;
        }
        i += 1;
    }
    false
}

/// The reply for a request that was not made or not answered.
pub open spec fn empty_reply(url: Seq<char>) -> JsonView {
    JsonView::object().put("status"@, JsonView::UInt(0)).put("body"@, JsonView::Str(Seq::empty())).put(
        "url"@,
        JsonView::Str(url),
    ).put("headers"@, JsonView::object())
}

/// The reply for a request that is blocked.
pub open spec fn blocked_reply(url: Seq<char>) -> JsonView {
    empty_reply(url).put("blocked"@, JsonView::Bool(true))
}

/// The reply for a request that is blocked for a reason.
pub open spec fn refused_reply(url: Seq<char>, reason: Seq<char>) -> JsonView {
    blocked_reply(url).put("error"@, JsonView::Str(reason))
}

fn make_empty_reply(url: &str) -> (r: Json)
    ensures
        r@ == empty_reply(url@),
{
    Json::object().put("status", Json::UInt(0)).put("body", Json::Str(String::new())).put(
        "url",
        Json::string(url),
    ).put("headers", Json::object())
}

fn make_blocked_reply(url: &str) -> (r: Json)
    ensures
        r@ == blocked_reply(url@),
{
    make_empty_reply(url).put("blocked", Json::Bool(true))
}

fn make_refused_reply(url: &str, reason: &str) -> (r: Json)
    ensures
        r@ == refused_reply(url@, reason@),
{
    make_blocked_reply(url).put("error", Json::string(reason))
}

/// Headers as a JSON object.
pub open spec fn headers_json(h: Seq<(Seq<char>, Seq<char>)>) -> JsonView
    decreases h.len(),
{
    if h.len() == 0 {
        JsonView::object()
    } else {
        headers_json(h.drop_last()).put(h.last().0, JsonView::Str(h.last().1))
    }
}

/// Headers as a JSON object.
pub fn headers_to_json(h: &StringMap) -> (r: Json)
    ensures
        r@ == headers_json(h@),
{
    let mut out: Json = Json::object();
    let mut i: usize = 0;
    while i < h.entries.len()
        invariant
            i <= h.entries.len(),
            out@ == headers_json(h@.subrange(0, i as int)),
        decreases h.entries.len() - i,
    {
        assert(h@.subrange(0, i + 1).drop_last() =~= h@.subrange(0, i as int));
        out = out.put(h.entries[i].0.as_str(), Json::string(h.entries[i].1.as_str()));
        i += 1;
    }
    assert(h@.subrange(0, i as int) =~= h@);
    out
}

/// The texts by name that a JSON object holds, in the order of the names, where the
/// text is an object of strings.
pub uninterp spec fn string_object(text: Seq<char>) -> Option<Seq<(Seq<char>, Seq<char>)>>;

/// Calls `serde_json::from_str` for a map from strings to strings. No name comes twice.
#[verifier::external_body]
fn parse_string_object(text: &str) -> (r: Option<Vec<(String, String)>>)
    ensures
        (match r {
            Some(v) => Some(assoc::entry_views(v@)),
            None => None,
        }) == string_object(text@),
        r is Some ==> assoc::distinct(assoc::entry_views(r->0@)),
{
    let m: std::collections::BTreeMap<String, String> = serde_json::from_str(text).ok()?;
    Some(m.into_iter().collect())
}

/// The headers that a script sets: none where its JSON is no object of strings.
pub open spec fn custom_headers(json: Seq<char>) -> Seq<(Seq<char>, Seq<char>)> {
    match string_object(json) {
        Some(h) => h,
        None => Seq::empty(),
    }
}

fn parse_custom_headers(json: &str) -> (r: StringMap)
    ensures
        r@ == custom_headers(json@),
{
    match parse_string_object(json) {
        Some(entries) => StringMap { entries },
        None => StringMap::new(),
    }
}

/// What becomes of a request before it is sent: a reply, someone to ask, or nothing.
pub enum Admission {
    Reply(Json),
    Intercept(InterceptedRequest),
    Proceed,
}

/// A request that waits for a decision, as plain data.
pub struct RequestView {
    pub request_id: Seq<char>,
    pub url: Seq<char>,
    pub method: Seq<char>,
    pub headers: Seq<(Seq<char>, Seq<char>)>,
    pub resource_type: Seq<char>,
}

impl View for InterceptedRequest {
    type V = RequestView;

    open spec fn view(&self) -> RequestView {
        RequestView {
            request_id: self.request_id@,
            url: self.url@,
            method: self.method@,
            headers: self.headers@,
            resource_type: self.resource_type@,
        }
    }
}

/// What becomes of a request before it is sent, as plain data.
pub enum AdmissionView {
    Reply(JsonView),
    Intercept(RequestView),
    Proceed,
}

impl View for Admission {
    type V = AdmissionView;

    open spec fn view(&self) -> AdmissionView {
        match self {
            Admission::Reply(j) => AdmissionView::Reply(j@),
            Admission::Intercept(q) => AdmissionView::Intercept(q@),
            Admission::Proceed => AdmissionView::Proceed,
        }
    }
}

/// Why the policy refuses a text as a URL to fetch, if it does. A text that is no URL is
/// not refused here.
pub open spec fn refusal(url: Seq<char>, allow_private: bool, ip_forbidden: bool) -> Option<
    Seq<char>,
> {
    match url::url_parsed(url) {
        Ok(u) => match policy::verdict(u, allow_private, ip_forbidden) {
            Err(e) => Some(e),
            Ok(()) => None,
        },
        Err(_) => None,
    }
}

/// The name that the nth request which someone is asked about goes by.
pub open spec fn intercept_id(n: nat) -> Seq<char> {
    "intercept-"@ + text::decimal_text(n)
}

/// What becomes of a request before it is sent, and what that leaves of the state, where
/// `refusal` is why the policy refuses it and `headers` are those that the script sets.
pub open spec fn admission_with(
    s: StateView,
    call: CallView,
    refusal: Option<Seq<char>>,
    headers: Seq<(Seq<char>, Seq<char>)>,
) -> (StateView, AdmissionView) {
    match refusal {
        Some(e) => (s, AdmissionView::Reply(refused_reply(call.url, e))),
        None => if any_blocks(s.blocked_urls, call.url) {
            (s, AdmissionView::Reply(blocked_reply(call.url)))
        } else if s.intercept_enabled {
            let n = (s.intercept_counter + 1) as u64;
            (
                StateView { intercept_counter: n, ..s },
                if s.has_intercept_tx {
                    AdmissionView::Intercept(
                        RequestView {
                            request_id: intercept_id(n as nat),
                            url: call.url,
                            method: call.method,
                            headers,
                            resource_type: "Fetch"@,
                        },
                    )
                } else {
                    AdmissionView::Proceed
                },
            )
        } else {
            (s, AdmissionView::Proceed)
        },
    }
}

/// What becomes of a request before it is sent, and what that leaves of the state.
pub open spec fn admission(
    s: StateView,
    call: CallView,
    allow_private: bool,
    ip_forbidden: bool,
) -> (StateView, AdmissionView) {
    admission_with(
        s,
        call,
        refusal(call.url, allow_private, ip_forbidden),
        custom_headers(call.headers_json),
    )
}

/// Takes a script's request: refuses it, or has someone asked about it, or lets it go
/// on. `ip_forbidden` is what the address guard says of the URL's IP address.
pub fn op_fetch_url(
    state: &mut ObscuraState,
    call: &FetchCall,
    allow_private: bool,
    ip_forbidden: bool,
) -> (r: Admission)
    requires
        old(state)@.intercept_enabled ==> old(state)@.intercept_counter < u64::MAX,
    ensures
        (final(state)@, r@) == admission(old(state)@, call@, allow_private, ip_forbidden),
{
    let refused: Option<String> = match UrlRecord::parse(call.url.as_str()) {
        Ok(u) => match policy::validate_fetch_url(&u, allow_private, ip_forbidden) {
            Ok(()) => None,
            Err(e) => Some(e),
        },
        Err(_) => None,
    };
    take_request(state, call, &refused, parse_custom_headers(call.headers_json.as_str()))
}

/// Takes a script's request, where `refused` is why the policy refuses it and `headers` are
/// those that the script sets.
pub fn take_request(
    state: &mut ObscuraState,
    call: &FetchCall,
    refused: &Option<String>,
    headers: StringMap,
) -> (r: Admission)
    requires
        old(state)@.intercept_enabled ==> old(state)@.intercept_counter < u64::MAX,
    ensures
        (final(state)@, r@) == admission_with(
            old(state)@,
            call@,
            text::opt(*refused),
            headers@,
        ),
{
    if let Some(e) = refused {
        return Admission::Reply(make_refused_reply(call.url.as_str(), e.as_str()));
    }
    if is_blocked(&state.blocked_urls, call.url.as_str()) {
        return Admission::Reply(make_blocked_reply(call.url.as_str()));
    }
    if state.intercept_enabled {
        state.intercept_counter = state.intercept_counter + 1;
        if state.has_intercept_tx {
            return Admission::Intercept(
                InterceptedRequest {
                    request_id: "intercept-".to_owned().concat(
                        text::decimal(state.intercept_counter).as_str(),
                    ),
                    url: call.url.clone(),
                    method: call.method.clone(),
                    headers,
                    resource_type: "Fetch".to_owned(),
                },
            );
        }
    }
    Admission::Proceed
}

/// The reply that a decision about a request makes, if it makes one. `None` is a decision
/// that never came.
pub open spec fn resolution_reply(url: Seq<char>, resolution: Option<ResolutionView>) -> Option<
    JsonView,
> {
    match resolution {
        Some(ResolutionView::Fulfill { status, headers, body }) => Some(
            JsonView::object().put("status"@, JsonView::UInt(status as u64)).put(
                "body"@,
                JsonView::Str(body),
            ).put("url"@, JsonView::Str(url)).put("headers"@, headers_json(headers)),
        ),
        Some(ResolutionView::Fail { reason }) => Some(refused_reply(url, reason)),
        _ => None,
    }
}

/// The view of an optional value.
pub open spec fn opt_json(j: Option<Json>) -> Option<JsonView> {
    match j {
        Some(x) => Some(x@),
        None => None,
    }
}

/// Takes the decision about a request: a reply, or nothing where the request goes on.
pub fn on_resolution(call: &FetchCall, resolution: Option<InterceptResolution>) -> (r: Option<Json>)
    ensures
        opt_json(r) == resolution_reply(
            call@.url,
            match resolution {
                Some(x) => Some(x@),
                None => None,
            },
        ),
{
    match resolution {
        Some(InterceptResolution::Fulfill { status, headers, body }) => Some(
            Json::object().put("status", Json::UInt(status as u64)).put(
                "body",
                Json::string(body.as_str()),
            ).put("url", Json::string(call.url.as_str())).put(
                "headers",
                headers_to_json(&headers),
            ),
        ),
        Some(InterceptResolution::Fail { reason }) => Some(
            make_refused_reply(call.url.as_str(), reason.as_str()),
        ),
        _ => None,
    }
}

/// The origin of a URL, in the form that requests are compared by: nothing where there is no
/// URL.
pub open spec fn origin_of(u: Option<UrlView>) -> Seq<char> {
    match u {
        Some(u) => {
            let host = match u.hostname {
                Some(h) => h,
                None => Seq::empty(),
            };
            match u.port {
                Some(p) => u.scheme + "://"@ + host + ":"@ + text::decimal_text(p as nat),
                None => u.scheme + "://"@ + host,
            }
        },
        None => Seq::empty(),
    }
}

/// The URL that a text is, if it is one.
pub open spec fn url_of(t: Seq<char>) -> Option<UrlView> {
    match url::url_parsed(t) {
        Ok(u) => Some(u),
        Err(_) => None,
    }
}

fn parse_url(t: &str) -> (r: Option<UrlRecord>)
    ensures
        url::record_view(r) == url_of(t@),
{
    match UrlRecord::parse(t) {
        Ok(u) => Some(u),
        Err(_) => None,
    }
}

fn request_origin(url: &Option<UrlRecord>) -> (r: String)
    ensures
        r@ == origin_of(url::record_view(*url)),
{
    match url {
        Some(u) => {
            let host: &str = match &u.hostname {
                Some(h) => h.as_str(),
                None => "",
            };
            proof {
                reveal_strlit("");
                assert(""@ =~= Seq::<char>::empty());
            }
            let origin: String = u.scheme.as_str().to_owned().concat("://").concat(host);
            match u.port {
                Some(p) => origin.concat(":").concat(text::decimal(p as u64).as_str()),
                None => origin,
            }
        },
        None => String::new(),
    }
}

/// A script's request on its way: what was asked for, and where it has got to.
pub struct ScriptFetch {
    pub url: String,
    pub asked_method: String,
    pub page_origin: String,
    pub cross_origin: bool,
    pub cors: bool,
    pub custom_headers: StringMap,
    pub current_url: String,
    pub method: String,
    pub body: String,
    pub redirects: usize,
    pub allow_private: bool,
}

/// A script's request on its way, as plain data.
pub struct ScriptView {
    pub url: Seq<char>,
    pub asked_method: Seq<char>,
    pub page_origin: Seq<char>,
    pub cross_origin: bool,
    pub cors: bool,
    pub custom_headers: Seq<(Seq<char>, Seq<char>)>,
    pub current_url: Seq<char>,
    pub method: Seq<char>,
    pub body: Seq<char>,
    pub redirects: usize,
    pub allow_private: bool,
}

impl View for ScriptFetch {
    type V = ScriptView;

    open spec fn view(&self) -> ScriptView {
        ScriptView {
            url: self.url@,
            asked_method: self.asked_method@,
            page_origin: self.page_origin@,
            cross_origin: self.cross_origin,
            cors: self.cors,
            custom_headers: self.custom_headers@,
            current_url: self.current_url@,
            method: self.method@,
            body: self.body@,
            redirects: self.redirects,
            allow_private: self.allow_private,
        }
    }
}

/// A request with everything that is sent.
pub struct ScriptRequest {
    pub method: String,
    pub url: String,
    pub headers: Vec<(String, String)>,
    pub body: Option<String>,
}

/// Whether a header may go to another origin without asking first.
pub open spec fn simple_header(name: Seq<char>) -> bool {
    let n = text::lowered(name);
    n == "accept"@ || n == "accept-language"@ || n == "content-language"@ || n == "content-type"@
}

/// The names in a list of headers.
pub open spec fn names(h: Seq<(Seq<char>, Seq<char>)>) -> Seq<Seq<char>> {
    h.map_values(|e: (Seq<char>, Seq<char>)| e.0)
}

/// Whether a list of headers names a user agent.
pub open spec fn names_user_agent(h: Seq<(Seq<char>, Seq<char>)>) -> bool {
    exists|i: int|
        0 <= i < h.len() && text::upper_text((#[trigger] h[i]).0) == text::upper_text(
            "user-agent"@,
        )
}

/// Whether an origin is among those that a server allows.
pub open spec fn origin_allowed(allowed: Seq<char>, origin: Seq<char>) -> bool {
    allowed == "*"@ || allowed == origin
}

/// The text of an optional text, empty where there is none.
pub open spec fn or_empty(s: Option<Seq<char>>) -> Seq<char> {
    match s {
        Some(t) => t,
        None => Seq::empty(),
    }
}

impl ScriptView {
    /// A request as it starts.
    pub open spec fn start(call: CallView, allow_private: bool) -> ScriptView {
        ScriptView::begin(
            call,
            url_of(call.url),
            custom_headers(call.headers_json),
            allow_private,
        )
    }

    /// A request as it starts, where `url` is the URL that is asked for and `headers` are
    /// those that the script sets.
    pub open spec fn begin(
        call: CallView,
        url: Option<UrlView>,
        headers: Seq<(Seq<char>, Seq<char>)>,
        allow_private: bool,
    ) -> ScriptView {
        let request_origin = origin_of(url);
        let page_origin = if call.origin.len() == 0 {
            request_origin
        } else {
            call.origin
        };
        ScriptView {
            url: call.url,
            asked_method: call.method,
            page_origin,
            cross_origin: page_origin.len() > 0 && request_origin != page_origin,
            cors: call.mode == "cors"@,
            custom_headers: headers,
            current_url: call.url,
            method: if headers::token(call.method) {
                call.method
            } else {
                "GET"@
            },
            body: call.body,
            redirects: 0,
            allow_private,
        }
    }

    /// Whether the server must be asked before the request is sent.
    pub open spec fn needs_preflight(self) -> bool {
        &&& self.cross_origin
        &&& self.cors
        &&& {
            ||| self.method != "GET"@ && self.method != "HEAD"@ && self.method != "POST"@
            ||| exists|i: int|
                0 <= i < self.custom_headers.len() && !simple_header(
                    (#[trigger] self.custom_headers[i]).0,
                )
        }
    }

    /// The headers of the question that goes before the request.
    pub open spec fn preflight_headers(self) -> Seq<(Seq<char>, Seq<char>)> {
        seq![
            ("Origin"@, self.page_origin),
            ("Access-Control-Request-Method"@, self.asked_method),
            (
                "Access-Control-Request-Headers"@,
                text::joined(names(self.custom_headers), ", "@),
            ),
        ]
    }

    /// The headers of the request, where `cookies` is what the cookie jar has for it.
    pub open spec fn outgoing_headers(self, cookies: Seq<char>) -> Seq<(Seq<char>, Seq<char>)> {
        let origin = if self.cross_origin {
            seq![("Origin"@, self.page_origin)]
        } else if cookies.len() > 0 {
            seq![("Cookie"@, cookies)]
        } else {
            Seq::empty()
        };
        let agent = if names_user_agent(self.custom_headers) {
            Seq::empty()
        } else {
            seq![("User-Agent"@, DEFAULT_USER_AGENT@)]
        };
        origin + agent + self.custom_headers
    }

    /// Where a response leads, if it is a redirect with a target that is a URL.
    pub open spec fn target(self, status: u16, location: Option<Seq<char>>) -> Option<UrlView> {
        if 300 <= status < 400 && location is Some {
            match url::url_resolved(self.current_url, location->0) {
                Ok(u) => Some(u),
                Err(_) => None,
            }
        } else {
            None
        }
    }

    /// The request after it went on to another URL.
    pub open spec fn moved(self, status: u16, next: UrlView) -> ScriptView {
        let drops = status == 301 || status == 302 || status == 303;
        ScriptView {
            current_url: next.href,
            redirects: (self.redirects + 1) as usize,
            method: if drops {
                "GET"@
            } else {
                self.method
            },
            body: if drops {
                Seq::empty()
            } else {
                self.body
            },
            ..self
        }
    }

    /// What a redirect makes of the request: a reply that ends it, or where it goes on.
    pub open spec fn followed(self, status: u16, next: UrlView, ip_forbidden: bool) -> Result<
        ScriptView,
        JsonView,
    > {
        self.followed_to(status, next, url::url_host(next.href), ip_forbidden)
    }

    /// What a redirect to a URL, whose host is `host`, makes of the request.
    pub open spec fn followed_to(
        self,
        status: u16,
        next: UrlView,
        host: Option<HostView>,
        ip_forbidden: bool,
    ) -> Result<ScriptView, JsonView> {
        match policy::verdict_for(next.scheme, host, self.allow_private, ip_forbidden) {
            Err(e) => Err(refused_reply(next.href, "Redirect to forbidden URL blocked: "@ + e)),
            Ok(()) => if self.redirects >= FETCH_REDIRECT_LIMIT {
                Err(refused_reply(next.href, "Too many redirects (>10)"@))
            } else {
                Ok(self.moved(status, next))
            },
        }
    }

    /// Whether the script may see a response with these headers.
    pub open spec fn may_see(self, headers: Seq<(Seq<char>, Seq<char>)>) -> bool {
        self.cross_origin && self.cors ==> origin_allowed(
            or_empty(assoc::lookup(headers, "access-control-allow-origin"@)),
            self.page_origin,
        )
    }

    /// The reply where the script may not see the response.
    pub open spec fn hidden_reply(self, headers: Seq<(Seq<char>, Seq<char>)>) -> JsonView {
        let allowed = or_empty(assoc::lookup(headers, "access-control-allow-origin"@));
        empty_reply(self.url).put("corsBlocked"@, JsonView::Bool(true)).put(
            "corsError"@,
            JsonView::Str(
                "CORS error: Origin '"@ + self.page_origin
                    + "' not in Access-Control-Allow-Origin '"@ + allowed + "'"@,
            ),
        )
    }

    /// The reply with a response that the script may see.
    pub open spec fn full_reply(
        self,
        status: u16,
        headers: Seq<(Seq<char>, Seq<char>)>,
        body: Seq<u8>,
    ) -> JsonView {
        JsonView::object().put("status"@, JsonView::UInt(status as u64)).put(
            "body"@,
            JsonView::Str(text::lossy(body)),
        ).put("bodyBase64"@, JsonView::Str(base64::encoded(body))).put(
            "url"@,
            JsonView::Str(self.url),
        ).put("headers"@, headers_json(headers))
    }
}

fn has_special_header(h: &StringMap) -> (r: bool)
    ensures
        r == exists|i: int| 0 <= i < h@.len() && !simple_header((#[trigger] h@[i]).0),
{
    let mut i: usize = 0;
    while i < h.entries.len()
        invariant
            i <= h.entries.len(),
            forall|j: int| 0 <= j < i ==> simple_header((#[trigger] h@[j]).0),
        decreases h.entries.len() - i,
    {
        let lower: String = text::to_lowercase(h.entries[i].0.as_str());
        let n: &str = lower.as_str();
        assert(h@[i as int].0 == h.entries[i as int].0@);
        if !text::same(n, "accept") && !text::same(n, "accept-language") && !text::same(
            n,
            "content-language",
        ) && !text::same(n, "content-type") {
            return true;
        }
        i += 1;
    }
    false
}

fn has_user_agent(h: &StringMap) -> (r: bool)
    ensures
        r == names_user_agent(h@),
{
    let mut i: usize = 0;
    while i < h.entries.len()
        invariant
            i <= h.entries.len(),
            forall|j: int|
                0 <= j < i ==> text::upper_text((#[trigger] h@[j]).0) != text::upper_text(
                    "user-agent"@,
                ),
        decreases h.entries.len() - i,
    {
        assert(h@[i as int].0 == h.entries[i as int].0@);
        if text::eq_ignore_ascii_case(h.entries[i].0.as_str(), "user-agent") {
            return true;
        }
        i += 1;
    }
    false
}

fn header_names(h: &StringMap) -> (r: Vec<String>)
    ensures
        text::texts(r@) == names(h@),
{
    let mut out: Vec<String> = Vec::new();
    let mut i: usize = 0;
    while i < h.entries.len()
        invariant
            i <= h.entries.len(),
            text::texts(out@) == names(h@.subrange(0, i as int)),
        decreases h.entries.len() - i,
    {
        let ghost before = out@;
        let name: String = h.entries[i].0.clone();
        out.push(name);
        assert(text::texts(out@) =~= text::texts(before).push(name@));
        assert(names(h@.subrange(0, i + 1)) =~= names(h@.subrange(0, i as int)).push(name@));
        i += 1;
    }
    assert(h@.subrange(0, i as int) =~= h@);
    out
}

fn push_header(headers: &mut Vec<(String, String)>, name: &str, value: &str)
    ensures
        assoc::entry_views(final(headers)@) == assoc::entry_views(old(headers)@).push(
            (name@, value@),
        ),
{
    let e: (String, String) = (name.to_owned(), value.to_owned());
    headers.push(e);
    assert(assoc::entry_views(headers@) =~= assoc::entry_views(old(headers)@).push((e.0@, e.1@)));
}

impl ScriptFetch {
    /// Starts a request that was let through.
    pub fn start(call: &FetchCall, allow_private: bool) -> (r: ScriptFetch)
        ensures
            r@ == ScriptView::start(call@, allow_private),
    {
        ScriptFetch::begin(
            call,
            &parse_url(call.url.as_str()),
            parse_custom_headers(call.headers_json.as_str()),
            allow_private,
        )
    }

    /// Starts a request that was let through, where `url` is the URL that is asked for and
    /// `headers` are those that the script sets.
    pub fn begin(
        call: &FetchCall,
        url: &Option<UrlRecord>,
        headers: StringMap,
        allow_private: bool,
    ) -> (r: ScriptFetch)
        ensures
            r@ == ScriptView::begin(call@, url::record_view(*url), headers@, allow_private),
    {
        let request_origin: String = request_origin(url);
        let page_origin: String = if call.origin.as_str().is_empty() {
            request_origin.clone()
        } else {
            call.origin.clone()
        };
        let cross_origin: bool = !page_origin.as_str().is_empty() && !text::same(
            request_origin.as_str(),
            page_origin.as_str(),
        );
        let method: String = match headers::parse_method(call.method.as_str()) {
            Some(m) => m,
            None => "GET".to_owned(),
        };
        ScriptFetch {
            url: call.url.clone(),
            asked_method: call.method.clone(),
            page_origin,
            cross_origin,
            cors: text::same(call.mode.as_str(), "cors"),
            custom_headers: headers,
            current_url: call.url.clone(),
            method,
            body: call.body.clone(),
            redirects: 0,
            allow_private,
        }
    }

    /// The headers of the question that goes before the request, where one does.
    pub fn preflight(&self) -> (r: Option<Vec<(String, String)>>)
        ensures
            r is Some == self@.needs_preflight(),
            r is Some ==> assoc::entry_views(r->0@) == self@.preflight_headers(),
    {
        let m: &str = self.method.as_str();
        let simple_method: bool = text::same(m, "GET") || text::same(m, "HEAD") || text::same(
            m,
            "POST",
        );
        if !self.cross_origin || !self.cors {
            return None;
        }
        if simple_method && !has_special_header(&self.custom_headers) {
            return None;
        }
        proof {
            if simple_method {
                let i = choose|i: int|
                    0 <= i < self.custom_headers@.len() && !simple_header(
                        (#[trigger] self.custom_headers@[i]).0,
                    );
                assert(!simple_header(self@.custom_headers[i].0));
            }
        }
        let mut out: Vec<(String, String)> = Vec::new();
        push_header(&mut out, "Origin", self.page_origin.as_str());
        push_header(&mut out, "Access-Control-Request-Method", self.asked_method.as_str());
        push_header(
            &mut out,
            "Access-Control-Request-Headers",
            text::join(&header_names(&self.custom_headers), ", ").as_str(),
        );
        assert(assoc::entry_views(out@) =~= self@.preflight_headers());
        Some(out)
    }

    /// The error where the server could not be asked.
    pub fn preflight_failed(&self, reason: &str) -> (r: String)
        ensures
            r@ == "CORS preflight failed: "@ + reason@,
    {
        "CORS preflight failed: ".to_owned().concat(reason)
    }

    /// Takes what the server says of the origins that it allows.
    pub fn on_preflight(&self, allowed: Option<&str>) -> (r: Result<(), String>)
        ensures
            r is Ok == origin_allowed(or_empty(text::opt_str(allowed)), self@.page_origin),
            r is Err ==> r->Err_0@ == "CORS preflight: Origin '"@ + self@.page_origin
                + "' not allowed by Access-Control-Allow-Origin '"@ + or_empty(
                text::opt_str(allowed),
            ) + "'"@,
    {
        proof {
            reveal_strlit("");
            assert(""@ =~= Seq::<char>::empty());
        }
        let allowed: &str = match allowed {
            Some(a) => a,
            None => "",
        };
        if text::same(allowed, "*") || text::same(allowed, self.page_origin.as_str()) {
            Ok(())
        } else {
            Err(
                "CORS preflight: Origin '".to_owned().concat(self.page_origin.as_str()).concat(
                    "' not allowed by Access-Control-Allow-Origin '",
                ).concat(allowed).concat("'"),
            )
        }
    }

    /// The URL that the cookie jar is asked and told about.
    pub fn cookie_url(&self) -> (r: Option<UrlRecord>)
        ensures
            url::record_view(r) == url_of(self@.current_url),
    {
        parse_url(self.current_url.as_str())
    }

    /// The request to send, which counts from now on, where `cookies` is what the cookie jar has
    /// for its URL.
    pub fn outgoing(&self, state: &mut ObscuraState, cookies: &str) -> (r: ScriptRequest)
        ensures
            final(state)@ == old(state)@.with_sent(),
            r.method@ == self@.method,
            r.url@ == self@.current_url,
            assoc::entry_views(r.headers@) == self@.outgoing_headers(cookies@),
            text::opt(r.body) == if self@.body.len() > 0 {
                Some(self@.body)
            } else {
                None
            },
    {
        let mut out: Vec<(String, String)> = Vec::new();
        if self.cross_origin {
            push_header(&mut out, "Origin", self.page_origin.as_str());
        } else if !cookies.is_empty() {
            push_header(&mut out, "Cookie", cookies);
        }
        if !has_user_agent(&self.custom_headers) {
            push_header(&mut out, "User-Agent", DEFAULT_USER_AGENT);
        }
        let ghost head = assoc::entry_views(out@);
        let mut i: usize = 0;
        while i < self.custom_headers.entries.len()
            invariant
                i <= self.custom_headers.entries.len(),
                assoc::entry_views(out@) == head + self.custom_headers@.subrange(0, i as int),
            decreases self.custom_headers.entries.len() - i,
        {
            push_header(
                &mut out,
                self.custom_headers.entries[i].0.as_str(),
                self.custom_headers.entries[i].1.as_str(),
            );
            assert(self.custom_headers@.subrange(0, i + 1) =~= self.custom_headers@.subrange(
                0,
                i as int,
            ).push(self.custom_headers@[i as int]));
            i += 1;
        }
        assert(assoc::entry_views(out@) =~= self@.outgoing_headers(cookies@));
        let body: Option<String> = if self.body.as_str().is_empty() {
            None
        } else {
            Some(self.body.clone())
        };
        state.request_sent();
        ScriptRequest {
            method: self.method.clone(),
            url: self.current_url.clone(),
            headers: out,
            body,
        }
    }

    /// The error where a request could not be sent, which ends it.
    pub fn send_failed(&self, state: &mut ObscuraState, reason: &str) -> (r: String)
        ensures
            final(state)@ == old(state)@.with_ended(),
            r@ == reason@,
    {
        state.request_ended();
        reason.to_owned()
    }

    /// Where a response, which ends the request, leads, if it is a redirect with a target that
    /// is a URL.
    pub fn redirect_target(
        &self,
        state: &mut ObscuraState,
        status: u16,
        location: Option<&str>,
    ) -> (r: Option<UrlRecord>)
        ensures
            final(state)@ == old(state)@.with_ended(),
            url::record_view(r) == self@.target(status, text::opt_str(location)),
    {
        state.request_ended();
        if status < 300 || status >= 400 {
            return None;
        }
        match location {
            Some(l) => match UrlRecord::resolve(self.current_url.as_str(), l) {
                Ok(u) => Some(u),
                Err(_) => None,
            },
            None => None,
        }
    }

    /// Goes on to where a redirect leads, or gives the reply that ends the request.
    /// `ip_forbidden` is what the address guard says of the target's IP address.
    pub fn follow(&mut self, status: u16, next: &UrlRecord, ip_forbidden: bool) -> (r: Option<Json>)
        ensures
            match old(self)@.followed(status, next@, ip_forbidden) {
                Ok(f) => r is None && final(self)@ == f,
                Err(j) => r is Some && r->0@ == j && final(self)@ == old(self)@,
            },
    {
        self.follow_to(status, next, &next.host(), ip_forbidden)
    }

    /// Goes on to a URL whose host is `host`, or gives the reply that ends the request.
    pub fn follow_to(
        &mut self,
        status: u16,
        next: &UrlRecord,
        host: &Option<UrlHost>,
        ip_forbidden: bool,
    ) -> (r: Option<Json>)
        ensures
            match old(self)@.followed_to(status, next@, url::host_view(*host), ip_forbidden) {
                Ok(f) => r is None && final(self)@ == f,
                Err(j) => r is Some && r->0@ == j && final(self)@ == old(self)@,
            },
    {
        match policy::check_host(next.scheme.as_str(), host, self.allow_private, ip_forbidden) {
            Ok(()) => {},
            Err(e) => {
                return Some(
                    make_refused_reply(
                        next.href.as_str(),
                        "Redirect to forbidden URL blocked: ".to_owned().concat(
                            e.as_str(),
                        ).as_str(),
                    ),
                );
            },
        }
        if self.redirects >= FETCH_REDIRECT_LIMIT {
            return Some(make_refused_reply(next.href.as_str(), "Too many redirects (>10)"));
        }
        self.redirects = self.redirects + 1;
        if status == 301 || status == 302 || status == 303 {
            self.method = "GET".to_owned();
            self.body = String::new();
        }
        self.current_url = next.href.clone();
        None
    }

    /// The reply for a response whose headers keep the script from seeing it.
    pub fn cors_reply(&self, headers: &StringMap) -> (r: Option<Json>)
        ensures
            r is None == self@.may_see(headers@),
            r is Some ==> r->0@ == self@.hidden_reply(headers@),
    {
        if !self.cross_origin || !self.cors {
            return None;
        }
        proof {
            reveal_strlit("");
            assert(""@ =~= Seq::<char>::empty());
        }
        let allowed: &str = match headers.get("access-control-allow-origin") {
            Some(a) => a,
            None => "",
        };
        if text::same(allowed, "*") || text::same(allowed, self.page_origin.as_str()) {
            return None;
        }
        Some(
            make_empty_reply(self.url.as_str()).put("corsBlocked", Json::Bool(true)).put(
                "corsError",
                Json::Str(
                    "CORS error: Origin '".to_owned().concat(self.page_origin.as_str()).concat(
                        "' not in Access-Control-Allow-Origin '",
                    ).concat(allowed).concat("'"),
                ),
            ),
        )
    }

    /// The reply with a response.
    pub fn reply(&self, status: u16, headers: &StringMap, body: &Vec<u8>) -> (r: Json)
        requires
            body@.len() / 3 * 4 + 4 <= isize::MAX,
        ensures
            r@ == if self@.may_see(headers@) {
                self@.full_reply(status, headers@, body@)
            } else {
                self@.hidden_reply(headers@)
            },
    {
        if let Some(hidden) = self.cors_reply(headers) {
            return hidden;
        }
        Json::object().put("status", Json::UInt(status as u64)).put(
            "body",
            Json::Str(text::from_utf8_lossy(body.as_slice())),
        ).put("bodyBase64", Json::Str(base64::encode(body.as_slice()))).put(
            "url",
            Json::string(self.url.as_str()),
        ).put("headers", headers_to_json(headers))
    }
}

/// The URLs that a script's request is sent to, one after the other, where `answers`
/// are the heads of the responses and `guard` says which addresses are forbidden.
pub open spec fn sent_to(
    f: ScriptView,
    answers: Seq<(u16, Option<Seq<char>>)>,
    guard: spec_fn(UrlView) -> bool,
) -> Seq<Seq<char>>
    decreases answers.len(),
{
    if answers.len() == 0 {
        seq![f.current_url]
    } else {
        let (status, location) = answers[0];
        match f.target(status, location) {
            None => seq![f.current_url],
            Some(next) => match f.followed(status, next, guard(next)) {
                Err(_) => seq![f.current_url],
                Ok(g) => seq![f.current_url] + sent_to(g, answers.skip(1), guard),
            },
        }
    }
}

/// What comes of one turn of a script's request: it cannot be sent, or a response comes.
pub enum ScriptTurn {
    SendFailed,
    Answered(u16, Option<Seq<char>>),
}

/// The state after a script's request, where `turns` is what comes of each turn and `guard` says
/// which addresses are forbidden: a request counts from when it is sent until it is answered or
/// has failed.
pub open spec fn state_after(
    s: StateView,
    f: ScriptView,
    turns: Seq<ScriptTurn>,
    guard: spec_fn(UrlView) -> bool,
) -> StateView
    decreases turns.len(),
{
    if turns.len() == 0 {
        s
    } else {
        let t = s.with_sent().with_ended();
        match turns[0] {
            ScriptTurn::SendFailed => t,
            ScriptTurn::Answered(status, location) => match f.target(status, location) {
                None => t,
                Some(next) => match f.followed(status, next, guard(next)) {
                    Err(_) => t,
                    Ok(g) => state_after(t, g, turns.skip(1), guard),
                },
            },
        }
    }
}

/// A whole request of a script leaves the count of requests on their way, and all else in the
/// state, as it was, whatever ends it.
pub proof fn script_ends_what_it_sends(
    s: StateView,
    f: ScriptView,
    turns: Seq<ScriptTurn>,
    guard: spec_fn(UrlView) -> bool,
)
    ensures
        state_after(s, f, turns, guard) == s,
    decreases turns.len(),
{
    if let Some(c) = s.http_client {
        crate::net::client::sent_and_ended_cancel(c.in_flight);
    }
    assert(s.with_sent().with_ended() == s);
    if turns.len() > 0 {
        if let ScriptTurn::Answered(status, location) = turns[0] {
            if let Some(next) = f.target(status, location) {
                if let Ok(g) = f.followed(status, next, guard(next)) {
                    script_ends_what_it_sends(s, g, turns.skip(1), guard);
                }
            }
        }
    }
}

/// Whether a text is the serialization of a URL that the policy lets scripts fetch.
pub open spec fn fetchable(
    href: Seq<char>,
    allow_private: bool,
    guard: spec_fn(UrlView) -> bool,
) -> bool {
    exists|u: UrlView|
        u.href == href && (#[trigger] policy::verdict(u, allow_private, guard(u))) is Ok
}

/// Whatever the servers answer, a script's request is sent to at most eleven URLs, and
/// the policy lets scripts fetch every one that a redirect leads to.
pub proof fn script_goes_only_where_allowed(
    f: ScriptView,
    answers: Seq<(u16, Option<Seq<char>>)>,
    guard: spec_fn(UrlView) -> bool,
)
    requires
        f.redirects <= FETCH_REDIRECT_LIMIT,
    ensures
        1 <= sent_to(f, answers, guard).len() <= FETCH_REDIRECT_LIMIT - f.redirects + 1,
        sent_to(f, answers, guard)[0] == f.current_url,
        forall|i: int|
            1 <= i < sent_to(f, answers, guard).len() ==> fetchable(
                #[trigger] sent_to(f, answers, guard)[i],
                f.allow_private,
                guard,
            ),
    decreases answers.len(),
{
    if answers.len() > 0 {
        let (status, location) = answers[0];
        if let Some(next) = f.target(status, location) {
            if let Ok(g) = f.followed(status, next, guard(next)) {
                let rest = sent_to(g, answers.skip(1), guard);
                script_goes_only_where_allowed(g, answers.skip(1), guard);
                assert(policy::verdict(next, f.allow_private, guard(next)) is Ok);
                assert(fetchable(next.href, f.allow_private, guard));
                assert forall|i: int| 1 <= i < sent_to(f, answers, guard).len() implies fetchable(
                    #[trigger] sent_to(f, answers, guard)[i],
                    f.allow_private,
                    guard,
                ) by {
                    assert(sent_to(f, answers, guard)[i] == rest[i - 1]);
                }
            }
        }
    }
}

/// What the cookie jar has never reaches another origin: the headers of a request to one
/// do not depend on it.
pub proof fn cookies_stay_at_home(f: ScriptView, jar: Seq<char>, other_jar: Seq<char>)
    requires
        f.cross_origin,
    ensures
        f.outgoing_headers(jar) == f.outgoing_headers(other_jar),
{
}

/// A request that starts without being blocked goes to a URL that the policy lets scripts
/// fetch, or to a text that is no URL.
pub proof fn admitted_only_if_allowed(
    s: StateView,
    call: CallView,
    allow_private: bool,
    ip_forbidden: bool,
)
    ensures
        !(admission(s, call, allow_private, ip_forbidden).1 is Reply) ==> {
            &&& !any_blocks(s.blocked_urls, call.url)
            &&& url::url_parsed(call.url) matches Ok(u) ==> policy::verdict(
                u,
                allow_private,
                ip_forbidden,
            ) is Ok
        },
{
}

} // verus!
