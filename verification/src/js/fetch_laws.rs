//! What holds of every request that a page script makes.

use vstd::prelude::*;
use vstd::string::*;

use crate::base64;
use crate::js::fetch::{self, AdmissionView, CallView, ScriptView};
use crate::js::state::{ResolutionView, StateView};
use crate::json::{self, JsonView};
use crate::net::headers;
use crate::net::policy;
use crate::net::url::{self, HostView, UrlView};
use crate::text;
use crate::text_laws;

verus! {

/// How some names are spelled: enough to tell them apart.
spec fn reply_names_differ_spelled() -> bool {
    &&& "status"@.len() == 6
    &&& "body"@.len() == 4
    &&& "url"@.len() == 3
    &&& "headers"@.len() == 7
    &&& "blocked"@.len() == 7
    &&& "error"@.len() == 5
    &&& "corsBlocked"@.len() == 11
    &&& "corsError"@.len() == 9
    &&& "bodyBase64"@.len() == 10
    &&& "headers"@[0] == 'h'
    &&& "blocked"@[0] == 'b'
}

#[verifier::spinoff_prover]
proof fn reply_names_differ()
    ensures
        reply_names_differ_spelled(),
{
    reveal_strlit("status");
    reveal_strlit("body");
    reveal_strlit("url");
    reveal_strlit("headers");
    reveal_strlit("blocked");
    reveal_strlit("error");
    reveal_strlit("corsBlocked");
    reveal_strlit("corsError");
    reveal_strlit("bodyBase64");
}

/// Every header that a script sets is sent with its value, in the order in which it was set, and
/// after all others, whether or not the request leaves its origin.
pub proof fn headers_of_scripts_are_sent(f: ScriptView, cookies: Seq<char>)
    ensures
        ({
            let sent = f.outgoing_headers(cookies);
            let n = f.custom_headers.len();
            &&& n <= sent.len() <= n + 2
            &&& forall|i: int| 0 <= i < n ==> sent.contains(#[trigger] f.custom_headers[i])
            &&& forall|i: int|
                0 <= i < n ==> sent[sent.len() - n + i] == #[trigger] f.custom_headers[i]
        }),
{
    let sent = f.outgoing_headers(cookies);
    let n = f.custom_headers.len();
    assert forall|i: int| 0 <= i < n implies sent.contains(#[trigger] f.custom_headers[i]) by {
        assert(sent[sent.len() - n + i] == f.custom_headers[i]);
    }
}

/// Besides the headers of the script, a request that leaves its origin tells where it is from and
/// takes no cookies along, one that stays takes the cookies along, and either tells the user
/// agent unless the script does. Nothing else is sent.
pub proof fn requests_tell_who_asks(f: ScriptView, cookies: Seq<char>)
    ensures
        ({
            let sent = f.outgoing_headers(cookies);
            let from = ("Origin"@, f.page_origin);
            let jar = ("Cookie"@, cookies);
            let agent = (
                "User-Agent"@,
                "Mozilla/5.0 (X11; Linux x86_64) AppleWebKit/537.36 (KHTML, like Gecko) Chrome/145.0.0.0 Safari/537.36"@,
            );
            let named = exists|i: int|
                0 <= i < f.custom_headers.len() && text::lower_text(
                    (#[trigger] f.custom_headers[i]).0,
                ) == "user-agent"@;
            &&& f.cross_origin ==> sent.contains(from)
            &&& !f.cross_origin && cookies.len() > 0 ==> sent.contains(jar)
            &&& !named ==> sent.contains(agent)
            &&& forall|k: int|
                0 <= k < sent.len() ==> {
                    ||| f.cross_origin && #[trigger] sent[k] == from
                    ||| !f.cross_origin && cookies.len() > 0 && sent[k] == jar
                    ||| !named && sent[k] == agent
                    ||| f.custom_headers.contains(sent[k])
                }
        }),
{
    let sent = f.outgoing_headers(cookies);
    let h = f.custom_headers;
    reveal_strlit("user-agent");
    assert(text::lower_text("user-agent"@) =~= "user-agent"@);
    assert forall|i: int| 0 <= i < h.len() implies (text::lower_text((#[trigger] h[i]).0)
        == "user-agent"@) == (text::upper_text(h[i].0) == text::upper_text("user-agent"@)) by {
        text_laws::case_changes_letters(h[i].0, "user-agent"@, 0);
    }
    let named = exists|i: int|
        0 <= i < h.len() && text::lower_text((#[trigger] h[i]).0) == "user-agent"@;
    assert(named == fetch::names_user_agent(h));
    let first = if f.cross_origin || cookies.len() > 0 {
        1int
    } else {
        0int
    };
    if first == 1 {
        assert(sent.contains(sent[0]));
    }
    if !named {
        assert(sent.contains(sent[first]));
    }
    let skipped = sent.len() - h.len();
    assert forall|k: int| skipped <= k < sent.len() implies h.contains(#[trigger] sent[k]) by {
        assert(sent[k] == h[k - skipped]);
    }
}

/// How a request starts: as it was asked for, at the URL that was asked for, with no redirect
/// behind it. A text that can be no method, such as an empty one or one with a blank, becomes
/// `GET`. Without an origin of its own the page is taken to be at home; with one, the request
/// leaves it just where the scheme, the host and the port of the URL do not spell it.
pub proof fn requests_start_as_asked(
    call: CallView,
    u: UrlView,
    h: Seq<(Seq<char>, Seq<char>)>,
    allow_private: bool,
)
    ensures
        ({
            let f = ScriptView::begin(call, Some(u), h, allow_private);
            let g = ScriptView::begin(call, None, h, allow_private);
            let host = if u.hostname is Some {
                u.hostname->0
            } else {
                Seq::empty()
            };
            let site = u.scheme + seq![':', '/', '/'] + host;
            let at = if u.port is Some {
                site + seq![':'] + text::decimal_text(u.port->0 as nat)
            } else {
                site
            };
            &&& f.url == call.url && f.current_url == call.url
            &&& f.asked_method == call.method && f.body == call.body
            &&& f.custom_headers == h && f.redirects == 0 && f.allow_private == allow_private
            &&& f.cors == (call.mode == "cors"@)
            &&& call.method.len() > 0 && (forall|i: int|
                0 <= i < call.method.len() ==> 'A' <= #[trigger] call.method[i] <= 'Z')
                ==> f.method == call.method
            &&& call.method.len() == 0 || call.method.contains(' ') ==> f.method == "GET"@
            &&& f.method == call.method || f.method == "GET"@
            &&& call.method.len() > 0 && (forall|i: int|
                0 <= i < call.method.len() ==> ('A' <= #[trigger] call.method[i] <= 'Z' || 'a'
                    <= call.method[i] <= 'z' || '0' <= call.method[i] <= '9' || call.method[i]
                    == '-' || call.method[i] == '_')) ==> f.method == call.method
            &&& headers::token(call.method) ==> f.method == call.method
            &&& !headers::token(call.method) ==> f.method == "GET"@
            &&& g.url == call.url && g.current_url == call.url && g.asked_method == call.method
            &&& g.method == f.method && g.body == call.body && g.custom_headers == h
            &&& g.redirects == 0 && g.allow_private == allow_private && g.cors == f.cors
            &&& call.origin.len() == 0 ==> !f.cross_origin && f.page_origin == at
            &&& call.origin.len() > 0 ==> f.page_origin == call.origin && f.cross_origin == (
            call.origin != at)
            &&& call.origin.len() == 0 ==> !g.cross_origin
            &&& call.origin.len() > 0 ==> g.cross_origin && g.page_origin == call.origin
        }),
{
    reveal_strlit("://");
    reveal_strlit(":");
    assert("://"@ =~= seq![':', '/', '/']);
    assert(":"@ =~= seq![':']);
    if call.method.contains(' ') {
        let i = choose|i: int| 0 <= i < call.method.len() && call.method[i] == ' ';
        assert(!headers::token_char(call.method[i]));
        assert(!headers::token(call.method));
    }
}

/// A request starts with the URL that its text is and the headers that its JSON holds; JSON that
/// is no object of strings holds none.
pub proof fn requests_start_from_texts(call: CallView, allow_private: bool)
    ensures
        ({
            let f = ScriptView::start(call, allow_private);
            let h = match fetch::string_object(call.headers_json) {
                Some(h) => h,
                None => Seq::empty(),
            };
            match url::url_parsed(call.url) {
                Ok(u) => f == ScriptView::begin(call, Some(u), h, allow_private),
                Err(_) => f == ScriptView::begin(call, None, h, allow_private),
            }
        }),
{
}

/// The server is asked first only where a request leaves its origin under CORS, and then just
/// where the method is none of `GET`, `HEAD` and `POST` or a header is not one of the four that
/// any page may send.
pub proof fn servers_are_asked_first(f: ScriptView)
    ensures
        !f.cross_origin || !f.cors ==> !f.needs_preflight(),
        f.cross_origin && f.cors && f.method != "GET"@ && f.method != "HEAD"@ && f.method
            != "POST"@ ==> f.needs_preflight(),
        f.cross_origin && f.cors ==> forall|i: int|
            0 <= i < f.custom_headers.len() && text::lowered((#[trigger] f.custom_headers[i]).0)
                != "accept"@ && text::lowered(f.custom_headers[i].0) != "accept-language"@
                && text::lowered(f.custom_headers[i].0) != "content-language"@ && text::lowered(
                f.custom_headers[i].0,
            ) != "content-type"@ ==> f.needs_preflight(),
        (f.method == "GET"@ || f.method == "HEAD"@ || f.method == "POST"@) && (forall|i: int|
            0 <= i < f.custom_headers.len() ==> text::lowered((#[trigger] f.custom_headers[i]).0)
                == "accept"@ || text::lowered(f.custom_headers[i].0) == "accept-language"@
                || text::lowered(f.custom_headers[i].0) == "content-language"@ || text::lowered(
                f.custom_headers[i].0,
            ) == "content-type"@) ==> !f.needs_preflight(),
{
    assert forall|i: int|
        0 <= i < f.custom_headers.len() && !fetch::simple_header(
            (#[trigger] f.custom_headers[i]).0,
        ) && f.cross_origin && f.cors implies f.needs_preflight() by {}
}

/// The question that goes before a request tells the origin, the method that was asked for, and
/// the names of the headers that the script sets.
pub proof fn questions_tell_what_is_asked(f: ScriptView)
    ensures
        f.preflight_headers().len() == 3,
        f.preflight_headers()[0] == ("Origin"@, f.page_origin),
        f.preflight_headers()[1] == ("Access-Control-Request-Method"@, f.asked_method),
        f.preflight_headers()[2].0 == "Access-Control-Request-Headers"@,
        f.custom_headers.len() == 0 ==> f.preflight_headers()[2].1 == Seq::<char>::empty(),
        f.custom_headers.len() == 1 ==> f.preflight_headers()[2].1 == f.custom_headers[0].0,
        f.custom_headers.len() > 1 ==> f.preflight_headers()[2].1 == (ScriptView {
            custom_headers: f.custom_headers.drop_last(),
            ..f
        }).preflight_headers()[2].1 + seq![',', ' '] + f.custom_headers.last().0,
{
    reveal_strlit(", ");
    assert(", "@ =~= seq![',', ' ']);
    let h = f.custom_headers;
    if h.len() > 1 {
        assert(fetch::names(h).drop_last() =~= fetch::names(h.drop_last()));
    }
}

/// An origin is allowed where the server names it or a star, and nowhere else.
pub proof fn origins_are_allowed_by_name(allowed: Seq<char>, origin: Seq<char>)
    ensures
        fetch::origin_allowed(origin, origin),
        fetch::origin_allowed("*"@, origin),
        fetch::origin_allowed(allowed, origin) && allowed != "*"@ ==> allowed == origin,
{
}

/// A response leads elsewhere just where its status is from 300 to 399 and it names a place that
/// is a URL as seen from the URL that was asked.
pub proof fn redirects_name_their_target(f: ScriptView, status: u16, place: Seq<char>)
    ensures
        f.target(status, None) is None,
        status < 300 || status > 399 ==> f.target(status, Some(place)) is None,
        300 <= status <= 399 ==> match url::url_resolved(f.current_url, place) {
            Ok(u) => f.target(status, Some(place)) == Some(u),
            Err(_) => f.target(status, Some(place)) is None,
        },
{
}

/// A redirect that the policy allows is followed ten times and not once more. After 301, 302 and
/// 303 the request is a `GET` without a body; after any other status its method and body are as
/// before. All else of the request stays.
pub proof fn redirects_of_scripts_are_followed(
    f: ScriptView,
    status: u16,
    next: UrlView,
    host: Option<HostView>,
    ip_forbidden: bool,
)
    ensures
        policy::verdict_for(next.scheme, host, f.allow_private, ip_forbidden) is Ok && f.redirects
            < 10 ==> {
            &&& f.followed_to(status, next, host, ip_forbidden) matches Ok(g)
            &&& g.current_url == next.href && g.redirects == f.redirects + 1
            &&& g.url == f.url && g.asked_method == f.asked_method
            &&& g.page_origin == f.page_origin && g.cross_origin == f.cross_origin
            &&& g.cors == f.cors && g.custom_headers == f.custom_headers
            &&& g.allow_private == f.allow_private
            &&& status == 301 || status == 302 || status == 303 ==> g.method == "GET"@
                && g.body.len() == 0
            &&& status != 301 && status != 302 && status != 303 ==> g.method == f.method
                && g.body == f.body
        },
        url::url_host(next.href) == host ==> f.followed(status, next, ip_forbidden)
            == f.followed_to(status, next, host, ip_forbidden),
{
}

/// Whether a reply tells a script that nothing came of its request to a URL: status zero, no
/// body and no headers.
pub open spec fn says_nothing(j: JsonView, url: Seq<char>) -> bool {
    &&& j.get("status"@) == Some(JsonView::UInt(0))
    &&& j.get("body"@) == Some(JsonView::Str(Seq::empty()))
    &&& j.get("url"@) == Some(JsonView::Str(url))
    &&& j.get("headers"@) == Some(JsonView::Object(Seq::empty()))
}

proof fn empty_reply_members(url: Seq<char>)
    ensures
        fetch::empty_reply(url).keyed(),
        says_nothing(fetch::empty_reply(url), url),
        forall|k: Seq<char>|
            k != "status"@ && k != "body"@ && k != "url"@ && k != "headers"@ ==> (
            #[trigger] fetch::empty_reply(url).get(k)) is None,
{
    reply_names_differ();
    json::object_is_keyed();
    let a = JsonView::object();
    let b = a.put("status"@, JsonView::UInt(0));
    let c = b.put("body"@, JsonView::Str(Seq::empty()));
    let d = c.put("url"@, JsonView::Str(url));
    json::put_sets(a, "status"@, JsonView::UInt(0));
    json::put_sets(b, "body"@, JsonView::Str(Seq::empty()));
    json::put_sets(c, "url"@, JsonView::Str(url));
    json::put_sets(d, "headers"@, JsonView::object());
}

proof fn refused_reply_members(url: Seq<char>, reason: Seq<char>)
    ensures
        ({
            let j = fetch::blocked_reply(url);
            let k = fetch::refused_reply(url, reason);
            &&& says_nothing(j, url) && says_nothing(k, url)
            &&& j.get("blocked"@) == Some(JsonView::Bool(true))
            &&& k.get("blocked"@) == Some(JsonView::Bool(true))
            &&& j.get("error"@) is None
            &&& k.get("error"@) == Some(JsonView::Str(reason))
        }),
{
    reply_names_differ();
    empty_reply_members(url);
    json::put_sets(fetch::empty_reply(url), "blocked"@, JsonView::Bool(true));
    json::put_sets(fetch::blocked_reply(url), "error"@, JsonView::Str(reason));
}

/// A redirect that the policy refuses, or one too many, ends the request with a reply that says
/// so and tells nothing of a response.
pub proof fn redirects_that_end_requests(
    f: ScriptView,
    status: u16,
    next: UrlView,
    host: Option<HostView>,
    ip_forbidden: bool,
)
    ensures
        ({
            let verdict = policy::verdict_for(next.scheme, host, f.allow_private, ip_forbidden);
            let r = f.followed_to(status, next, host, ip_forbidden);
            verdict is Err || f.redirects >= 10 ==> {
                &&& r matches Err(j)
                &&& says_nothing(j, next.href)
                &&& j.get("blocked"@) == Some(JsonView::Bool(true))
                &&& verdict matches Err(e) ==> j.get("error"@) == Some(
                    JsonView::Str("Redirect to forbidden URL blocked: "@ + e),
                )
                &&& verdict is Ok ==> j.get("error"@) == Some(
                    JsonView::Str("Too many redirects (>10)"@),
                )
            }
        }),
{
    match policy::verdict_for(next.scheme, host, f.allow_private, ip_forbidden) {
        Err(e) => refused_reply_members(next.href, "Redirect to forbidden URL blocked: "@ + e),
        Ok(()) => refused_reply_members(next.href, "Too many redirects (>10)"@),
    }
}

/// A script sees a response unless the request left its origin under CORS; then only where the
/// server's `access-control-allow-origin` names the origin or a star.
pub proof fn scripts_see_what_servers_allow(f: ScriptView, h: Seq<(Seq<char>, Seq<char>)>, i: int)
    ensures
        !f.cross_origin || !f.cors ==> f.may_see(h),
        f.cross_origin && f.cors && f.page_origin.len() > 0 && (forall|k: int|
            0 <= k < h.len() ==> (#[trigger] h[k]).0 != "access-control-allow-origin"@)
            ==> !f.may_see(h),
        f.cross_origin && f.cors && 0 <= i < h.len() && h[i].0 == "access-control-allow-origin"@
            && (forall|k: int|
            i < k < h.len() ==> (#[trigger] h[k]).0 != "access-control-allow-origin"@)
            ==> f.may_see(h) == (h[i].1 == "*"@ || h[i].1 == f.page_origin),
{
    let name = "access-control-allow-origin"@;
    crate::assoc::place_is_last(h, name);
    reveal_strlit("*");
    assert("*"@.len() == 1);
    if let Some(p) = crate::assoc::place(h, name) {
        assert(h[p].0 == name);
    }
}

/// The reply that hides a response tells nothing of it, and says that CORS is why.
pub proof fn hidden_replies_tell_nothing(f: ScriptView, h: Seq<(Seq<char>, Seq<char>)>)
    ensures
        ({
            let j = f.hidden_reply(h);
            &&& says_nothing(j, f.url)
            &&& j.get("corsBlocked"@) == Some(JsonView::Bool(true))
            &&& j.get("bodyBase64"@) is None
            &&& (forall|k: int|
                0 <= k < h.len() ==> (#[trigger] h[k]).0 != "access-control-allow-origin"@)
                ==> j.get("corsError"@) == Some(
                JsonView::Str(
                    "CORS error: Origin '"@ + f.page_origin
                        + "' not in Access-Control-Allow-Origin '"@ + "'"@,
                ),
            )
            &&& h.len() > 0 && h.last().0 == "access-control-allow-origin"@ ==> j.get(
                "corsError"@,
            ) == Some(
                JsonView::Str(
                    "CORS error: Origin '"@ + f.page_origin
                        + "' not in Access-Control-Allow-Origin '"@ + h.last().1 + "'"@,
                ),
            )
        }),
{
    reply_names_differ();
    empty_reply_members(f.url);
    let e = fetch::empty_reply(f.url);
    json::put_sets(e, "corsBlocked"@, JsonView::Bool(true));
    let allowed = fetch::or_empty(crate::assoc::lookup(h, "access-control-allow-origin"@));
    let why = "CORS error: Origin '"@ + f.page_origin + "' not in Access-Control-Allow-Origin '"@
        + allowed + "'"@;
    json::put_sets(e.put("corsBlocked"@, JsonView::Bool(true)), "corsError"@, JsonView::Str(why));
    crate::assoc::place_is_last(h, "access-control-allow-origin"@);
    let short = "CORS error: Origin '"@ + f.page_origin
        + "' not in Access-Control-Allow-Origin '"@;
    assert(short + Seq::<char>::empty() =~= short);
}

proof fn headers_json_members(h: Seq<(Seq<char>, Seq<char>)>, i: int, name: Seq<char>)
    ensures
        fetch::headers_json(h).keyed(),
        0 <= i < h.len() && h[i].0 == name && (forall|k: int|
            i < k < h.len() ==> (#[trigger] h[k]).0 != name) ==> fetch::headers_json(h).get(name)
            == Some(JsonView::Str(h[i].1)),
        (forall|k: int| 0 <= k < h.len() ==> (#[trigger] h[k]).0 != name) ==> fetch::headers_json(
            h,
        ).get(name) is None,
    decreases h.len(),
{
    json::object_is_keyed();
    if h.len() > 0 {
        let rest = h.drop_last();
        headers_json_members(rest, i, name);
        json::put_sets(fetch::headers_json(rest), h.last().0, JsonView::Str(h.last().1));
        if (forall|k: int| 0 <= k < h.len() ==> (#[trigger] h[k]).0 != name) {
            assert forall|k: int| 0 <= k < rest.len() implies (#[trigger] rest[k]).0 != name by {
                assert(rest[k] == h[k]);
            }
            assert(h[h.len() - 1].0 != name);
        }
        if 0 <= i < h.len() - 1 && h[i].0 == name && (forall|k: int|
            i < k < h.len() ==> (#[trigger] h[k]).0 != name) {
            assert(h[h.len() - 1].0 != name);
            assert forall|k: int| i < k < rest.len() implies (#[trigger] rest[k]).0 != name by {
                assert(rest[k] == h[k]);
            }
        }
    }
}

/// A header told as JSON has the value that it came with last, and no other name is told.
pub proof fn headers_are_told(h: Seq<(Seq<char>, Seq<char>)>, i: int, name: Seq<char>)
    ensures
        0 <= i < h.len() && h[i].0 == name && (forall|k: int|
            i < k < h.len() ==> (#[trigger] h[k]).0 != name) ==> fetch::headers_json(h).get(name)
            == Some(JsonView::Str(h[i].1)),
        (forall|k: int| 0 <= k < h.len() ==> (#[trigger] h[k]).0 != name) ==> fetch::headers_json(
            h,
        ).get(name) is None,
{
    headers_json_members(h, i, name);
}

/// The reply with a response tells its status, its body as text and in Base64, the URL that was
/// asked for and its headers.
pub proof fn replies_tell_responses(
    f: ScriptView,
    status: u16,
    h: Seq<(Seq<char>, Seq<char>)>,
    body: Seq<u8>,
)
    ensures
        ({
            let j = f.full_reply(status, h, body);
            &&& j.get("status"@) == Some(JsonView::UInt(status as u64))
            &&& j.get("body"@) == Some(JsonView::Str(text::lossy(body)))
            &&& j.get("url"@) == Some(JsonView::Str(f.url))
            &&& j.get("headers"@) == Some(fetch::headers_json(h))
            &&& j.get("blocked"@) is None && j.get("corsBlocked"@) is None
            &&& j.get("bodyBase64"@) matches Some(JsonView::Str(b)) && base64::decoded(b) == body
        }),
{
    reply_names_differ();
    json::object_is_keyed();
    base64::decode_undoes_encode(body);
    let a = JsonView::object();
    let b = a.put("status"@, JsonView::UInt(status as u64));
    let c = b.put("body"@, JsonView::Str(text::lossy(body)));
    let d = c.put("bodyBase64"@, JsonView::Str(base64::encoded(body)));
    let e = d.put("url"@, JsonView::Str(f.url));
    json::put_sets(a, "status"@, JsonView::UInt(status as u64));
    json::put_sets(b, "body"@, JsonView::Str(text::lossy(body)));
    json::put_sets(c, "bodyBase64"@, JsonView::Str(base64::encoded(body)));
    json::put_sets(d, "url"@, JsonView::Str(f.url));
    json::put_sets(e, "headers"@, fetch::headers_json(h));
}

/// A decision to fulfil a request answers it with the status, the body and the headers that were
/// decided on; a decision to fail it answers with the reason; any other decision, or none, does
/// not answer it.
pub proof fn decisions_answer_requests(
    url: Seq<char>,
    status: u16,
    h: Seq<(Seq<char>, Seq<char>)>,
    body: Seq<char>,
    reason: Seq<char>,
    r: ResolutionView,
)
    ensures
        fetch::resolution_reply(url, None) is None,
        r is Continue ==> fetch::resolution_reply(url, Some(r)) is None,
        ({
            &&& fetch::resolution_reply(
                url,
                Some(ResolutionView::Fulfill { status, headers: h, body }),
            ) matches Some(j)
            &&& j.get("status"@) == Some(JsonView::UInt(status as u64))
            &&& j.get("body"@) == Some(JsonView::Str(body))
            &&& j.get("url"@) == Some(JsonView::Str(url))
            &&& j.get("headers"@) == Some(fetch::headers_json(h))
            &&& j.get("blocked"@) is None
        }),
        ({
            &&& fetch::resolution_reply(url, Some(ResolutionView::Fail { reason })) matches Some(j)
            &&& says_nothing(j, url)
            &&& j.get("blocked"@) == Some(JsonView::Bool(true))
            &&& j.get("error"@) == Some(JsonView::Str(reason))
        }),
{
    reply_names_differ();
    json::object_is_keyed();
    refused_reply_members(url, reason);
    let a = JsonView::object();
    let b = a.put("status"@, JsonView::UInt(status as u64));
    let c = b.put("body"@, JsonView::Str(body));
    let d = c.put("url"@, JsonView::Str(url));
    json::put_sets(a, "status"@, JsonView::UInt(status as u64));
    json::put_sets(b, "body"@, JsonView::Str(body));
    json::put_sets(c, "url"@, JsonView::Str(url));
    json::put_sets(d, "headers"@, fetch::headers_json(h));
}

/// A request that the policy refuses is answered with the reason, and one that a pattern blocks
/// without; neither changes the state. Any other request goes on, but where there is someone to
/// ask it waits for them: under the next number, with the URL, the method and the headers that it
/// has.
pub proof fn requests_are_admitted(
    s: StateView,
    call: CallView,
    refusal: Option<Seq<char>>,
    h: Seq<(Seq<char>, Seq<char>)>,
)
    requires
        s.intercept_counter < u64::MAX,
    ensures
        ({
            let (t, a) = fetch::admission_with(s, call, refusal, h);
            let blocked = fetch::any_blocks(s.blocked_urls, call.url);
            &&& refusal is Some || blocked || !s.intercept_enabled ==> t == s
            &&& refusal is Some ==> {
                &&& a matches AdmissionView::Reply(j)
                &&& says_nothing(j, call.url)
                &&& j.get("blocked"@) == Some(JsonView::Bool(true))
                &&& j.get("error"@) == Some(JsonView::Str(refusal->0))
            }
            &&& refusal is None && blocked ==> {
                &&& a matches AdmissionView::Reply(j)
                &&& says_nothing(j, call.url)
                &&& j.get("blocked"@) == Some(JsonView::Bool(true))
                &&& j.get("error"@) is None
            }
            &&& refusal is None && !blocked && s.intercept_enabled ==> t == (StateView {
                intercept_counter: (s.intercept_counter + 1) as u64,
                ..s
            })
            &&& refusal is None && !blocked && s.intercept_enabled && s.has_intercept_tx ==> {
                &&& a matches AdmissionView::Intercept(q)
                &&& q.url == call.url && q.method == call.method && q.headers == h
                &&& q.resource_type == "Fetch"@
                &&& q.request_id == seq!['i', 'n', 't', 'e', 'r', 'c', 'e', 'p', 't', '-']
                    + text::decimal_text((s.intercept_counter + 1) as nat)
            }
            &&& refusal is None && !blocked && !(s.intercept_enabled && s.has_intercept_tx)
                ==> a is Proceed
        }),
{
    reveal_strlit("intercept-");
    assert("intercept-"@ =~= seq!['i', 'n', 't', 'e', 'r', 'c', 'e', 'p', 't', '-']);
    if let Some(e) = refusal {
        refused_reply_members(call.url, e);
    }
    refused_reply_members(call.url, Seq::empty());
}

/// A request is admitted by what the policy says of the URL that its text is, with the headers
/// that its JSON holds; a text that is no URL is not refused.
pub proof fn requests_are_admitted_by_url(
    s: StateView,
    call: CallView,
    allow_private: bool,
    ip_forbidden: bool,
)
    ensures
        ({
            let a = fetch::admission(s, call, allow_private, ip_forbidden);
            let h = match fetch::string_object(call.headers_json) {
                Some(h) => h,
                None => Seq::empty(),
            };
            match url::url_parsed(call.url) {
                Ok(u) => match policy::verdict(u, allow_private, ip_forbidden) {
                    Ok(()) => a == fetch::admission_with(s, call, None, h),
                    Err(e) => a == fetch::admission_with(s, call, Some(e), h),
                },
                Err(_) => a == fetch::admission_with(s, call, None, h),
            }
        }),
{
}

/// Stars at the ends of a pattern stand for any text there: `*t*` fits what has `t` in it, `*t`
/// what ends in `t`, and `t*` what begins with `t`. A pattern without them fits itself alone, and
/// a lone star fits everything.
pub proof fn stars_stand_for_any_text(t: Seq<char>, a: Seq<char>, b: Seq<char>, url: Seq<char>)
    requires
        t.len() > 0,
        t[0] != '*',
        t.last() != '*',
    ensures
        fetch::glob_matches(seq!['*'], url),
        fetch::glob_matches(seq!['*'] + t + seq!['*'], a + t + b),
        fetch::glob_matches(seq!['*'] + t, a + t),
        fetch::glob_matches(t + seq!['*'], t + b),
        fetch::glob_matches(t, t),
        fetch::glob_matches(t, url) ==> url == t,
        fetch::glob_matches(seq!['*'] + t + seq!['*'], url) ==> exists|i: int|
            0 <= i <= url.len() - t.len() && #[trigger] url.subrange(i, i + t.len()) == t,
        fetch::glob_matches(seq!['*'] + t, url) ==> t.len() <= url.len() && url.skip(
            url.len() - t.len(),
        ) == t,
        fetch::glob_matches(t + seq!['*'], url) ==> t.len() <= url.len() && url.take(
            t.len() as int,
        ) == t,
{
    reveal_strlit("*");
    assert("*"@ =~= seq!['*']);
    let both = seq!['*'] + t + seq!['*'];
    let head = seq!['*'] + t;
    let tail = t + seq!['*'];
    assert(both.subrange(1, both.len() - 1) =~= t);
    assert(head.subrange(1, head.len() as int) =~= t);
    assert(tail.subrange(0, tail.len() - 1) =~= t);
    assert(head.last() == t.last());
    assert(tail[0] == t[0]);
    assert((a + t + b).subrange(a.len() as int, (a.len() + t.len()) as int) =~= t);
    assert(text::occurs_at(a + t + b, t, a.len() as int));
    assert((a + t).subrange(a.len() as int, (a + t).len() as int) =~= t);
    assert((t + b).subrange(0, t.len() as int) =~= t);
    if text::has_text(url, t) {
        let i = choose|i: int| text::occurs_at(url, t, i);
        assert(url.subrange(i, i + t.len()) == t);
    }
    if text::has_suffix(url, t) {
        assert(url.skip(url.len() - t.len()) =~= url.subrange(
            url.len() - t.len(),
            url.len() as int,
        ));
    }
    if text::has_prefix(url, t) {
        assert(url.take(t.len() as int) =~= url.subrange(0, t.len() as int));
    }
}

/// A URL is blocked where one of the patterns stands in it or fits it, whichever place the
/// pattern has, and only there.
pub proof fn patterns_block(patterns: Seq<Seq<char>>, i: int, a: Seq<char>, b: Seq<char>, url: Seq<char>)
    ensures
        0 <= i < patterns.len() ==> fetch::any_blocks(patterns, a + patterns[i] + b),
        0 <= i < patterns.len() && fetch::glob_matches(patterns[i], url) ==> fetch::any_blocks(
            patterns,
            url,
        ),
        (forall|k: int|
            0 <= k < patterns.len() ==> !text::has_text(url, #[trigger] patterns[k])
                && !fetch::glob_matches(patterns[k], url)) ==> !fetch::any_blocks(patterns, url),
{
    if 0 <= i < patterns.len() {
        let p = patterns[i];
        assert((a + p + b).subrange(a.len() as int, (a.len() + p.len()) as int) =~= p);
        assert(text::occurs_at(a + p + b, p, a.len() as int));
        assert(fetch::blocks(p, a + p + b));
    }
    reveal_strlit("*");
    if fetch::any_blocks(patterns, url) {
        let k = choose|k: int| 0 <= k < patterns.len() && fetch::blocks(#[trigger] patterns[k], url);
        assert(text::has_text(url, patterns[k]) || fetch::glob_matches(patterns[k], url));
    }
}

/// Sending counts one request more and ending it one fewer, where there is a client that counts;
/// nothing else of the state changes.
pub proof fn requests_are_counted(s: StateView)
    ensures
        s.http_client is None ==> s.with_sent() == s && s.with_ended() == s,
        s.http_client matches Some(c) ==> {
            &&& s.with_sent().http_client matches Some(d)
            &&& c.in_flight < u32::MAX ==> d.in_flight == c.in_flight + 1
            &&& c.in_flight == u32::MAX ==> d.in_flight == 0
            &&& s.with_sent() == (StateView { http_client: s.with_sent().http_client, ..s })
            &&& d.proxy_url == c.proxy_url && d.user_agent == c.user_agent
            &&& s.with_ended().http_client matches Some(e)
            &&& c.in_flight > 0 ==> e.in_flight == c.in_flight - 1
            &&& s.with_ended() == (StateView { http_client: s.with_ended().http_client, ..s })
        },
{
}

/// A page that nothing was loaded into is blank: it has no document, no title and no cookies,
/// blocks nothing and asks no one.
pub proof fn new_pages_are_blank()
    ensures
        ({
            let s = StateView::fresh();
            &&& s.dom is None && s.http_client is None && s.pending_navigation is None
            &&& s.url == "about:blank"@ && s.encoding == "UTF-8"@ && s.title.len() == 0
            &&& s.blocked_urls.len() == 0 && s.pending_binding_calls.len() == 0
            &&& !s.has_cookie_jar && !s.has_intercept_tx && !s.intercept_enabled
            &&& s.intercept_counter == 0
            &&& s.cookie_url() is None
        }),
{
}

/// Cookies are those of the URL that the page is at, where there is a cookie jar.
pub proof fn cookies_are_of_the_page(s: StateView)
    ensures
        !s.has_cookie_jar ==> s.cookie_url() is None,
        s.has_cookie_jar ==> match url::url_parsed(s.url) {
            Ok(u) => s.cookie_url() == Some(u),
            Err(_) => s.cookie_url() is None,
        },
{
}

} // verus!
