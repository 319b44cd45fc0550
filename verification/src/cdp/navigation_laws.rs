//! What holds of every navigation whose requests its client decides about.

use vstd::prelude::*;
use vstd::string::*;

use crate::cdp::dispatch::{self, ContextView};
use crate::cdp::dispatch_laws;
use crate::cdp::navigation::{self, ArrivalView, NavigationView, NetworkView, WaitUntil};
use crate::cdp::types::{self, EventView, RequestView};
use crate::js::fetch;
use crate::json::{self, JsonView};
use crate::text;

verus! {

/// How some names are spelled: enough to tell them apart.
spec fn member_names_differ_spelled() -> bool {
    &&& "method"@.len() == 6
    &&& "params"@.len() == 6
    &&& "sessionId"@.len() == 9
    &&& "requestId"@.len() == 9
    &&& "loaderId"@.len() == 8
    &&& "documentURL"@.len() == 11
    &&& "request"@.len() == 7
    &&& "timestamp"@.len() == 9
    &&& "wallTime"@.len() == 8
    &&& "initiator"@.len() == 9
    &&& "type"@.len() == 4
    &&& "frameId"@.len() == 7
    &&& "resourceType"@.len() == 12
    &&& "networkId"@.len() == 9
    &&& "responseErrorReason"@.len() == 19
    &&& "responseStatusCode"@.len() == 18
    &&& "responseHeaders"@.len() == 15
    &&& "url"@.len() == 3
    &&& "headers"@.len() == 7
    &&& "initialPriority"@.len() == 15
    &&& "referrerPolicy"@.len() == 14
    &&& "name"@.len() == 4
    &&& "frame"@.len() == 5
    &&& "id"@.len() == 2
    &&& "domainAndRegistry"@.len() == 17
    &&& "securityOrigin"@.len() == 14
    &&& "mimeType"@.len() == 8
    &&& "adFrameStatus"@.len() == 13
    &&& "adFrameType"@.len() == 11
    &&& "context"@.len() == 7
    &&& "origin"@.len() == 6
    &&& "uniqueId"@.len() == 8
    &&& "auxData"@.len() == 7
    &&& "isDefault"@.len() == 9
    &&& "response"@.len() == 8
    &&& "status"@.len() == 6
    &&& "statusText"@.len() == 10
    &&& "encodedDataLength"@.len() == 17
    &&& "waitUntil"@.len() == 9
    &&& "method"@[0] == 'm'
    &&& "params"@[0] == 'p'
    &&& "origin"@[0] == 'o'
    &&& "status"@[0] == 's'
    &&& "sessionId"@[0] == 's'
    &&& "requestId"@[0] == 'r'
    &&& "timestamp"@[0] == 't'
    &&& "initiator"@[0] == 'i'
    &&& "networkId"@[0] == 'n'
    &&& "isDefault"@[0] == 'i'
    &&& "waitUntil"@[0] == 'w'
    &&& "loaderId"@[0] == 'l'
    &&& "wallTime"@[0] == 'w'
    &&& "mimeType"@[0] == 'm'
    &&& "uniqueId"@[0] == 'u'
    &&& "response"@[0] == 'r'
    &&& "documentURL"@[0] == 'd'
    &&& "adFrameType"@[0] == 'a'
    &&& "request"@[0] == 'r'
    &&& "frameId"@[0] == 'f'
    &&& "headers"@[0] == 'h'
    &&& "context"@[0] == 'c'
    &&& "auxData"@[0] == 'a'
    &&& "initiator"@[1] == 'n'
    &&& "isDefault"@[1] == 's'
    &&& "type"@[0] == 't'
    &&& "name"@[0] == 'n'
    &&& "responseHeaders"@[0] == 'r'
    &&& "initialPriority"@[0] == 'i'
    &&& "referrerPolicy"@[0] == 'r'
    &&& "securityOrigin"@[0] == 's'
    &&& "domainAndRegistry"@[0] == 'd'
    &&& "encodedDataLength"@[0] == 'e'
}

#[verifier::spinoff_prover]
proof fn member_names_differ()
    ensures
        member_names_differ_spelled(),
{
    reveal_strlit("method");
    reveal_strlit("params");
    reveal_strlit("sessionId");
    reveal_strlit("requestId");
    reveal_strlit("loaderId");
    reveal_strlit("documentURL");
    reveal_strlit("request");
    reveal_strlit("timestamp");
    reveal_strlit("wallTime");
    reveal_strlit("initiator");
    reveal_strlit("type");
    reveal_strlit("frameId");
    reveal_strlit("resourceType");
    reveal_strlit("networkId");
    reveal_strlit("responseErrorReason");
    reveal_strlit("responseStatusCode");
    reveal_strlit("responseHeaders");
    reveal_strlit("url");
    reveal_strlit("headers");
    reveal_strlit("initialPriority");
    reveal_strlit("referrerPolicy");
    reveal_strlit("name");
    reveal_strlit("frame");
    reveal_strlit("id");
    reveal_strlit("domainAndRegistry");
    reveal_strlit("securityOrigin");
    reveal_strlit("mimeType");
    reveal_strlit("adFrameStatus");
    reveal_strlit("adFrameType");
    reveal_strlit("context");
    reveal_strlit("origin");
    reveal_strlit("uniqueId");
    reveal_strlit("auxData");
    reveal_strlit("isDefault");
    reveal_strlit("response");
    reveal_strlit("status");
    reveal_strlit("statusText");
    reveal_strlit("encodedDataLength");
    reveal_strlit("waitUntil");
}

/// That the network was silent is stricter than that it was nearly so, that stricter than that
/// the page has loaded, and that stricter than that its document was read.
pub proof fn conditions_are_ordered(a: WaitUntil, b: WaitUntil)
    ensures
        navigation::strictness(WaitUntil::DomContentLoaded) < navigation::strictness(
            WaitUntil::Load,
        ),
        navigation::strictness(WaitUntil::Load) < navigation::strictness(WaitUntil::NetworkIdle2),
        navigation::strictness(WaitUntil::NetworkIdle2) < navigation::strictness(
            WaitUntil::NetworkIdle0,
        ),
        navigation::strictness(a) == navigation::strictness(b) ==> a == b,
{
}

/// The conditions that a client names are the one text, or the texts in the list, in their order,
/// that stand under `waitUntil`; anything else names none.
pub proof fn conditions_are_named(p: JsonView, s: Seq<char>, v: Seq<JsonView>, last: JsonView)
    ensures
        p.get("waitUntil"@) == Some(JsonView::Str(s)) ==> navigation::wait_names_in(p) == seq![s],
        p.get("waitUntil"@) == Some(JsonView::Array(v)) ==> navigation::wait_names_in(p)
            == navigation::strings_in(v),
        p.get("waitUntil"@) is None ==> navigation::wait_names_in(p).len() == 0,
        navigation::strings_in(Seq::empty()).len() == 0,
        navigation::strings_in(v.push(JsonView::Str(s))) == navigation::strings_in(v).push(s),
        !(last is Str) ==> navigation::strings_in(v.push(last)) == navigation::strings_in(v),
{
    assert(v.push(JsonView::Str(s)).drop_last() =~= v);
    assert(v.push(last).drop_last() =~= v);
}

/// A navigation is that of the page that the session is for, to the URL that is asked for, until
/// the conditions that are named hold, with the scripts that are to run first. The page is taken
/// out from among the others, which are put to sleep.
pub proof fn navigations_start(q: RequestView, c: ContextView, loader: Seq<char>, i: int)
    ensures
        c.session_page(q.session_id) is None ==> q.navigation(c, loader) is None,
        c.session_page(q.session_id) == Some(i) ==> {
            &&& q.navigation(c, loader) matches Some((after, n))
            &&& n.id == q.id && n.session_id == q.session_id && n.page == c.pages[i]
            &&& n.loader_id == loader && n.asks == c.has_intercept_tx
            &&& n.wait_names == navigation::wait_names_in(q.params)
            &&& match q.params.get("url"@) {
                Some(JsonView::Str(u)) => n.url == u,
                _ => n.url.len() == 0,
            }
            &&& n.preload_scripts == dispatch::sources(c.preload_scripts)
            &&& n.suspended == dispatch::live_names(c.pages.remove(i))
            &&& after.pages == dispatch::all_asleep(c.pages.remove(i))
            &&& after == (ContextView { pages: after.pages, ..c })
        },
{
    reveal_strlit("");
}

/// Whether a value tells of a request of a page.
pub open spec fn tells_request(v: JsonView, q: fetch::RequestView) -> bool {
    &&& v.get("url"@) == Some(JsonView::Str(q.url))
    &&& v.get("method"@) == Some(JsonView::Str(q.method))
    &&& v.get("headers"@) == Some(fetch::headers_json(q.headers))
    &&& v.get("initialPriority"@) == Some(JsonView::Str("High"@))
    &&& v.get("referrerPolicy"@) == Some(JsonView::Str("strict-origin-when-cross-origin"@))
}

proof fn requests_are_told(q: fetch::RequestView)
    ensures
        tells_request(navigation::request_json(q), q),
{
    member_names_differ();
    json::object_is_keyed();
    let v0 = JsonView::object();
    json::put_sets(v0, "url"@, JsonView::Str(q.url));
    let v1 = v0.put("url"@, JsonView::Str(q.url));
    json::put_sets(v1, "method"@, JsonView::Str(q.method));
    let v2 = v1.put("method"@, JsonView::Str(q.method));
    json::put_sets(v2, "headers"@, fetch::headers_json(q.headers));
    let v3 = v2.put("headers"@, fetch::headers_json(q.headers));
    json::put_sets(v3, "initialPriority"@, JsonView::Str("High"@));
    let v4 = v3.put("initialPriority"@, JsonView::Str("High"@));
    json::put_sets(v4, "referrerPolicy"@, JsonView::Str("strict-origin-when-cross-origin"@));
}

/// Whether a value is an event of a navigation, under a name and with parameters, that names the
/// session, or that there is none.
pub open spec fn is_raw_event(
    j: JsonView,
    n: NavigationView,
    method: Seq<char>,
    params: JsonView,
) -> bool {
    &&& j.get("method"@) == Some(JsonView::Str(method))
    &&& j.get("params"@) == Some(params)
    &&& match n.session_id {
        Some(s) => j.get("sessionId"@) == Some(JsonView::Str(s)),
        None => j.get("sessionId"@) == Some(JsonView::Null),
    }
}

proof fn raw_events_hold(n: NavigationView, method: Seq<char>, params: JsonView)
    ensures
        is_raw_event(n.raw_event(method, params), n, method, params),
{
    member_names_differ();
    json::object_is_keyed();
    let v0 = JsonView::object();
    json::put_sets(v0, "method"@, JsonView::Str(method));
    let v1 = v0.put("method"@, JsonView::Str(method));
    json::put_sets(v1, "params"@, params);
    let v2 = v1.put("params"@, params);
    json::put_sets(v2, "sessionId"@, json::opt_str_view(n.session_id));
}

/// The client is told of each request that waits: that it will be sent, with what it is and what
/// the clock says, under the name that it goes by, in the frame of the page.
pub proof fn waiting_requests_are_announced(
    n: NavigationView,
    q: fetch::RequestView,
    timestamp: JsonView,
    wall_time: JsonView,
)
    ensures
        exists|p: JsonView|
            #[trigger] is_raw_event(
                n.will_be_sent(q, timestamp, wall_time),
                n,
                "Network.requestWillBeSent"@,
                p,
            ) && will_be_sent_members(p, n, q, timestamp, wall_time),
{
    member_names_differ();
    json::object_is_keyed();
    requests_are_told(q);
    let script = JsonView::object().put("type"@, JsonView::Str("script"@));
    json::put_sets(JsonView::object(), "type"@, JsonView::Str("script"@));
    let v0 = JsonView::object();
    json::put_sets(v0, "requestId"@, JsonView::Str(q.request_id));
    let v1 = v0.put("requestId"@, JsonView::Str(q.request_id));
    json::put_sets(v1, "loaderId"@, JsonView::Str(""@));
    let v2 = v1.put("loaderId"@, JsonView::Str(""@));
    json::put_sets(v2, "documentURL"@, JsonView::Str(""@));
    let v3 = v2.put("documentURL"@, JsonView::Str(""@));
    json::put_sets(v3, "request"@, navigation::request_json(q));
    let v4 = v3.put("request"@, navigation::request_json(q));
    json::put_sets(v4, "timestamp"@, timestamp);
    let v5 = v4.put("timestamp"@, timestamp);
    json::put_sets(v5, "wallTime"@, wall_time);
    let v6 = v5.put("wallTime"@, wall_time);
    json::put_sets(v6, "initiator"@, script);
    let v7 = v6.put("initiator"@, script);
    json::put_sets(v7, "type"@, JsonView::Str(q.resource_type));
    let v8 = v7.put("type"@, JsonView::Str(q.resource_type));
    json::put_sets(v8, "frameId"@, JsonView::Str(n.page.frame_id));
    let p = v8.put("frameId"@, JsonView::Str(n.page.frame_id));
    raw_events_hold(n, "Network.requestWillBeSent"@, p);
    assert(will_be_sent_members(p, n, q, timestamp, wall_time));
    assert(is_raw_event(
        n.will_be_sent(q, timestamp, wall_time),
        n,
        "Network.requestWillBeSent"@,
        p,
    ));
}

/// What is told of a request that will be sent.
pub open spec fn will_be_sent_members(
    p: JsonView,
    n: NavigationView,
    q: fetch::RequestView,
    timestamp: JsonView,
    wall_time: JsonView,
) -> bool {
    &&& p.get("requestId"@) == Some(JsonView::Str(q.request_id))
    &&& p.get("loaderId"@) == Some(JsonView::Str(""@))
    &&& p.get("documentURL"@) == Some(JsonView::Str(""@))
    &&& p.get("timestamp"@) == Some(timestamp)
    &&& p.get("wallTime"@) == Some(wall_time)
    &&& p.get("type"@) == Some(JsonView::Str(q.resource_type))
    &&& p.get("frameId"@) == Some(JsonView::Str(n.page.frame_id))
    &&& p.get("request"@) is Some && tells_request(p.get("request"@)->0, q)
    &&& p.get("initiator"@) is Some && p.get("initiator"@)->0.get("type"@) == Some(
        JsonView::Str("script"@),
    )
}

/// The client is told that a request waits for its decision: what it is, under the name that it
/// goes by, in the frame of the page, and nothing of a response.
pub proof fn waiting_requests_are_told(n: NavigationView, q: fetch::RequestView)
    ensures
        exists|p: JsonView|
            #[trigger] is_raw_event(n.request_paused(q), n, "Fetch.requestPaused"@, p)
                && paused_members(p, n, q),
{
    member_names_differ();
    json::object_is_keyed();
    requests_are_told(q);
    let v0 = JsonView::object();
    json::put_sets(v0, "requestId"@, JsonView::Str(q.request_id));
    let v1 = v0.put("requestId"@, JsonView::Str(q.request_id));
    json::put_sets(v1, "request"@, navigation::request_json(q));
    let v2 = v1.put("request"@, navigation::request_json(q));
    json::put_sets(v2, "frameId"@, JsonView::Str(n.page.frame_id));
    let v3 = v2.put("frameId"@, JsonView::Str(n.page.frame_id));
    json::put_sets(v3, "resourceType"@, JsonView::Str(q.resource_type));
    let v4 = v3.put("resourceType"@, JsonView::Str(q.resource_type));
    json::put_sets(v4, "networkId"@, JsonView::Str(q.request_id));
    let v5 = v4.put("networkId"@, JsonView::Str(q.request_id));
    json::put_sets(v5, "responseErrorReason"@, JsonView::Null);
    let v6 = v5.put("responseErrorReason"@, JsonView::Null);
    json::put_sets(v6, "responseStatusCode"@, JsonView::Null);
    let v7 = v6.put("responseStatusCode"@, JsonView::Null);
    json::put_sets(v7, "responseHeaders"@, JsonView::Null);
    let p = v7.put("responseHeaders"@, JsonView::Null);
    raw_events_hold(n, "Fetch.requestPaused"@, p);
    assert(paused_members(p, n, q));
    assert(is_raw_event(n.request_paused(q), n, "Fetch.requestPaused"@, p));
}

/// What is told of a request that waits.
pub open spec fn paused_members(p: JsonView, n: NavigationView, q: fetch::RequestView) -> bool {
    &&& p.get("requestId"@) == Some(JsonView::Str(q.request_id))
    &&& p.get("frameId"@) == Some(JsonView::Str(n.page.frame_id))
    &&& p.get("resourceType"@) == Some(JsonView::Str(q.resource_type))
    &&& p.get("networkId"@) == Some(JsonView::Str(q.request_id))
    &&& p.get("responseErrorReason"@) == Some(JsonView::Null)
    &&& p.get("responseStatusCode"@) == Some(JsonView::Null)
    &&& p.get("responseHeaders"@) == Some(JsonView::Null)
    &&& p.get("request"@) is Some && tells_request(p.get("request"@)->0, q)
}

/// A request that waits is among those that wait, once, and those that waited still do.
pub proof fn waiting_requests_are_kept(paused: Seq<Seq<char>>, id: Seq<char>)
    ensures
        text::texts_with(paused, id).contains(id),
        paused.contains(id) ==> text::texts_with(paused, id) == paused,
        !paused.contains(id) ==> text::texts_with(paused, id) == paused.push(id),
{
    if !paused.contains(id) {
        assert(paused.push(id)[paused.len() as int] == id);
    }
}

/// Whether a text is an event of a navigation, under a name and with parameters of which `f`
/// holds.
pub open spec fn is_event(
    t: Seq<char>,
    n: NavigationView,
    method: Seq<char>,
    f: spec_fn(JsonView) -> bool,
) -> bool {
    exists|j: JsonView|
        t == #[trigger] json::json_text(j) && j.get("method"@) == Some(JsonView::Str(method))
            && j.get("sessionId"@) == (match n.session_id {
            Some(s) => Some(JsonView::Str(s)),
            None => None,
        }) && j.get("params"@) is Some && f(j.get("params"@)->0)
}

proof fn events_hold(
    n: NavigationView,
    method: Seq<char>,
    params: JsonView,
    f: spec_fn(JsonView) -> bool,
)
    requires
        f(params),
    ensures
        is_event(n.event(method, params), n, method, f),
{
    let e = EventView { method, params, session_id: n.session_id };
    dispatch_laws::events_are_told(e);
    assert(n.event(method, params) == json::json_text(e.to_json()));
}

/// Whether a text is the event that the frame of a navigation reached a stage.
pub open spec fn is_stage(
    t: Seq<char>,
    n: NavigationView,
    name: Seq<char>,
    timestamp: JsonView,
) -> bool {
    is_event(
        t,
        n,
        "Page.lifecycleEvent"@,
        |p: JsonView|
            {
                &&& p.get("frameId"@) == Some(JsonView::Str(n.page.frame_id))
                &&& p.get("loaderId"@) == Some(JsonView::Str(n.loader_id))
                &&& p.get("name"@) == Some(JsonView::Str(name))
                &&& p.get("timestamp"@) == Some(timestamp)
            },
    )
}

proof fn stages_hold(n: NavigationView, name: Seq<char>, timestamp: JsonView)
    ensures
        is_stage(n.lifecycle(name, timestamp), n, name, timestamp),
{
    member_names_differ();
    json::object_is_keyed();
    let v0 = JsonView::object();
    json::put_sets(v0, "frameId"@, JsonView::Str(n.page.frame_id));
    let v1 = v0.put("frameId"@, JsonView::Str(n.page.frame_id));
    json::put_sets(v1, "loaderId"@, JsonView::Str(n.loader_id));
    let v2 = v1.put("loaderId"@, JsonView::Str(n.loader_id));
    json::put_sets(v2, "name"@, JsonView::Str(name));
    let v3 = v2.put("name"@, JsonView::Str(name));
    json::put_sets(v3, "timestamp"@, timestamp);
    let p = v3.put("timestamp"@, timestamp);
    events_hold(
        n,
        "Page.lifecycleEvent"@,
        p,
        |p: JsonView|
            {
                &&& p.get("frameId"@) == Some(JsonView::Str(n.page.frame_id))
                &&& p.get("loaderId"@) == Some(JsonView::Str(n.loader_id))
                &&& p.get("name"@) == Some(JsonView::Str(name))
                &&& p.get("timestamp"@) == Some(timestamp)
            },
    );
}

/// The answer to a navigation tells the frame and what loads it; a navigation that failed is
/// answered with error -32000 and the reason.
pub proof fn navigations_are_answered(n: NavigationView, e: Seq<char>)
    ensures
        ({
            let r = n.response(Ok(()));
            &&& r.id == n.id && r.session_id == n.session_id && r.error is None
            &&& r.result matches Some(v)
            &&& v.get("frameId"@) == Some(JsonView::Str(n.page.frame_id))
            &&& v.get("loaderId"@) == Some(JsonView::Str(n.loader_id))
        }),
        ({
            let r = n.response(Err(e));
            &&& r.id == n.id && r.session_id == n.session_id
            &&& dispatch_laws::fails_with(r, -32000, e)
        }),
{
    member_names_differ();
    json::object_is_keyed();
    let a = JsonView::object();
    json::put_sets(a, "frameId"@, JsonView::Str(n.page.frame_id));
    json::put_sets(
        a.put("frameId"@, JsonView::Str(n.page.frame_id)),
        "loaderId"@,
        JsonView::Str(n.loader_id),
    );
}

/// Whether a value tells of the frame of a navigation after it got to a URL.
pub open spec fn tells_frame(p: JsonView, n: NavigationView, url: Seq<char>) -> bool {
    &&& p.get("type"@) == Some(JsonView::Str("Navigation"@))
    &&& p.get("frame"@) matches Some(v)
    &&& v.get("id"@) == Some(JsonView::Str(n.page.frame_id))
    &&& v.get("loaderId"@) == Some(JsonView::Str(n.loader_id))
    &&& v.get("url"@) == Some(JsonView::Str(url))
    &&& v.get("domainAndRegistry"@) == Some(JsonView::Str(""@))
    &&& v.get("securityOrigin"@) == Some(JsonView::Str(url))
    &&& v.get("mimeType"@) == Some(JsonView::Str("text/html"@))
    &&& v.get("adFrameStatus"@) is Some && v.get("adFrameStatus"@)->0.get("adFrameType"@)
        == Some(JsonView::Str("none"@))
}

proof fn frames_are_told(n: NavigationView, url: Seq<char>)
    ensures
        tells_frame(n.frame(url), n, url),
{
    member_names_differ();
    json::object_is_keyed();
    let ad = JsonView::object().put("adFrameType"@, JsonView::Str("none"@));
    json::put_sets(JsonView::object(), "adFrameType"@, JsonView::Str("none"@));
    let v0 = JsonView::object();
    json::put_sets(v0, "id"@, JsonView::Str(n.page.frame_id));
    let v1 = v0.put("id"@, JsonView::Str(n.page.frame_id));
    json::put_sets(v1, "loaderId"@, JsonView::Str(n.loader_id));
    let v2 = v1.put("loaderId"@, JsonView::Str(n.loader_id));
    json::put_sets(v2, "url"@, JsonView::Str(url));
    let v3 = v2.put("url"@, JsonView::Str(url));
    json::put_sets(v3, "domainAndRegistry"@, JsonView::Str(""@));
    let v4 = v3.put("domainAndRegistry"@, JsonView::Str(""@));
    json::put_sets(v4, "securityOrigin"@, JsonView::Str(url));
    let v5 = v4.put("securityOrigin"@, JsonView::Str(url));
    json::put_sets(v5, "mimeType"@, JsonView::Str("text/html"@));
    let v6 = v5.put("mimeType"@, JsonView::Str("text/html"@));
    json::put_sets(v6, "adFrameStatus"@, ad);
    let frame = v6.put("adFrameStatus"@, ad);
    json::put_sets(JsonView::object(), "frame"@, frame);
    json::put_sets(
        JsonView::object().put("frame"@, frame),
        "type"@,
        JsonView::Str("Navigation"@),
    );
}

/// Whether a value tells of the context that scripts run in after a navigation got to a URL.
pub open spec fn tells_context(p: JsonView, n: NavigationView, url: Seq<char>) -> bool {
    &&& p.get("context"@) matches Some(v)
    &&& v.get("id"@) == Some(JsonView::UInt(2))
    &&& v.get("origin"@) == Some(JsonView::Str(url))
    &&& v.get("name"@) == Some(JsonView::Str(""@))
    &&& v.get("uniqueId"@) == Some(JsonView::Str("ctx-nav-"@ + n.page.id))
    &&& v.get("auxData"@) matches Some(w)
    &&& w.get("isDefault"@) == Some(JsonView::Bool(true))
    &&& w.get("type"@) == Some(JsonView::Str("default"@))
    &&& w.get("frameId"@) == Some(JsonView::Str(n.page.frame_id))
}

proof fn contexts_are_told(n: NavigationView, url: Seq<char>)
    ensures
        tells_context(n.script_context(url), n, url),
{
    member_names_differ();
    json::object_is_keyed();
    let w0 = JsonView::object();
    json::put_sets(w0, "isDefault"@, JsonView::Bool(true));
    let w1 = w0.put("isDefault"@, JsonView::Bool(true));
    json::put_sets(w1, "type"@, JsonView::Str("default"@));
    let w2 = w1.put("type"@, JsonView::Str("default"@));
    json::put_sets(w2, "frameId"@, JsonView::Str(n.page.frame_id));
    let aux = w2.put("frameId"@, JsonView::Str(n.page.frame_id));
    let v0 = JsonView::object();
    json::put_sets(v0, "id"@, JsonView::UInt(2));
    let v1 = v0.put("id"@, JsonView::UInt(2));
    json::put_sets(v1, "origin"@, JsonView::Str(url));
    let v2 = v1.put("origin"@, JsonView::Str(url));
    json::put_sets(v2, "name"@, JsonView::Str(""@));
    let v3 = v2.put("name"@, JsonView::Str(""@));
    json::put_sets(v3, "uniqueId"@, JsonView::Str("ctx-nav-"@ + n.page.id));
    let v4 = v3.put("uniqueId"@, JsonView::Str("ctx-nav-"@ + n.page.id));
    json::put_sets(v4, "auxData"@, aux);
    let context = v4.put("auxData"@, aux);
    json::put_sets(JsonView::object(), "context"@, context);
}

/// Whether a value tells of a request that was sent while a page loaded.
pub open spec fn tells_sent(
    p: JsonView,
    n: NavigationView,
    url: Seq<char>,
    e: NetworkView,
) -> bool {
    &&& p.get("requestId"@) == Some(JsonView::Str(e.request_id))
    &&& p.get("loaderId"@) == Some(JsonView::Str(n.loader_id))
    &&& p.get("documentURL"@) == Some(JsonView::Str(url))
    &&& p.get("timestamp"@) == Some(e.timestamp)
    &&& p.get("wallTime"@) == Some(e.timestamp)
    &&& p.get("type"@) == Some(JsonView::Str(e.resource_type))
    &&& p.get("frameId"@) == Some(JsonView::Str(n.page.frame_id))
    &&& p.get("initiator"@) is Some && p.get("initiator"@)->0.get("type"@) == Some(
        JsonView::Str("other"@),
    )
    &&& p.get("request"@) matches Some(v)
    &&& v.get("url"@) == Some(JsonView::Str(e.url))
    &&& v.get("method"@) == Some(JsonView::Str(e.method))
    &&& v.get("headers"@) == Some(fetch::headers_json(e.headers))
}

proof fn sent_requests_hold(n: NavigationView, url: Seq<char>, e: NetworkView)
    ensures
        tells_sent(n.sent_params(url, e), n, url, e),
{
    member_names_differ();
    json::object_is_keyed();
    let other = JsonView::object().put("type"@, JsonView::Str("other"@));
    json::put_sets(JsonView::object(), "type"@, JsonView::Str("other"@));
    let w0 = JsonView::object();
    json::put_sets(w0, "url"@, JsonView::Str(e.url));
    let w1 = w0.put("url"@, JsonView::Str(e.url));
    json::put_sets(w1, "method"@, JsonView::Str(e.method));
    let w2 = w1.put("method"@, JsonView::Str(e.method));
    json::put_sets(w2, "headers"@, fetch::headers_json(e.headers));
    let request = w2.put("headers"@, fetch::headers_json(e.headers));
    let v0 = JsonView::object();
    json::put_sets(v0, "requestId"@, JsonView::Str(e.request_id));
    let v1 = v0.put("requestId"@, JsonView::Str(e.request_id));
    json::put_sets(v1, "loaderId"@, JsonView::Str(n.loader_id));
    let v2 = v1.put("loaderId"@, JsonView::Str(n.loader_id));
    json::put_sets(v2, "documentURL"@, JsonView::Str(url));
    let v3 = v2.put("documentURL"@, JsonView::Str(url));
    json::put_sets(v3, "request"@, request);
    let v4 = v3.put("request"@, request);
    json::put_sets(v4, "timestamp"@, e.timestamp);
    let v5 = v4.put("timestamp"@, e.timestamp);
    json::put_sets(v5, "wallTime"@, e.timestamp);
    let v6 = v5.put("wallTime"@, e.timestamp);
    json::put_sets(v6, "initiator"@, other);
    let v7 = v6.put("initiator"@, other);
    json::put_sets(v7, "type"@, JsonView::Str(e.resource_type));
    let v8 = v7.put("type"@, JsonView::Str(e.resource_type));
    json::put_sets(v8, "frameId"@, JsonView::Str(n.page.frame_id));
}

/// Whether a value tells of a response that came while a page loaded.
pub open spec fn tells_received(p: JsonView, n: NavigationView, e: NetworkView) -> bool {
    &&& p.get("requestId"@) == Some(JsonView::Str(e.request_id))
    &&& p.get("loaderId"@) == Some(JsonView::Str(n.loader_id))
    &&& p.get("timestamp"@) == Some(e.timestamp)
    &&& p.get("type"@) == Some(JsonView::Str(e.resource_type))
    &&& p.get("frameId"@) == Some(JsonView::Str(n.page.frame_id))
    &&& p.get("response"@) matches Some(v)
    &&& v.get("url"@) == Some(JsonView::Str(e.url))
    &&& v.get("status"@) == Some(JsonView::UInt(e.status as u64))
    &&& v.get("statusText"@) == Some(JsonView::Str(""@))
    &&& v.get("headers"@) == Some(fetch::headers_json(e.response_headers))
    &&& v.get("mimeType"@) == Some(JsonView::Str(""@))
}

proof fn received_responses_hold(n: NavigationView, e: NetworkView)
    ensures
        tells_received(n.received_params(e), n, e),
{
    member_names_differ();
    json::object_is_keyed();
    let w0 = JsonView::object();
    json::put_sets(w0, "url"@, JsonView::Str(e.url));
    let w1 = w0.put("url"@, JsonView::Str(e.url));
    json::put_sets(w1, "status"@, JsonView::UInt(e.status as u64));
    let w2 = w1.put("status"@, JsonView::UInt(e.status as u64));
    json::put_sets(w2, "statusText"@, JsonView::Str(""@));
    let w3 = w2.put("statusText"@, JsonView::Str(""@));
    json::put_sets(w3, "headers"@, fetch::headers_json(e.response_headers));
    let w4 = w3.put("headers"@, fetch::headers_json(e.response_headers));
    json::put_sets(w4, "mimeType"@, JsonView::Str(""@));
    let response = w4.put("mimeType"@, JsonView::Str(""@));
    let v0 = JsonView::object();
    json::put_sets(v0, "requestId"@, JsonView::Str(e.request_id));
    let v1 = v0.put("requestId"@, JsonView::Str(e.request_id));
    json::put_sets(v1, "loaderId"@, JsonView::Str(n.loader_id));
    let v2 = v1.put("loaderId"@, JsonView::Str(n.loader_id));
    json::put_sets(v2, "timestamp"@, e.timestamp);
    let v3 = v2.put("timestamp"@, e.timestamp);
    json::put_sets(v3, "type"@, JsonView::Str(e.resource_type));
    let v4 = v3.put("type"@, JsonView::Str(e.resource_type));
    json::put_sets(v4, "response"@, response);
    let v5 = v4.put("response"@, response);
    json::put_sets(v5, "frameId"@, JsonView::Str(n.page.frame_id));
}

/// Whether a value tells that a response was read.
pub open spec fn tells_finished(p: JsonView, e: NetworkView) -> bool {
    &&& p.get("requestId"@) == Some(JsonView::Str(e.request_id))
    &&& p.get("timestamp"@) == Some(e.timestamp)
    &&& p.get("encodedDataLength"@) == Some(JsonView::UInt(e.body_size))
}

proof fn finished_responses_hold(n: NavigationView, e: NetworkView)
    ensures
        tells_finished(n.finished_params(e), e),
{
    member_names_differ();
    json::object_is_keyed();
    let v0 = JsonView::object();
    json::put_sets(v0, "requestId"@, JsonView::Str(e.request_id));
    let v1 = v0.put("requestId"@, JsonView::Str(e.request_id));
    json::put_sets(v1, "timestamp"@, e.timestamp);
    let v2 = v1.put("timestamp"@, e.timestamp);
    json::put_sets(v2, "encodedDataLength"@, JsonView::UInt(e.body_size));
}

/// Whether three texts tell of one request: that it was sent, that its response came, and that
/// the response was read.
pub open spec fn tells_exchange(
    sent: Seq<char>,
    received: Seq<char>,
    finished: Seq<char>,
    n: NavigationView,
    url: Seq<char>,
    e: NetworkView,
) -> bool {
    &&& is_event(
        sent,
        n,
        "Network.requestWillBeSent"@,
        |p: JsonView| tells_sent(p, n, url, e),
    )
    &&& is_event(
        received,
        n,
        "Network.responseReceived"@,
        |p: JsonView| tells_received(p, n, e),
    )
    &&& is_event(finished, n, "Network.loadingFinished"@, |p: JsonView| tells_finished(p, e))
}

proof fn exchanges_hold(
    n: NavigationView,
    before: Seq<Seq<char>>,
    url: Seq<char>,
    v: Seq<NetworkView>,
)
    ensures
        ({
            let r = n.with_network(before, url, v);
            let k = before.len() as int;
            &&& r.len() == k + 3 * v.len()
            &&& forall|i: int| 0 <= i < k ==> #[trigger] r[i] == before[i]
            &&& forall|i: int|
                0 <= i < v.len() ==> tells_exchange(
                    r[k + 3 * i],
                    r[k + 3 * i + 1],
                    r[k + 3 * i + 2],
                    n,
                    url,
                    #[trigger] v[i],
                )
        }),
    decreases v.len(),
{
    if v.len() > 0 {
        let w = v.drop_last();
        let e = v.last();
        exchanges_hold(n, before, url, w);
        sent_requests_hold(n, url, e);
        received_responses_hold(n, e);
        finished_responses_hold(n, e);
        events_hold(
            n,
            "Network.requestWillBeSent"@,
            n.sent_params(url, e),
            |p: JsonView| tells_sent(p, n, url, e),
        );
        events_hold(
            n,
            "Network.responseReceived"@,
            n.received_params(e),
            |p: JsonView| tells_received(p, n, e),
        );
        events_hold(
            n,
            "Network.loadingFinished"@,
            n.finished_params(e),
            |p: JsonView| tells_finished(p, e),
        );
        let r = n.with_network(before, url, v);
        let s = n.with_network(before, url, w);
        let k = before.len() as int;
        assert forall|i: int| 0 <= i < v.len() implies tells_exchange(
            r[k + 3 * i],
            r[k + 3 * i + 1],
            r[k + 3 * i + 2],
            n,
            url,
            #[trigger] v[i],
        ) by {
            if i < w.len() {
                assert(w[i] == v[i]);
                assert(r[k + 3 * i] == s[k + 3 * i]);
                assert(r[k + 3 * i + 1] == s[k + 3 * i + 1]);
                assert(r[k + 3 * i + 2] == s[k + 3 * i + 2]);
            }
        }
    }
}

/// At the end of a navigation its client is told, in this order: the answer; that the frame starts
/// over, that the script contexts are gone, where the frame is now, which context its scripts have,
/// and that the document is there; each request that was sent, with its response; that the document
/// was read and that it has loaded; where the network fell silent, that it did; and that loading is
/// over.
#[verifier::spinoff_prover]
#[verifier::rlimit(40)]
pub proof fn clients_are_told_of_arrival(n: NavigationView, a: ArrivalView)
    ensures
        ({
            let r = n.farewell(a);
            let k = 6 + 3 * a.network.len() as int;
            let end = if a.network_idle {
                k + 5
            } else {
                k + 4
            };
            let clock = |p: JsonView| p.get("timestamp"@) == Some(a.timestamp);
            &&& r.len() == end + 1
            &&& r[0] == types::response_text(n.response(a.outcome))
            &&& is_stage(r[1], n, "init"@, a.timestamp)
            &&& is_event(
                r[2],
                n,
                "Runtime.executionContextsCleared"@,
                |p: JsonView| p == JsonView::Object(Seq::empty()),
            )
            &&& is_event(
                r[3],
                n,
                "Page.frameNavigated"@,
                |p: JsonView| tells_frame(p, n, a.page_url),
            )
            &&& is_event(
                r[4],
                n,
                "Runtime.executionContextCreated"@,
                |p: JsonView| tells_context(p, n, a.page_url),
            )
            &&& is_stage(r[5], n, "commit"@, a.timestamp)
            &&& forall|i: int|
                0 <= i < a.network.len() ==> tells_exchange(
                    r[6 + 3 * i],
                    r[7 + 3 * i],
                    r[8 + 3 * i],
                    n,
                    a.page_url,
                    #[trigger] a.network[i],
                )
            &&& is_stage(r[k], n, "DOMContentLoaded"@, a.timestamp)
            &&& is_event(r[k + 1], n, "Page.domContentEventFired"@, clock)
            &&& is_stage(r[k + 2], n, "load"@, a.timestamp)
            &&& is_event(r[k + 3], n, "Page.loadEventFired"@, clock)
            &&& a.network_idle ==> is_stage(r[k + 4], n, "networkIdle"@, a.timestamp)
            &&& is_event(
                r[end],
                n,
                "Page.frameStoppedLoading"@,
                |p: JsonView| p.get("frameId"@) == Some(JsonView::Str(n.page.frame_id)),
            )
        }),
{
    json::object_is_keyed();
    let ts = a.timestamp;
    let object = JsonView::object();
    let timed = object.put("timestamp"@, ts);
    let framed = object.put("frameId"@, JsonView::Str(n.page.frame_id));
    json::put_sets(object, "timestamp"@, ts);
    json::put_sets(object, "frameId"@, JsonView::Str(n.page.frame_id));
    let clock = |p: JsonView| p.get("timestamp"@) == Some(a.timestamp);
    stages_hold(n, "init"@, ts);
    events_hold(
        n,
        "Runtime.executionContextsCleared"@,
        object,
        |p: JsonView| p == JsonView::Object(Seq::empty()),
    );
    frames_are_told(n, a.page_url);
    events_hold(
        n,
        "Page.frameNavigated"@,
        n.frame(a.page_url),
        |p: JsonView| tells_frame(p, n, a.page_url),
    );
    contexts_are_told(n, a.page_url);
    events_hold(
        n,
        "Runtime.executionContextCreated"@,
        n.script_context(a.page_url),
        |p: JsonView| tells_context(p, n, a.page_url),
    );
    stages_hold(n, "commit"@, ts);
    stages_hold(n, "DOMContentLoaded"@, ts);
    events_hold(n, "Page.domContentEventFired"@, timed, clock);
    stages_hold(n, "load"@, ts);
    events_hold(n, "Page.loadEventFired"@, timed, clock);
    stages_hold(n, "networkIdle"@, ts);
    events_hold(
        n,
        "Page.frameStoppedLoading"@,
        framed,
        |p: JsonView| p.get("frameId"@) == Some(JsonView::Str(n.page.frame_id)),
    );
    let start = Seq::<Seq<char>>::empty().push(types::response_text(n.response(a.outcome))).push(
        n.lifecycle("init"@, ts),
    ).push(n.event("Runtime.executionContextsCleared"@, object)).push(
        n.event("Page.frameNavigated"@, n.frame(a.page_url)),
    ).push(n.event("Runtime.executionContextCreated"@, n.script_context(a.page_url))).push(
        n.lifecycle("commit"@, ts),
    );
    assert(start.len() == 6);
    exchanges_hold(n, start, a.page_url, a.network);
    let m = n.with_network(start, a.page_url, a.network);
    let r = n.farewell(a);
    assert forall|i: int| 0 <= i < m.len() implies r[i] == m[i] by {}
    assert(r[0] == start[0] && r[1] == start[1] && r[2] == start[2]);
    assert(r[3] == start[3] && r[4] == start[4] && r[5] == start[5]);
    assert forall|i: int| 0 <= i < a.network.len() implies tells_exchange(
        r[6 + 3 * i],
        r[7 + 3 * i],
        r[8 + 3 * i],
        n,
        a.page_url,
        #[trigger] a.network[i],
    ) by {
        assert(m[6 + 3 * i] == r[6 + 3 * i]);
        assert(m[6 + 3 * i + 1] == r[7 + 3 * i]);
        assert(m[6 + 3 * i + 2] == r[8 + 3 * i]);
    }
}

} // verus!
