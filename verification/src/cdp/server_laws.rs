//! What holds of every message to the server.

use vstd::prelude::*;
use vstd::string::*;

use crate::assoc;
use crate::base64;
use crate::cdp::dispatch_laws;
use crate::cdp::http::{self, Endpoint};
use crate::cdp::server::{self, ClientActionView, MeanwhileView, MessageView, ProcessorView};
use crate::cdp::types::{self, RequestView, ResponseView};
use crate::js::state::ResolutionView;
use crate::json::{self, JsonView};
use crate::text;
use crate::text_laws;

verus! {

proof fn stands_in(a: Seq<char>, p: Seq<char>, b: Seq<char>)
    ensures
        text::has_text(a + p + b, p),
{
    assert((a + p + b).subrange(a.len() as int, (a.len() + p.len()) as int) =~= p);
    assert(text::occurs_at(a + p + b, p, a.len() as int));
}

/// How some names are spelled: enough to tell them apart.
spec fn decisions_differ_spelled() -> bool {
    &&& "Fetch.continueRequest"@.len() == 21
    &&& "Fetch.fulfillRequest"@.len() == 20
    &&& "Fetch.failRequest"@.len() == 17
}

#[verifier::spinoff_prover]
proof fn decisions_differ()
    ensures
        decisions_differ_spelled(),
{
    reveal_strlit("Fetch.continueRequest");
    reveal_strlit("Fetch.fulfillRequest");
    reveal_strlit("Fetch.failRequest");
}

/// A client may let a request go on as it is, fulfil it with a status, headers and a body that it
/// gives, or fail it with a reason; no other method is a decision. The status is 200 and the
/// reason `Failed` where none is given.
pub proof fn clients_decide(method: Seq<char>, p: JsonView)
    ensures
        server::decision("Fetch.continueRequest"@, p) == Some(
            ResolutionView::Continue { url: None, method: None, headers: None, body: None },
        ),
        ({
            &&& server::decision("Fetch.fulfillRequest"@, p) matches Some(
                ResolutionView::Fulfill { status, headers, body },
            )
            &&& headers == server::response_headers(p)
            &&& match p.get("responseCode"@) {
                Some(JsonView::UInt(n)) => status as int == n as int % 65536,
                _ => status == 200,
            }
        }),
        match p.get("errorReason"@) {
            Some(JsonView::Str(s)) => server::decision("Fetch.failRequest"@, p) == Some(
                ResolutionView::Fail { reason: s },
            ),
            _ => server::decision("Fetch.failRequest"@, p) == Some(
                ResolutionView::Fail { reason: "Failed"@ },
            ),
        },
        method != "Fetch.continueRequest"@ && method != "Fetch.fulfillRequest"@ && method
            != "Fetch.failRequest"@ ==> server::decision(method, p) is None,
{
    decisions_differ();
}

/// The body of a request that is fulfilled is what its text in Base64 stands for, and empty where
/// there is no text.
pub proof fn bodies_are_decoded(p: JsonView, s: Seq<char>)
    ensures
        p.get("body"@) == Some(JsonView::Str(s)) ==> (server::decision("Fetch.fulfillRequest"@, p)
            matches Some(ResolutionView::Fulfill { status, headers, body }) && body
            == text::lossy(base64::decoded(s))),
        !(p.get("body"@) matches Some(JsonView::Str(t))) ==> (server::decision(
            "Fetch.fulfillRequest"@,
            p,
        ) matches Some(ResolutionView::Fulfill { status, headers, body }) && body == text::lossy(
            base64::decoded(Seq::empty()),
        )),
{
    decisions_differ();
    reveal_strlit("");
    assert(""@ =~= Seq::<char>::empty());
}

/// A request that is fulfilled gets the text that the client wrote in Base64 as its body.
pub proof fn bodies_are_given(p: JsonView, t: Seq<char>)
    requires
        p.get("body"@) == Some(
            JsonView::Str(base64::encoded(vstd::utf8::encode_utf8(t))),
        ),
    ensures
        server::decision("Fetch.fulfillRequest"@, p) matches Some(
            ResolutionView::Fulfill { status, headers, body },
        ) && body == t,
{
    decisions_differ();
    base64::text_survives_base64(t);
    base64::decode_undoes_encode(vstd::utf8::encode_utf8(t));
    text::lossy_undoes_encode(t);
}

proof fn header_pairs_distinct(v: Seq<JsonView>)
    ensures
        assoc::distinct(server::header_pairs(v)),
    decreases v.len(),
{
    if v.len() > 0 {
        let rest = v.drop_last();
        header_pairs_distinct(rest);
        match (v.last().get_str("name"@), v.last().get_str("value"@)) {
            (Some(n), Some(x)) => assoc::with_sets(server::header_pairs(rest), n, x, n),
            _ => {},
        }
    }
}

/// The headers that a client gives are those of its list, each with the value that it is given
/// last; what has no name or no value in the list is passed over, and without a list there are
/// none.
pub proof fn headers_are_given(
    p: JsonView,
    v: Seq<JsonView>,
    last: JsonView,
    name: Seq<char>,
    value: Seq<char>,
    other: Seq<char>,
)
    ensures
        !(p.get("responseHeaders"@) matches Some(JsonView::Array(w))) ==> server::response_headers(
            p,
        ).len() == 0,
        p.get("responseHeaders"@) == Some(JsonView::Array(v)) ==> server::response_headers(p)
            == server::header_pairs(v),
        server::header_pairs(Seq::empty()).len() == 0,
        last.get("name"@) == Some(JsonView::Str(name)) && last.get("value"@) == Some(
            JsonView::Str(value),
        ) ==> {
            &&& assoc::lookup(server::header_pairs(v.push(last)), name) == Some(value)
            &&& other != name ==> assoc::lookup(server::header_pairs(v.push(last)), other)
                == assoc::lookup(server::header_pairs(v), other)
        },
        !(last.get("name"@) matches Some(JsonView::Str(s))) || !(last.get("value"@) matches Some(
            JsonView::Str(s),
        )) ==> server::header_pairs(v.push(last)) == server::header_pairs(v),
{
    assert(v.push(last).drop_last() =~= v);
    header_pairs_distinct(v);
    assoc::with_sets(server::header_pairs(v), name, value, name);
    assoc::with_sets(server::header_pairs(v), name, value, other);
}

/// A client's request ends the wait of the request that it names under `requestId`, and of no
/// other; one that waits is decided about as the method says, and the client is then told that it
/// was done.
pub proof fn waits_are_ended(q: RequestView, paused: Seq<Seq<char>>, id: Seq<char>)
    requires
        q.params.get("requestId"@) == Some(JsonView::Str(id)),
    ensures
        q.fetch_request_id() == id,
        !paused.contains(id) ==> q.resolves(paused) is None,
        paused.contains(id) ==> {
            &&& q.resolves(paused) matches Some(r)
            &&& r.request_id == id
            &&& r.resolution == server::decision(q.method, q.params)
            &&& r.resolution is None ==> r.reply is None
            &&& r.resolution is Some ==> r.reply == Some(
                types::response_text(
                    ResponseView {
                        id: q.id,
                        result: Some(JsonView::Object(Seq::empty())),
                        error: None,
                        session_id: q.session_id,
                    },
                ),
            )
        },
        text::texts_without(paused, id) == paused.filter(|s: Seq<char>| s != id),
{
    text_laws::others_are_kept(paused, id);
}

/// While a navigation waits, a message that names one of the three decisions is taken as one. Any
/// other waits behind those that came before, until 256 wait; then its client is told, with error
/// -32000, that the server is busy, and where it is no request nothing.
pub proof fn messages_wait(p: ProcessorView, t: Seq<char>, client: u64, q: Option<RequestView>)
    ensures
        ({
            let (after, what) = p.meanwhile_with(t, client, q);
            let decides = server::is_decision(t);
            &&& after.ctx == p.ctx
            &&& decides ==> after.deferred == p.deferred
            &&& decides && q is None ==> after == p && what == MeanwhileView::Resolve(None)
            &&& decides && q is Some ==> after.paused == p.paused.filter(
                |s: Seq<char>| s != q->0.fetch_request_id(),
            ) && what == MeanwhileView::Resolve(q->0.resolves(p.paused))
            &&& !decides ==> after.paused == p.paused
            &&& !decides && p.deferred.len() < 256 ==> what is Deferred && after.deferred
                == p.deferred.push(MessageView::Cdp { text: t, client })
            &&& !decides && p.deferred.len() >= 256 ==> after == p && what is Send
            &&& !decides && p.deferred.len() >= 256 && q is None ==> what == MeanwhileView::Send(
                None,
            )
            &&& !decides && p.deferred.len() >= 256 && q is Some ==> exists|r: ResponseView|
                what == MeanwhileView::Send(Some(#[trigger] types::response_text(r))) && r.id
                    == q->0.id && r.session_id == q->0.session_id && dispatch_laws::fails_with(
                    r,
                    -32000,
                    "Server busy: navigation in progress, try again later"@,
                )
        }),
{
    if let Some(x) = q {
        text_laws::others_are_kept(p.paused, x.fetch_request_id());
        let r = x.failure(
            types::SERVER_ERROR,
            "Server busy: navigation in progress, try again later"@,
        );
        assert(dispatch_laws::fails_with(
            r,
            -32000,
            "Server busy: navigation in progress, try again later"@,
        ));
    }
}

/// A decision ends the wait of the request that it names and of no other; what is no request ends
/// none. A message is taken as the request that it is read as.
pub proof fn decisions_end_waits(p: ProcessorView, q: RequestView, t: Seq<char>, client: u64)
    ensures
        p.after_decision(None) == p,
        p.decided(None) is None,
        (q.params.get("requestId"@) matches Some(JsonView::Str(id)) ==> q.fetch_request_id() == id),
        !(q.params.get("requestId"@) matches Some(JsonView::Str(id))) ==> q.fetch_request_id().len()
            == 0,
        p.decided(Some(q)) == q.resolves(p.paused),
        p.after_decision(Some(q)).paused == p.paused.filter(
            |s: Seq<char>| s != q.fetch_request_id(),
        ),
        p.after_decision(Some(q)).deferred == p.deferred && p.after_decision(Some(q)).ctx == p.ctx,
        p.meanwhile(t, client) == p.meanwhile_with(t, client, types::parsed_request(t)),
{
    text_laws::others_are_kept(p.paused, q.fetch_request_id());
    reveal_strlit("");
}

/// What a message is about is told by what stands in it anywhere.
pub proof fn messages_tell_what_they_are(a: Seq<char>, b: Seq<char>, t: Seq<char>)
    ensures
        server::is_decision(a + "Fetch.continueRequest"@ + b),
        server::is_decision(a + "Fetch.fulfillRequest"@ + b),
        server::is_decision(a + "Fetch.failRequest"@ + b),
        server::is_navigation(a + "Page.navigate"@ + b),
        server::is_decision(t) ==> text::has_text(t, "Fetch.continueRequest"@) || text::has_text(
            t,
            "Fetch.fulfillRequest"@,
        ) || text::has_text(t, "Fetch.failRequest"@),
        server::is_navigation(t) ==> text::has_text(t, "Page.navigate"@),
{
    stands_in(a, "Fetch.continueRequest"@, b);
    stands_in(a, "Fetch.fulfillRequest"@, b);
    stands_in(a, "Fetch.failRequest"@, b);
    stands_in(a, "Page.navigate"@, b);
}

/// How some names are spelled: enough to tell them apart.
spec fn greeting_names_differ_spelled() -> bool {
    &&& "__init"@.len() == 6
    &&& "pageId"@.len() == 6
    &&& "sessionId"@.len() == 9
    &&& "url"@.len() == 3
    &&& "__method"@.len() == 8
    &&& "__body"@.len() == 6
    &&& "__init"@[0] == '_'
    &&& "pageId"@[0] == 'p'
    &&& "__init"@[2] == 'i'
    &&& "__body"@[2] == 'b'
    &&& "__body"@[0] == '_'
}

#[verifier::spinoff_prover]
proof fn greeting_names_differ()
    ensures
        greeting_names_differ_spelled(),
{
    reveal_strlit("__init");
    reveal_strlit("pageId");
    reveal_strlit("sessionId");
    reveal_strlit("url");
    reveal_strlit("__method");
    reveal_strlit("__body");
}

/// A client that connects is greeted; one that connects while a navigation waits is told the page
/// and the session that were made for it.
pub proof fn clients_are_greeted(page: Seq<char>, session: Seq<char>)
    ensures
        server::greeting().get("__init"@) == Some(JsonView::Bool(true)),
        server::greeting().get("pageId"@) is None,
        server::greeting_with_page(page, session).get("__init"@) == Some(JsonView::Bool(true)),
        server::greeting_with_page(page, session).get("pageId"@) == Some(JsonView::Str(page)),
        server::greeting_with_page(page, session).get("sessionId"@) == Some(
            JsonView::Str(session),
        ),
{
    greeting_names_differ();
    json::object_is_keyed();
    json::put_sets(JsonView::object(), "__init"@, JsonView::Bool(true));
    json::put_sets(server::greeting(), "pageId"@, JsonView::Str(page));
    json::put_sets(
        server::greeting().put("pageId"@, JsonView::Str(page)),
        "sessionId"@,
        JsonView::Str(session),
    );
}

/// A navigation that a script asks for is a request for `Page.navigate` with the URL, the method
/// and the body that the script gave, for the session of its page.
pub proof fn scripts_navigate(
    session: Option<Seq<char>>,
    url: Seq<char>,
    method: Seq<char>,
    body: Seq<char>,
)
    ensures
        ({
            let q = server::script_navigation(session, url, method, body);
            &&& q.id == 0 && q.method == "Page.navigate"@ && q.session_id == session
            &&& q.params.get("url"@) == Some(JsonView::Str(url))
            &&& q.params.get("__method"@) == Some(JsonView::Str(method))
            &&& q.params.get("__body"@) == Some(JsonView::Str(body))
        }),
{
    greeting_names_differ();
    json::object_is_keyed();
    let a = JsonView::object();
    let b = a.put("url"@, JsonView::Str(url));
    json::put_sets(a, "url"@, JsonView::Str(url));
    json::put_sets(b, "__method"@, JsonView::Str(method));
    json::put_sets(
        b.put("__method"@, JsonView::Str(method)),
        "__body"@,
        JsonView::Str(body),
    );
}

/// How some names are spelled: enough to tell them apart.
spec fn fast_methods_differ_spelled() -> bool {
    &&& "Network.enable"@.len() == 14
    &&& "Network.setCacheDisabled"@.len() == 24
    &&& "Network.setRequestInterception"@.len() == 30
    &&& "Page.enable"@.len() == 11
    &&& "Page.setLifecycleEventsEnabled"@.len() == 30
    &&& "Page.setInterceptFileChooserDialog"@.len() == 34
    &&& "Runtime.runIfWaitingForDebugger"@.len() == 31
    &&& "Runtime.discardConsoleEntries"@.len() == 29
    &&& "Performance.enable"@.len() == 18
    &&& "Log.enable"@.len() == 10
    &&& "Security.enable"@.len() == 15
    &&& "Emulation.setDeviceMetricsOverride"@.len() == 34
    &&& "Emulation.setTouchEmulationEnabled"@.len() == 34
    &&& "CSS.enable"@.len() == 10
    &&& "Accessibility.enable"@.len() == 20
    &&& "ServiceWorker.enable"@.len() == 20
    &&& "Inspector.enable"@.len() == 16
    &&& "Debugger.enable"@.len() == 15
    &&& "Profiler.enable"@.len() == 15
    &&& "HeapProfiler.enable"@.len() == 19
    &&& "Overlay.enable"@.len() == 14
    &&& "Storage.enable"@.len() == 14
    &&& "Target.setAutoAttach"@.len() == 20
    &&& "Browser.setDownloadBehavior"@.len() == 27
    &&& "Browser.getWindowBounds"@.len() == 23
    &&& "Browser.getVersion"@.len() == 18
    &&& "Target.getBrowserContexts"@.len() == 25
    &&& "Network.enable"@[0] == 'N'
    &&& "Overlay.enable"@[0] == 'O'
    &&& "Storage.enable"@[0] == 'S'
    &&& "Network.setRequestInterception"@[0] == 'N'
    &&& "Page.setLifecycleEventsEnabled"@[0] == 'P'
    &&& "Page.setInterceptFileChooserDialog"@[0] == 'P'
    &&& "Emulation.setDeviceMetricsOverride"@[0] == 'E'
    &&& "Emulation.setTouchEmulationEnabled"@[0] == 'E'
    &&& "Performance.enable"@[0] == 'P'
    &&& "Browser.getVersion"@[0] == 'B'
    &&& "Log.enable"@[0] == 'L'
    &&& "CSS.enable"@[0] == 'C'
    &&& "Security.enable"@[0] == 'S'
    &&& "Debugger.enable"@[0] == 'D'
    &&& "Profiler.enable"@[0] == 'P'
    &&& "Emulation.setDeviceMetricsOverride"@[13] == 'D'
    &&& "Emulation.setTouchEmulationEnabled"@[13] == 'T'
    &&& "Accessibility.enable"@[0] == 'A'
    &&& "ServiceWorker.enable"@[0] == 'S'
    &&& "Target.setAutoAttach"@[0] == 'T'
}

#[verifier::spinoff_prover]
proof fn fast_methods_differ()
    ensures
        fast_methods_differ_spelled(),
{
    reveal_strlit("Network.enable");
    reveal_strlit("Network.setCacheDisabled");
    reveal_strlit("Network.setRequestInterception");
    reveal_strlit("Page.enable");
    reveal_strlit("Page.setLifecycleEventsEnabled");
    reveal_strlit("Page.setInterceptFileChooserDialog");
    reveal_strlit("Runtime.runIfWaitingForDebugger");
    reveal_strlit("Runtime.discardConsoleEntries");
    reveal_strlit("Performance.enable");
    reveal_strlit("Log.enable");
    reveal_strlit("Security.enable");
    reveal_strlit("Emulation.setDeviceMetricsOverride");
    reveal_strlit("Emulation.setTouchEmulationEnabled");
    reveal_strlit("CSS.enable");
    reveal_strlit("Accessibility.enable");
    reveal_strlit("ServiceWorker.enable");
    reveal_strlit("Inspector.enable");
    reveal_strlit("Debugger.enable");
    reveal_strlit("Profiler.enable");
    reveal_strlit("HeapProfiler.enable");
    reveal_strlit("Overlay.enable");
    reveal_strlit("Storage.enable");
    reveal_strlit("Target.setAutoAttach");
    reveal_strlit("Browser.setDownloadBehavior");
    reveal_strlit("Browser.getWindowBounds");
    reveal_strlit("Browser.getVersion");
    reveal_strlit("Target.getBrowserContexts");
}

/// The result of a method that does nothing.
pub open spec fn nothing() -> Option<JsonView> {
    Some(JsonView::Object(Seq::empty()))
}

/// The methods that do nothing are answered at once with an empty object.
pub proof fn idle_methods_are_answered()
    ensures
        server::fast_result("Network.enable"@) == nothing(),
        server::fast_result("Network.setCacheDisabled"@) == nothing(),
        server::fast_result("Network.setRequestInterception"@) == nothing(),
        server::fast_result("Page.enable"@) == nothing(),
        server::fast_result("Page.setLifecycleEventsEnabled"@) == nothing(),
        server::fast_result("Page.setInterceptFileChooserDialog"@) == nothing(),
        server::fast_result("Runtime.runIfWaitingForDebugger"@) == nothing(),
        server::fast_result("Runtime.discardConsoleEntries"@) == nothing(),
        server::fast_result("Performance.enable"@) == nothing(),
        server::fast_result("Log.enable"@) == nothing(),
        server::fast_result("Security.enable"@) == nothing(),
        server::fast_result("Emulation.setDeviceMetricsOverride"@) == nothing(),
        server::fast_result("Emulation.setTouchEmulationEnabled"@) == nothing(),
        server::fast_result("CSS.enable"@) == nothing(),
        server::fast_result("Accessibility.enable"@) == nothing(),
        server::fast_result("ServiceWorker.enable"@) == nothing(),
        server::fast_result("Inspector.enable"@) == nothing(),
        server::fast_result("Debugger.enable"@) == nothing(),
        server::fast_result("Profiler.enable"@) == nothing(),
        server::fast_result("HeapProfiler.enable"@) == nothing(),
        server::fast_result("Overlay.enable"@) == nothing(),
        server::fast_result("Storage.enable"@) == nothing(),
        server::fast_result("Target.setAutoAttach"@) == nothing(),
        server::fast_result("Browser.setDownloadBehavior"@) == nothing(),
        server::fast_result("Browser.getWindowBounds"@) == nothing(),
{
}

/// What the browser is and which contexts it has is answered at once; no other method is, but for
/// those that do nothing.
pub proof fn known_answers_are_given(m: Seq<char>)
    ensures
        ({
            &&& server::fast_result("Browser.getVersion"@) matches Some(v)
            &&& v.get("protocolVersion"@) == Some(JsonView::Str("1.3"@))
            &&& v.get("product"@) == Some(JsonView::Str("Obscura/0.1.0"@))
            &&& v.get("revision"@) == Some(JsonView::Str("0"@))
            &&& v.get("userAgent"@) == Some(JsonView::Str("Obscura/0.1.0"@))
            &&& v.get("jsVersion"@) == Some(JsonView::Str("V8"@))
        }),
        ({
            &&& server::fast_result("Target.getBrowserContexts"@) matches Some(v)
            &&& v.get("browserContextIds"@) == Some(
                JsonView::Array(seq![JsonView::Str("default"@)]),
            )
        }),
        server::fast_result(m) is Some ==> server::fast_result(m) == nothing() || m
            == "Browser.getVersion"@ || m == "Target.getBrowserContexts"@,
{
    fast_methods_differ();
    version_names_differ();
    json::object_is_keyed();
    let a = JsonView::object();
    let v0 = a;
    json::put_sets(v0, "protocolVersion"@, JsonView::Str("1.3"@));
    let v1 = v0.put("protocolVersion"@, JsonView::Str("1.3"@));
    json::put_sets(v1, "product"@, JsonView::Str("Obscura/0.1.0"@));
    let v2 = v1.put("product"@, JsonView::Str("Obscura/0.1.0"@));
    json::put_sets(v2, "revision"@, JsonView::Str("0"@));
    let v3 = v2.put("revision"@, JsonView::Str("0"@));
    json::put_sets(v3, "userAgent"@, JsonView::Str("Obscura/0.1.0"@));
    let v4 = v3.put("userAgent"@, JsonView::Str("Obscura/0.1.0"@));
    json::put_sets(v4, "jsVersion"@, JsonView::Str("V8"@));
    let v5 = v4.put("jsVersion"@, JsonView::Str("V8"@));
    json::put_sets(
        a,
        "browserContextIds"@,
        JsonView::Array(seq![JsonView::Str("default"@)]),
    );
}

/// How some names are spelled: enough to tell them apart.
spec fn version_names_differ_spelled() -> bool {
    &&& "protocolVersion"@.len() == 15
    &&& "product"@.len() == 7
    &&& "revision"@.len() == 8
    &&& "userAgent"@.len() == 9
    &&& "jsVersion"@.len() == 9
    &&& "userAgent"@[0] == 'u'
    &&& "jsVersion"@[0] == 'j'
}

#[verifier::spinoff_prover]
proof fn version_names_differ()
    ensures
        version_names_differ_spelled(),
{
    reveal_strlit("protocolVersion");
    reveal_strlit("product");
    reveal_strlit("revision");
    reveal_strlit("userAgent");
    reveal_strlit("jsVersion");
}

/// A method that is none of those that are answered at once waits in line.
pub proof fn other_methods_wait(m: Seq<char>)
    requires
        m != "Network.enable"@,
        m != "Network.setCacheDisabled"@,
        m != "Network.setRequestInterception"@,
        m != "Page.enable"@,
        m != "Page.setLifecycleEventsEnabled"@,
        m != "Page.setInterceptFileChooserDialog"@,
        m != "Runtime.runIfWaitingForDebugger"@,
        m != "Runtime.discardConsoleEntries"@,
        m != "Performance.enable"@,
        m != "Log.enable"@,
        m != "Security.enable"@,
        m != "Emulation.setDeviceMetricsOverride"@,
        m != "Emulation.setTouchEmulationEnabled"@,
        m != "CSS.enable"@,
        m != "Accessibility.enable"@,
        m != "ServiceWorker.enable"@,
        m != "Inspector.enable"@,
        m != "Debugger.enable"@,
        m != "Profiler.enable"@,
        m != "HeapProfiler.enable"@,
        m != "Overlay.enable"@,
        m != "Storage.enable"@,
        m != "Target.setAutoAttach"@,
        m != "Browser.setDownloadBehavior"@,
        m != "Browser.getWindowBounds"@,
        m != "Browser.getVersion"@,
        m != "Target.getBrowserContexts"@,
    ensures
        server::fast_result(m) is None,
{
}

/// A navigation is not answered at once.
pub proof fn navigation_waits_in_line()
    ensures
        server::fast_result("Page.navigate"@) is None,
{
    fast_methods_differ();
    reveal_strlit("Page.navigate");
    assert("Page.navigate"@.len() == 13);
}

/// A text that names the closing of the browser closes the connection, after an answer without a
/// session where it is a request. A request that is answered at once is answered under its number
/// and to its session; anything else is put in line.
pub proof fn clients_are_answered(t: Seq<char>, q: RequestView, v: JsonView, a: Seq<char>, b: Seq<char>)
    ensures
        text::has_text(a + "\"Browser.close\""@ + b, "\"Browser.close\""@),
        text::has_text(t, "\"Browser.close\""@) ==> {
            &&& server::client_action(t, None) == ClientActionView::Close(None)
            &&& server::client_action(t, Some(q)) == ClientActionView::Close(
                Some(
                    types::response_text(
                        ResponseView {
                            id: q.id,
                            result: Some(JsonView::Object(Seq::empty())),
                            error: None,
                            session_id: None,
                        },
                    ),
                ),
            )
        },
        !text::has_text(t, "\"Browser.close\""@) ==> {
            &&& server::client_action(t, None) is Forward
            &&& server::fast_result(q.method) is None ==> server::client_action(t, Some(
                q,
            )) is Forward
            &&& server::fast_result(q.method) == Some(v) ==> server::client_action(t, Some(q))
                == ClientActionView::Reply(
                types::response_text(
                    ResponseView {
                        id: q.id,
                        result: Some(v),
                        error: None,
                        session_id: q.session_id,
                    },
                ),
            )
        },
        server::fast_path(None) is None,
        server::fast_result(q.method) is None ==> server::fast_path(Some(q)) is None,
        server::fast_result(q.method) == Some(v) ==> server::fast_path(Some(q)) == Some(
            types::response_text(
                ResponseView {
                    id: q.id,
                    result: Some(v),
                    error: None,
                    session_id: q.session_id,
                },
            ),
        ),
{
    stands_in(a, "\"Browser.close\""@, b);
}

/// What a connection is for is told by what stands in its first lines: the version, the list of
/// pages, the protocol, or else a web socket.
pub proof fn connections_tell_what_they_are_for(a: Seq<char>, b: Seq<char>, line: Seq<char>)
    ensures
        http::endpoint_of(a + "/json/version"@ + b) == Endpoint::Version,
        !text::has_text(a + "/json/list"@ + b, "/json/version"@) ==> http::endpoint_of(
            a + "/json/list"@ + b,
        ) == Endpoint::List,
        !text::has_text(a + "/json\r\n"@ + b, "/json/version"@) ==> http::endpoint_of(
            a + "/json\r\n"@ + b,
        ) == Endpoint::List,
        !text::has_text(a + "/json HTTP"@ + b, "/json/version"@) ==> http::endpoint_of(
            a + "/json HTTP"@ + b,
        ) == Endpoint::List,
        http::endpoint_of(line) == Endpoint::Protocol ==> text::has_text(line, "/json/protocol"@),
        http::endpoint_of(line) == Endpoint::WebSocket ==> !text::has_text(line, "/json/version"@)
            && !text::has_text(line, "/json/list"@) && !text::has_text(line, "/json\r\n"@)
            && !text::has_text(line, "/json HTTP"@) && !text::has_text(line, "/json/protocol"@),
        !text::has_text(line, "/json"@) ==> http::endpoint_of(line) == Endpoint::WebSocket,
        text::has_text(line, "/json/protocol"@) && !text::has_text(line, "/json/version"@)
            && !text::has_text(line, "/json/list"@) && !text::has_text(line, "/json\r\n"@)
            && !text::has_text(line, "/json HTTP"@) ==> http::endpoint_of(line)
            == Endpoint::Protocol,
{
    stands_in(a, "/json/version"@, b);
    stands_in(a, "/json/list"@, b);
    stands_in(a, "/json\r\n"@, b);
    stands_in(a, "/json HTTP"@, b);
    reveal_strlit("/json");
    reveal_strlit("/json/version");
    reveal_strlit("/json/list");
    reveal_strlit("/json\r\n");
    reveal_strlit("/json HTTP");
    reveal_strlit("/json/protocol");
    begins_in(line, "/json/version"@, "/json"@);
    begins_in(line, "/json/list"@, "/json"@);
    begins_in(line, "/json\r\n"@, "/json"@);
    begins_in(line, "/json HTTP"@, "/json"@);
    begins_in(line, "/json/protocol"@, "/json"@);
}

proof fn begins_in(line: Seq<char>, p: Seq<char>, head: Seq<char>)
    requires
        head.len() <= p.len(),
        forall|i: int| 0 <= i < head.len() ==> p[i] == head[i],
    ensures
        text::has_text(line, p) ==> text::has_text(line, head),
{
    if text::has_text(line, p) {
        let i = choose|i: int| text::occurs_at(line, p, i);
        let found = line.subrange(i, i + p.len());
        assert(line.subrange(i, i + head.len()) =~= head) by {
            assert forall|k: int| 0 <= k < head.len() implies line[i + k] == head[k] by {
                assert(found[k] == p[k]);
            }
        }
        assert(text::occurs_at(line, head, i));
    }
}

/// How some names are spelled: enough to tell them apart.
spec fn endpoint_names_differ_spelled() -> bool {
    &&& "version"@.len() == 7
    &&& "list"@.len() == 4
    &&& "protocol"@.len() == 8
}

#[verifier::spinoff_prover]
proof fn endpoint_names_differ()
    ensures
        endpoint_names_differ_spelled(),
{
    reveal_strlit("version");
    reveal_strlit("list");
    reveal_strlit("protocol");
}
/// How some names are spelled: enough to tell them apart.
spec fn http_names_differ_spelled() -> bool {
    &&& "Browser"@.len() == 7
    &&& "Protocol-Version"@.len() == 16
    &&& "User-Agent"@.len() == 10
    &&& "V8-Version"@.len() == 10
    &&& "WebKit-Version"@.len() == 14
    &&& "webSocketDebuggerUrl"@.len() == 20
    &&& "description"@.len() == 11
    &&& "devtoolsFrontendUrl"@.len() == 19
    &&& "id"@.len() == 2
    &&& "title"@.len() == 5
    &&& "type"@.len() == 4
    &&& "url"@.len() == 3
    &&& "version"@.len() == 7
    &&& "major"@.len() == 5
    &&& "minor"@.len() == 5
    &&& "Browser"@[0] == 'B'
    &&& "version"@[0] == 'v'
    &&& "User-Agent"@[0] == 'U'
    &&& "V8-Version"@[0] == 'V'
    &&& "title"@[0] == 't'
    &&& "major"@[0] == 'm'
    &&& "minor"@[0] == 'm'
    &&& "major"@[1] == 'a'
    &&& "minor"@[1] == 'i'
}

#[verifier::spinoff_prover]
proof fn http_names_differ()
    ensures
        http_names_differ_spelled(),
{
    reveal_strlit("Browser");
    reveal_strlit("Protocol-Version");
    reveal_strlit("User-Agent");
    reveal_strlit("V8-Version");
    reveal_strlit("WebKit-Version");
    reveal_strlit("webSocketDebuggerUrl");
    reveal_strlit("description");
    reveal_strlit("devtoolsFrontendUrl");
    reveal_strlit("id");
    reveal_strlit("title");
    reveal_strlit("type");
    reveal_strlit("url");
    reveal_strlit("version");
    reveal_strlit("major");
    reveal_strlit("minor");
}

/// The version tells what the browser is and where its web socket is, at the port that the server
/// listens at.
pub proof fn the_version_is_told(port: u16)
    ensures
        exists|v: JsonView|
            http::endpoint_body(port, "version"@) == #[trigger] json::json_pretty_text(v) && v.get(
                "Browser"@,
            ) == Some(JsonView::Str("Obscura/0.1.0"@)) && v.get("Protocol-Version"@) == Some(
                JsonView::Str("1.3"@),
            ) && v.get("User-Agent"@) == Some(JsonView::Str("Obscura/0.1.0 (Headless Browser)"@))
                && v.get("V8-Version"@) == Some(JsonView::Str("N/A"@)) && v.get(
                "WebKit-Version"@,
            ) == Some(JsonView::Str("N/A"@)) && v.get("webSocketDebuggerUrl"@) == Some(
                JsonView::Str(
                    "ws://127.0.0.1:"@ + text::decimal_text(port as nat) + "/devtools/browser"@,
                ),
            ),
{
    endpoint_names_differ();
    http_names_differ();
    json::object_is_keyed();
    let at = JsonView::Str(
        "ws://127.0.0.1:"@ + text::decimal_text(port as nat) + "/devtools/browser"@,
    );
    let v0 = JsonView::object();
    json::put_sets(v0, "Browser"@, JsonView::Str("Obscura/0.1.0"@));
    let v1 = v0.put("Browser"@, JsonView::Str("Obscura/0.1.0"@));
    json::put_sets(v1, "Protocol-Version"@, JsonView::Str("1.3"@));
    let v2 = v1.put("Protocol-Version"@, JsonView::Str("1.3"@));
    json::put_sets(v2, "User-Agent"@, JsonView::Str("Obscura/0.1.0 (Headless Browser)"@));
    let v3 = v2.put("User-Agent"@, JsonView::Str("Obscura/0.1.0 (Headless Browser)"@));
    json::put_sets(v3, "V8-Version"@, JsonView::Str("N/A"@));
    let v4 = v3.put("V8-Version"@, JsonView::Str("N/A"@));
    json::put_sets(v4, "WebKit-Version"@, JsonView::Str("N/A"@));
    let v5 = v4.put("WebKit-Version"@, JsonView::Str("N/A"@));
    json::put_sets(v5, "webSocketDebuggerUrl"@, at);
    let v6 = v5.put("webSocketDebuggerUrl"@, at);
    assert(http::endpoint_body(port, "version"@) == json::json_pretty_text(v6));
}

/// The list tells of one page, with where its web socket is.
pub proof fn the_list_is_told(port: u16)
    ensures
        exists|v: JsonView|
            http::endpoint_body(port, "list"@) == #[trigger] json::json_pretty_text(
                JsonView::Array(seq![v]),
            ) && v.get("description"@) == Some(JsonView::Str(""@)) && v.get(
                "devtoolsFrontendUrl"@,
            ) == Some(JsonView::Str(""@)) && v.get("id"@) == Some(JsonView::Str("page-1"@))
                && v.get("title"@) == Some(JsonView::Str(""@)) && v.get("type"@) == Some(
                JsonView::Str("page"@),
            ) && v.get("url"@) == Some(JsonView::Str("about:blank"@)) && v.get(
                "webSocketDebuggerUrl"@,
            ) == Some(
                JsonView::Str(
                    "ws://127.0.0.1:"@ + text::decimal_text(port as nat)
                        + "/devtools/page/page-1"@,
                ),
            ),
{
    endpoint_names_differ();
    http_names_differ();
    json::object_is_keyed();
    let at = JsonView::Str(
        "ws://127.0.0.1:"@ + text::decimal_text(port as nat) + "/devtools/page/page-1"@,
    );
    let v0 = JsonView::object();
    json::put_sets(v0, "description"@, JsonView::Str(""@));
    let v1 = v0.put("description"@, JsonView::Str(""@));
    json::put_sets(v1, "devtoolsFrontendUrl"@, JsonView::Str(""@));
    let v2 = v1.put("devtoolsFrontendUrl"@, JsonView::Str(""@));
    json::put_sets(v2, "id"@, JsonView::Str("page-1"@));
    let v3 = v2.put("id"@, JsonView::Str("page-1"@));
    json::put_sets(v3, "title"@, JsonView::Str(""@));
    let v4 = v3.put("title"@, JsonView::Str(""@));
    json::put_sets(v4, "type"@, JsonView::Str("page"@));
    let v5 = v4.put("type"@, JsonView::Str("page"@));
    json::put_sets(v5, "url"@, JsonView::Str("about:blank"@));
    let v6 = v5.put("url"@, JsonView::Str("about:blank"@));
    json::put_sets(v6, "webSocketDebuggerUrl"@, at);
    let v7 = v6.put("webSocketDebuggerUrl"@, at);
    assert(http::endpoint_body(port, "list"@) == json::json_pretty_text(
        JsonView::Array(seq![v7]),
    ));
}

/// The protocol tells its version, one point three, and any other name is answered with an empty
/// object.
pub proof fn the_protocol_is_told(port: u16, other: Seq<char>)
    ensures
        exists|v: JsonView|
            http::endpoint_body(port, "protocol"@) == #[trigger] json::json_pretty_text(v)
                && v.get("version"@) is Some && v.get("version"@)->0.get("major"@) == Some(
                JsonView::Str("1"@),
            ) && v.get("version"@)->0.get("minor"@) == Some(JsonView::Str("3"@)),
        other != "version"@ && other != "list"@ && other != "protocol"@ ==> http::endpoint_body(
            port,
            other,
        ) == "{}"@,
{
    endpoint_names_differ();
    http_names_differ();
    json::object_is_keyed();
    let a = JsonView::object();
    json::put_sets(a, "major"@, JsonView::Str("1"@));
    let b = a.put("major"@, JsonView::Str("1"@));
    json::put_sets(b, "minor"@, JsonView::Str("3"@));
    let w = b.put("minor"@, JsonView::Str("3"@));
    json::put_sets(a, "version"@, w);
    let v = a.put("version"@, w);
    assert(http::endpoint_body(port, "protocol"@) == json::json_pretty_text(v));
    assert(v.get("version"@) == Some(w));
}

/// A reply over HTTP ends in its body, and its head says that all is well, that the body is JSON,
/// and of how many bytes it is.
pub proof fn replies_tell_their_length(body: Seq<char>)
    ensures
        http::http_response(body)
            == "HTTP/1.1 200 OK\r\nContent-Type: application/json; charset=utf-8\r\nContent-Length: "@
            + text::decimal_text(vstd::utf8::encode_utf8(body).len())
            + "\r\nConnection: close\r\n\r\n"@ + body,
{
}

} // verus!
