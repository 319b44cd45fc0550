//! What the functions of the server give back, whatever they are called with.

use vstd::prelude::*;
use vstd::string::*;

use crate::assoc;
use crate::cdp::dispatch::{self, CdpContext, ContextView, DispatchStep, Page, PageSwitch};
use crate::cdp::dispatch_laws;
use crate::cdp::http::{self, Endpoint};
use crate::cdp::input::{self, InputPlan, PageStep};
use crate::cdp::input_laws;
use crate::cdp::navigation::{
    self, Arrival, InterceptStart, Navigation, WaitUntil,
};
use crate::cdp::navigation_laws;
use crate::cdp::server::{
    self, CdpProcessor, ClientAction, FetchResolution, Meanwhile, Route, ServerMessage,
};
use crate::cdp::server_laws;
use crate::cdp::types::{self, CdpEvent, CdpRequest, CdpResponse};
use crate::js::state::{InterceptResolution, InterceptedRequest};
use crate::json::{self, Json, JsonView};
use crate::text;

verus! {

/// Whether a request for any method of a domain goes to the handler of that domain.
pub open spec fn goes_to(req: &CdpRequest, r: DispatchStep, d: Seq<char>, m: Seq<char>) -> bool {
    req.method@ == d + seq!['.'] + m ==> (r matches DispatchStep::Handle { domain, method }
        && domain@ == d && method@ == m)
}

/// A request for a method of one of the eleven domains with a handler goes there; a request that
/// wraps another is the one exception.
pub proof fn requests_are_dispatched(req: &CdpRequest, r: DispatchStep, m: Seq<char>)
    requires
        call_ensures(dispatch::dispatch, (req,), r),
    ensures
        m != "sendMessageToTarget"@ ==> goes_to(req, r, "Target"@, m),
        goes_to(req, r, "Browser"@, m),
        goes_to(req, r, "Page"@, m),
        goes_to(req, r, "DOM"@, m),
        goes_to(req, r, "Runtime"@, m),
        goes_to(req, r, "Network"@, m),
        goes_to(req, r, "Fetch"@, m),
        goes_to(req, r, "Input"@, m),
        goes_to(req, r, "Storage"@, m),
        goes_to(req, r, "LP"@, m),
        goes_to(req, r, "Accessibility"@, m),
{
    dispatch_laws::handled_domains_are_handled(req@, m);
}

/// Whether an answer is an empty object, to the one that asked.
pub open spec fn answers_with_nothing(req: &CdpRequest, r: DispatchStep) -> bool {
    r matches DispatchStep::Reply(a) && a.id == req.id && text::opt(a.session_id) == text::opt(
        req.session_id,
    ) && a.result is Some && a.result->0@ == JsonView::Object(Seq::empty()) && a.error is None
}

/// A request for a method of one of the twelve domains that do nothing is answered with nothing.
pub proof fn idle_requests_are_answered(req: &CdpRequest, r: DispatchStep, m: Seq<char>)
    requires
        call_ensures(dispatch::dispatch, (req,), r),
    ensures
        req.method@ == "Emulation"@ + seq!['.'] + m ==> answers_with_nothing(req, r),
        req.method@ == "Log"@ + seq!['.'] + m ==> answers_with_nothing(req, r),
        req.method@ == "Performance"@ + seq!['.'] + m ==> answers_with_nothing(req, r),
        req.method@ == "Security"@ + seq!['.'] + m ==> answers_with_nothing(req, r),
        req.method@ == "CSS"@ + seq!['.'] + m ==> answers_with_nothing(req, r),
        req.method@ == "ServiceWorker"@ + seq!['.'] + m ==> answers_with_nothing(req, r),
        req.method@ == "Inspector"@ + seq!['.'] + m ==> answers_with_nothing(req, r),
        req.method@ == "Debugger"@ + seq!['.'] + m ==> answers_with_nothing(req, r),
        req.method@ == "Profiler"@ + seq!['.'] + m ==> answers_with_nothing(req, r),
        req.method@ == "HeapProfiler"@ + seq!['.'] + m ==> answers_with_nothing(req, r),
        req.method@ == "Overlay"@ + seq!['.'] + m ==> answers_with_nothing(req, r),
        req.method@ == "Audits"@ + seq!['.'] + m ==> answers_with_nothing(req, r),
{
    dispatch_laws::idle_domains_do_nothing(req@, m);
}

/// Whether an answer is an error with a code and a message, to the one that asked.
pub open spec fn refuses(req: &CdpRequest, a: CdpResponse, code: int, message: Seq<char>) -> bool {
    a.id == req.id && text::opt(a.session_id) == text::opt(req.session_id) && a.result is None
        && a.error is Some && a.error->0.code == code && a.error->0.message@ == message
}

/// A request without a domain is refused with its method, and a wrapper without a message with what
/// it lacks.
pub proof fn bad_requests_are_refused(req: &CdpRequest, r: DispatchStep)
    requires
        call_ensures(dispatch::dispatch, (req,), r),
    ensures
        !req.method@.contains('.') ==> (r matches DispatchStep::Reply(a) && refuses(
            req,
            a,
            -32601,
            "Invalid method format: "@ + req.method@,
        )),
        req.method@ == "Target.sendMessageToTarget"@ && !(req.params@.get("message"@) matches Some(
            JsonView::Str(t),
        )) ==> (r matches DispatchStep::Reply(a) && refuses(
            req,
            a,
            -32602,
            "sendMessageToTarget requires a message string"@,
        )),
{
    if !req.method@.contains('.') {
        text::split_at_first(req.method@, '.', Seq::empty());
        if req.method@ == "Target.sendMessageToTarget"@ {
            reveal_strlit("Target.sendMessageToTarget");
            assert(req.method@[6] == '.');
        }
    }
}

/// A wrapped request goes first, for the session that its wrapper names, and what cannot be read is
/// refused.
pub proof fn wrappers_are_opened(
    req: &CdpRequest,
    inner: Result<CdpRequest, String>,
    r: DispatchStep,
)
    requires
        call_ensures(dispatch::unwrap_message, (req, inner), r),
    ensures
        (inner matches Ok(q) ==> (r matches DispatchStep::Inner(p) && p.id == q.id && p.method@
            == q.method@ && p.params@ == q.params@ && match req.params@.get("sessionId"@) {
            Some(JsonView::Str(s)) => p.session_id is Some && p.session_id->0@ == s,
            _ => text::opt(p.session_id) == text::opt(q.session_id),
        })),
        (inner matches Err(e) ==> (r matches DispatchStep::Reply(a) && refuses(
            req,
            a,
            -32700,
            "sendMessageToTarget message is not a valid CDP request: "@ + e@,
        ))),
{
    match inner {
        Ok(q) => dispatch_laws::wrapped_requests_go_first(req@, q@, Seq::empty()),
        Err(e) => dispatch_laws::wrapped_requests_go_first(req@, req@, e@),
    }
}

/// What a handler gives is the answer's result, and why it failed its error.
pub proof fn handlers_are_answered(req: &CdpRequest, outcome: Result<Json, String>, a: CdpResponse)
    requires
        call_ensures(dispatch::answer, (req, outcome), a),
    ensures
        (outcome matches Ok(v) ==> a.id == req.id && text::opt(a.session_id) == text::opt(
            req.session_id,
        ) && a.result is Some && a.result->0@ == v@ && a.error is None),
        (outcome matches Err(e) ==> refuses(req, a, -32601, e@)),
{
    match outcome {
        Ok(v) => dispatch_laws::outcomes_are_answered(req@, v@, Seq::empty()),
        Err(e) => dispatch_laws::outcomes_are_answered(req@, JsonView::Null, e@),
    }
}

/// The answer to a wrapped request waits as an event behind the others, and the wrapper is answered
/// with nothing.
pub proof fn wrappers_are_answered(
    ctx: &mut CdpContext,
    req: &CdpRequest,
    inner: &CdpResponse,
    a: CdpResponse,
)
    requires
        call_ensures(dispatch::answer_wrapper, (ctx, req, inner), a),
    ensures
        a.id == req.id && a.error is None && a.result is Some && a.result->0@ == JsonView::Object(
            Seq::empty(),
        ),
        ({
            let before = old(ctx)@.pending_events;
            let after = final(ctx)@.pending_events;
            &&& after.len() == before.len() + 1 && after.drop_last() == before
            &&& after.last().method == "Target.receivedMessageFromTarget"@
            &&& after.last().session_id == text::opt(req.session_id)
            &&& after.last().params.get("message"@) == Some(
                JsonView::Str(json::json_text(inner@.to_json())),
            )
            &&& final(ctx)@ == (ContextView { pending_events: after, ..old(ctx)@ })
        }),
{
    dispatch_laws::wrapped_answers_are_told(req@, inner@);
    let before = old(ctx)@.pending_events;
    assert(before.push(req@.inner_event(inner@)).drop_last() =~= before);
}

/// A new page has the next number, no frame and no engine, and stands behind the others.
pub proof fn pages_are_created(ctx: &mut CdpContext, r: String)
    requires
        call_ensures(CdpContext::create_page, (ctx,), r),
        old(ctx)@.page_counter < u32::MAX,
    ensures
        ({
            let before = old(ctx)@.pages;
            let after = final(ctx)@.pages;
            &&& r@ == seq!['p', 'a', 'g', 'e', '-'] + text::decimal_text(
                (old(ctx)@.page_counter + 1) as nat,
            )
            &&& after.len() == before.len() + 1 && after.drop_last() == before
            &&& after.last().id == r@ && after.last().frame_id.len() == 0 && !after.last().has_js
            &&& final(ctx)@.page_counter == old(ctx)@.page_counter + 1
            &&& final(ctx)@.sessions == old(ctx)@.sessions
            &&& final(ctx)@.pending_events == old(ctx)@.pending_events
        }),
{
    dispatch_laws::pages_are_numbered((old(ctx)@.page_counter + 1) as nat);
    let before = old(ctx)@.pages;
    assert(before.push(final(ctx)@.pages.last()).drop_last() =~= before);
}

/// A page that is taken out is the first of its name; the others keep their order. One that comes
/// back stands behind them.
pub proof fn pages_come_and_go(ctx: &mut CdpContext, id: &str, r: Option<Page>, i: int)
    requires
        call_ensures(CdpContext::take_page, (ctx, id), r),
    ensures
        ({
            let pages = old(ctx)@.pages;
            &&& (forall|j: int| 0 <= j < pages.len() ==> (#[trigger] pages[j]).id != id@) ==> r
                is None && final(ctx)@ == old(ctx)@
            &&& 0 <= i < pages.len() && pages[i].id == id@ && (forall|j: int|
                0 <= j < i ==> (#[trigger] pages[j]).id != id@) ==> r is Some && r->0@ == pages[i]
                && final(ctx)@ == (ContextView { pages: pages.remove(i), ..old(ctx)@ })
        }),
{
    dispatch::page_index_is_first(old(ctx)@.pages, id@);
}

/// A page is found by its name.
pub proof fn pages_are_found(ctx: &CdpContext, id: &str, r: Option<&Page>, i: int)
    requires
        call_ensures(CdpContext::get_page, (ctx, id), r),
    ensures
        ({
            let pages = ctx@.pages;
            &&& r is Some ==> r->0.id@ == id@
            &&& (forall|j: int| 0 <= j < pages.len() ==> (#[trigger] pages[j]).id != id@) ==> r
                is None
            &&& 0 <= i < pages.len() && pages[i].id == id@ && (forall|j: int|
                0 <= j < i ==> (#[trigger] pages[j]).id != id@) ==> r is Some && r->0@ == pages[i]
        }),
{
    dispatch::page_index_is_first(ctx@.pages, id@);
}

/// Removing a page removes those of its name and the sessions that are for them, and nothing else.
pub proof fn pages_are_removed(ctx: &mut CdpContext, id: &str)
    requires
        call_ensures(CdpContext::remove_page, (ctx, id), ()),
    ensures
        final(ctx)@.pages == old(ctx)@.pages.filter(
            |p: dispatch::PageView| p.id != id@,
        ),
        forall|k: int|
            0 <= k < final(ctx)@.sessions.len() ==> (#[trigger] final(ctx)@.sessions[k]).1 != id@,
        forall|k: int|
            0 <= k < old(ctx)@.sessions.len() && (#[trigger] old(ctx)@.sessions[k]).1 != id@
                ==> final(ctx)@.sessions.contains(old(ctx)@.sessions[k]),
        final(ctx)@.page_counter == old(ctx)@.page_counter,
        final(ctx)@.pending_events == old(ctx)@.pending_events,
{
    dispatch_laws::removing_keeps_the_others(old(ctx)@.pages, id@);
    let gone = |k: Seq<char>, v: Seq<char>| v == id@;
    assert(final(ctx)@.sessions == assoc::without(old(ctx)@.sessions, gone));
    without_keeps(old(ctx)@.sessions, id@, gone);
}

proof fn without_keeps(
    m: Seq<(Seq<char>, Seq<char>)>,
    id: Seq<char>,
    gone: spec_fn(Seq<char>, Seq<char>) -> bool,
)
    requires
        forall|k: Seq<char>, v: Seq<char>| #[trigger] gone(k, v) == (v == id),
    ensures
        ({
            let w = assoc::without(m, gone);
            &&& forall|k: int| 0 <= k < w.len() ==> (#[trigger] w[k]).1 != id
            &&& forall|k: int|
                0 <= k < m.len() && (#[trigger] m[k]).1 != id ==> w.contains(m[k])
        }),
    decreases m.len(),
{
    if m.len() > 0 {
        let rest = m.drop_last();
        without_keeps(rest, id, gone);
        let u = assoc::without(rest, gone);
        let w = assoc::without(m, gone);
        assert forall|k: int| 0 <= k < m.len() && (#[trigger] m[k]).1 != id implies w.contains(
            m[k],
        ) by {
            if k < rest.len() {
                assert(rest[k] == m[k]);
                let j = choose|j: int| 0 <= j < u.len() && u[j] == m[k];
                assert(w[j] == m[k]);
            } else {
                assert(w[w.len() - 1] == m[k]);
            }
        }
    }
}

/// Getting the page of a session ready puts every other page to sleep and changes nothing else; a
/// page that has no engine is to be woken.
pub proof fn pages_are_switched(
    ctx: &mut CdpContext,
    session: &Option<String>,
    r: PageSwitch,
    id: Seq<char>,
    i: int,
)
    requires
        call_ensures(CdpContext::get_session_page_mut, (ctx, session), r),
    ensures
        *session is None ==> final(ctx)@ == old(ctx)@ && r.page is None && r.resume is None
            && r.suspend@.len() == 0,
        *session is Some && assoc::lookup(old(ctx)@.sessions, session->0@) is None
            ==> final(ctx)@ == old(ctx)@ && r.page is None && r.resume is None,
        *session is Some && assoc::lookup(old(ctx)@.sessions, session->0@) == Some(id) ==> {
            let pages = old(ctx)@.pages;
            let after = final(ctx)@.pages;
            &&& after.len() == pages.len()
            &&& forall|k: int|
                0 <= k < pages.len() ==> (#[trigger] after[k]).id == pages[k].id && (pages[k].id
                    != id ==> !after[k].has_js) && (pages[k].id == id ==> after[k].has_js
                    == pages[k].has_js)
            &&& 0 <= i < pages.len() && pages[i].id == id ==> r.page is Some && r.page->0@ == id
            &&& 0 <= i < pages.len() && pages[i].id == id && pages[i].has_js ==> r.resume is None
            &&& 0 <= i < pages.len() && pages[i].id == id && (forall|k: int|
                0 <= k < pages.len() ==> (#[trigger] pages[k]).id == id ==> !pages[k].has_js) ==> r.resume
                is Some && r.resume->0@ == id
            &&& (forall|k: int| 0 <= k < pages.len() ==> (#[trigger] pages[k]).id != id) ==> r.page
                is None
        },
{
    let pages = old(ctx)@.pages;
    dispatch::page_index_is_first(pages, id);
    dispatch_laws::others_are_put_to_sleep(pages, id, arbitrary());
    if *session is Some && assoc::lookup(old(ctx)@.sessions, session->0@) == Some(id) {
        assert forall|k: int| 0 <= k < pages.len() implies (#[trigger] final(ctx)@.pages[k]).id
            == pages[k].id && (pages[k].id != id ==> !final(ctx)@.pages[k].has_js) && (pages[k].id
            == id ==> final(ctx)@.pages[k].has_js == pages[k].has_js) by {
            assert(final(ctx)@.pages[k] == dispatch::others_asleep(pages, id)[k]);
        }
    }
}

/// Events that wait are taken as their texts, in their order, and wait no more.
pub proof fn events_are_taken(ctx: &mut CdpContext, r: Vec<String>)
    requires
        call_ensures(CdpContext::drain_events, (ctx,), r),
    ensures
        final(ctx)@.pending_events.len() == 0,
        final(ctx)@ == (ContextView { pending_events: Seq::empty(), ..old(ctx)@ }),
        r@.len() == old(ctx)@.pending_events.len(),
        forall|i: int|
            0 <= i < r@.len() ==> (#[trigger] r@[i])@ == json::json_text(
                old(ctx)@.pending_events[i].to_json(),
            ),
{
    dispatch_laws::lists_keep_their_order(Seq::empty(), old(ctx)@.pending_events);
    assert(text::texts(r@).len() == r@.len());
    assert forall|i: int| 0 <= i < r@.len() implies (#[trigger] r@[i])@ == json::json_text(
        old(ctx)@.pending_events[i].to_json(),
    ) by {
        assert(text::texts(r@)[i] == r@[i]@);
        assert(dispatch::event_texts(old(ctx)@.pending_events)[i] == text::texts(r@)[i]);
    }
}

/// A page and its session are made together: the session is named after the page and is for it.
pub proof fn sessions_are_created(ctx: &mut CdpContext, r: (String, String))
    requires
        call_ensures(CdpContext::create_page_with_session, (ctx,), r),
        assoc::distinct(old(ctx)@.sessions),
    ensures
        r.1@ == r.0@ + "-session"@,
        assoc::lookup(final(ctx)@.sessions, r.1@) == Some(r.0@),
        final(ctx)@.pages.len() == old(ctx)@.pages.len() + 1 && final(ctx)@.pages.last().id
            == r.0@,
{
    assoc::with_sets(old(ctx)@.sessions, r.1@, r.0@, r.1@);
}

/// What is typed runs the script that adds it to the active field, as it is.
pub proof fn typing_reaches_the_page(
    method: &str,
    params: &Json,
    r: Result<InputPlan, String>,
    t: Seq<char>,
)
    requires
        call_ensures(input::handle, (method, params), r),
        method@ == "dispatchKeyEvent"@,
        params@.get("type"@) == Some(JsonView::Str("char"@)),
        params@.get("text"@) == Some(JsonView::Str(t)),
        t.len() > 0,
        forall|i: int| 0 <= i < t.len() ==> (#[trigger] t[i]) != '\n' && t[i] != '\r',
    ensures
        r is Ok && r->Ok_0.needs_page && r->Ok_0.steps@.len() == 2,
        r->Ok_0.steps@[0] is Evaluate && input_laws::types_text(
            r->Ok_0.steps@[0]->Evaluate_0@,
            t,
        ),
        r->Ok_0.steps@[1] == PageStep::Settle(50),
{
    input_laws::characters_are_typed(params@, t);
    let steps = r->Ok_0.steps@;
    assert(input::step_views(steps).len() == steps.len());
    assert(input::step_views(steps)[0] == steps[0]@);
    assert(input::step_views(steps)[1] == steps[1]@);
}

/// Input that is not known is an error that names it, and touch does nothing.
pub proof fn input_is_handled(method: &str, params: &Json, r: Result<InputPlan, String>)
    requires
        call_ensures(input::handle, (method, params), r),
    ensures
        method@ != "dispatchMouseEvent"@ && method@ != "dispatchKeyEvent"@ && method@
            != "dispatchTouchEvent"@ && method@ != "setIgnoreInputEvents"@ ==> r is Err && r->Err_0@
            == "Unknown Input method: "@ + method@,
        method@ == "dispatchTouchEvent"@ || method@ == "setIgnoreInputEvents"@ ==> r is Ok
            && !r->Ok_0.needs_page && r->Ok_0.steps@.len() == 0,
        method@ == "dispatchKeyEvent"@ ==> r is Ok && r->Ok_0.needs_page,
        method@ == "dispatchMouseEvent"@ && params@.get("type"@) == Some(
            JsonView::Str("mousePressed"@),
        ) ==> r is Ok && r->Ok_0.needs_page && r->Ok_0.steps@.len() == 2 && r->Ok_0.steps@[0]
            is Evaluate && r->Ok_0.steps@[1] is ProcessPendingNavigation,
{
    input_laws::other_input_is_refused(method@, params@);
    input_laws::key_events_need_a_page(params@);
    if params@.get("type"@) == Some(JsonView::Str("mousePressed"@)) {
        input_laws::the_mouse_is_pressed(params@);
    }
    if r is Ok {
        let steps = r->Ok_0.steps@;
        assert(input::step_views(steps).len() == steps.len());
        if steps.len() == 2 {
            assert(input::step_views(steps)[0] == steps[0]@);
            assert(input::step_views(steps)[1] == steps[1]@);
        }
    }
}

/// A connection that does not start with `GET ` is a web socket; of one that does the first lines
/// tell what it is for.
pub proof fn connections_are_told_apart(head: &[u8], peeked: &[u8], r: Endpoint)
    requires
        call_ensures(http::handle_connection, (head, peeked), r),
    ensures
        head@ != seq![71u8, 69u8, 84u8, 32u8] ==> r == Endpoint::WebSocket,
        head@ == seq![71u8, 69u8, 84u8, 32u8] && text::has_text(
            text::lossy(peeked@),
            "/json/version"@,
        ) ==> r == Endpoint::Version,
        head@ == seq![71u8, 69u8, 84u8, 32u8] && !text::has_text(text::lossy(peeked@), "/json"@)
            ==> r == Endpoint::WebSocket,
{
    server_laws::connections_tell_what_they_are_for(
        Seq::empty(),
        Seq::empty(),
        text::lossy(peeked@),
    );
}

/// A client's decision ends the wait of the request that it names, is what the method says, and is
/// answered with nothing.
pub proof fn decisions_are_taken(
    req: &CdpRequest,
    paused: &mut Vec<String>,
    r: Option<FetchResolution>,
    id: Seq<char>,
)
    requires
        call_ensures(server::resolve_fetch, (req, paused), r),
        req.params@.get("requestId"@) == Some(JsonView::Str(id)),
    ensures
        text::texts(final(paused)@) == text::texts(old(paused)@).filter(|s: Seq<char>| s != id),
        !text::texts(old(paused)@).contains(id) ==> r is None,
        text::texts(old(paused)@).contains(id) ==> r is Some && r->0.request_id@ == id,
        text::texts(old(paused)@).contains(id) && req.method@ == "Fetch.continueRequest"@ ==> (
        r->0.resolution matches Some(InterceptResolution::Continue { url, method, headers, body })
            && url is None && method is None && headers is None && body is None),
        text::texts(old(paused)@).contains(id) && req.method@ == "Fetch.failRequest"@ ==> (
        r->0.resolution matches Some(InterceptResolution::Fail { reason }) && (req.params@.get(
            "errorReason"@,
        ) is None ==> reason@ == "Failed"@)),
        text::texts(old(paused)@).contains(id) && req.method@ == "Fetch.fulfillRequest"@ ==> (
        r->0.resolution matches Some(InterceptResolution::Fulfill { status, headers, body }) && (
        req.params@.get("responseCode"@) is None ==> status == 200)),
{
    server_laws::waits_are_ended(req@, text::texts(old(paused)@), id);
    server_laws::clients_decide(req@.method, req@.params);
}

/// What is done with a message that comes while a navigation waits.
pub proof fn messages_are_kept(
    p: &mut CdpProcessor,
    t: String,
    client: u64,
    parsed: Option<CdpRequest>,
    r: Meanwhile,
)
    requires
        call_ensures(CdpProcessor::resolve_or_wait, (p, t, client, parsed), r),
    ensures
        server::is_decision(t@) ==> r is Resolve && final(p)@.deferred == old(p)@.deferred,
        !server::is_decision(t@) && old(p)@.deferred.len() < 256 ==> r is Deferred
            && final(p)@.deferred.len() == old(p)@.deferred.len() + 1 && final(p)@.deferred.last()
            == (server::MessageView::Cdp { text: t@, client }),
        !server::is_decision(t@) && old(p)@.deferred.len() >= 256 ==> r is Send && final(p)@
            == old(p)@,
        !server::is_decision(t@) && old(p)@.deferred.len() >= 256 && parsed is None ==> r
            == Meanwhile::Send(None),
        !server::is_decision(t@) && old(p)@.deferred.len() >= 256 && parsed is Some ==> r->Send_0
            is Some,
        final(p)@.ctx == old(p)@.ctx,
{
    server_laws::messages_wait(old(p)@, t@, client, types::opt_request(parsed));
}

/// What has waited longest goes first.
pub proof fn messages_go_in_order(p: &mut CdpProcessor, r: Option<ServerMessage>)
    requires
        call_ensures(CdpProcessor::next_deferred, (p,), r),
    ensures
        old(p)@.deferred.len() == 0 ==> r is None && final(p)@ == old(p)@,
        old(p)@.deferred.len() > 0 ==> r is Some && seq![r->0@] + final(p)@.deferred == old(
            p,
        )@.deferred,
{
    if old(p)@.deferred.len() > 0 {
        assert(seq![r->0@] + final(p)@.deferred =~= old(p)@.deferred);
    }
}

/// A message that names the closing of the browser closes the connection; a request that is
/// answered at once is answered, and anything else is put in line.
pub proof fn texts_of_clients_are_taken(t: &str, parsed: Option<CdpRequest>, r: ClientAction)
    requires
        call_ensures(server::answer_client, (t, parsed), r),
    ensures
        text::has_text(t@, "\"Browser.close\""@) ==> r is Close && (r->Close_0 is Some <==> parsed
            is Some),
        !text::has_text(t@, "\"Browser.close\""@) && parsed is None ==> r is Forward,
        !text::has_text(t@, "\"Browser.close\""@) && parsed is Some && parsed->0.method@
            == "Page.navigate"@ ==> r is Forward,
        !text::has_text(t@, "\"Browser.close\""@) && parsed is Some && (parsed->0.method@
            == "Page.enable"@ || parsed->0.method@ == "Network.enable"@ || parsed->0.method@
            == "Browser.getVersion"@) ==> r is Reply,
{
    server_laws::idle_methods_are_answered();
    server_laws::known_answers_are_given(Seq::empty());
    server_laws::navigation_waits_in_line();
    if parsed is Some {
        let q = parsed->0@;
        let v = match server::fast_result(q.method) {
            Some(v) => v,
            None => JsonView::Null,
        };
        server_laws::clients_are_answered(t@, q, v, Seq::empty(), Seq::empty());
    }
}

/// The greeting is kept from the client, and nothing else that does not name it.
pub proof fn greetings_are_hidden(t: &str, r: bool)
    requires
        call_ensures(server::is_hidden, (t,), r),
    ensures
        r <==> text::has_text(t@, "\"__init\""@),
{
}

/// A client is told the events that came of its request, in their order, and only then the answer.
pub proof fn answers_come_last(ctx: &mut CdpContext, a: &CdpResponse, r: Vec<String>)
    requires
        call_ensures(server::message_replies, (ctx, a), r),
    ensures
        r@.len() == old(ctx)@.pending_events.len() + 1,
        r@.last()@ == json::json_text(a@.to_json()),
        forall|i: int|
            0 <= i < old(ctx)@.pending_events.len() ==> (#[trigger] r@[i])@ == json::json_text(
                old(ctx)@.pending_events[i].to_json(),
            ),
        final(ctx)@.pending_events.len() == 0,
{
    dispatch_laws::lists_keep_their_order(Seq::empty(), old(ctx)@.pending_events);
    dispatch_laws::answers_are_told(a@);
    let v = text::texts(r@);
    assert(v.len() == r@.len());
    assert(v[r@.len() - 1] == r@[r@.len() - 1]@);
    assert forall|i: int| 0 <= i < old(ctx)@.pending_events.len() implies (#[trigger] r@[i])@
        == json::json_text(old(ctx)@.pending_events[i].to_json()) by {
        assert(v[i] == r@[i]@);
        assert(dispatch::event_texts(old(ctx)@.pending_events)[i] == v[i]);
    }
}

/// The strictest of some conditions is one of them that none is stricter than, and where there are
/// none it is that the page has loaded.
pub proof fn the_strictest_is_chosen(v: &Vec<WaitUntil>, r: WaitUntil)
    requires
        call_ensures(navigation::strictest, (v,), r),
    ensures
        v@.len() == 0 ==> r == WaitUntil::Load,
        v@.len() > 0 ==> v@.contains(r),
        v@.contains(WaitUntil::NetworkIdle0) ==> r == WaitUntil::NetworkIdle0,
        v@.contains(WaitUntil::NetworkIdle2) && !v@.contains(WaitUntil::NetworkIdle0) ==> r
            == WaitUntil::NetworkIdle2,
        v@.contains(WaitUntil::Load) && !v@.contains(WaitUntil::NetworkIdle0) && !v@.contains(
            WaitUntil::NetworkIdle2,
        ) ==> r == WaitUntil::Load,
{
    if v@.contains(WaitUntil::NetworkIdle0) {
        let i = choose|i: int| 0 <= i < v@.len() && v@[i] == WaitUntil::NetworkIdle0;
        assert(navigation::strictness(v@[i]) <= navigation::strictness(r));
    } else if v@.contains(WaitUntil::NetworkIdle2) {
        let i = choose|i: int| 0 <= i < v@.len() && v@[i] == WaitUntil::NetworkIdle2;
        assert(navigation::strictness(v@[i]) <= navigation::strictness(r));
    } else if v@.contains(WaitUntil::Load) {
        let i = choose|i: int| 0 <= i < v@.len() && v@[i] == WaitUntil::Load;
        assert(navigation::strictness(v@[i]) <= navigation::strictness(r));
    }
}

/// What loads a document has a name of `loader-` and 36 characters.
pub proof fn loaders_are_named(r: String)
    requires
        call_ensures(navigation::new_loader_id, (), r),
    ensures
        r@.len() == 43,
        r@.take(7) == "loader-"@,
{
    reveal_strlit("loader-");
    assert("loader-"@.len() == 7);
    assert(r@.take(7) =~= r@.subrange(0, 7));
}

/// A navigation takes its page out, to the URL that is asked for, and its page comes back behind the
/// others when it ends.
pub proof fn navigations_begin(
    ctx: &mut CdpContext,
    req: CdpRequest,
    loader: String,
    r: Option<Navigation>,
)
    requires
        call_ensures(navigation::start_navigation, (ctx, req, loader), r),
    ensures
        old(ctx)@.session_page(text::opt(req.session_id)) is None ==> r is None && final(ctx)@
            == old(ctx)@,
        old(ctx)@.session_page(text::opt(req.session_id)) matches Some(i) ==> {
            &&& r is Some
            &&& r->0.id == req.id && r->0.loader_id@ == loader@
            &&& text::opt(r->0.session_id) == text::opt(req.session_id)
            &&& r->0.page@ == old(ctx)@.pages[i]
            &&& match req.params@.get("url"@) {
                Some(JsonView::Str(u)) => r->0.url@ == u,
                _ => r->0.url@.len() == 0,
            }
            &&& r->0.asks == old(ctx)@.has_intercept_tx
            &&& final(ctx)@.sessions == old(ctx)@.sessions
        },
{
    let i = match old(ctx)@.session_page(text::opt(req.session_id)) {
        Some(i) => i,
        None => 0,
    };
    navigation_laws::navigations_start(req@, old(ctx)@, loader@, i);
}

/// When a navigation ends its page stands behind the others, as it was but for its engine, and the
/// first thing that the client is told is the answer.
pub proof fn navigations_finish(
    n: Navigation,
    ctx: &mut CdpContext,
    has_js: bool,
    a: &Arrival,
    r: Vec<String>,
)
    requires
        call_ensures(Navigation::finish, (n, ctx, has_js, a), r),
    ensures
        ({
            let before = old(ctx)@.pages;
            let after = final(ctx)@.pages;
            &&& after.len() == before.len() + 1 && after.drop_last() == before
            &&& after.last().id == n.page.id@ && after.last().frame_id == n.page.frame_id@
            &&& after.last().has_js == has_js
            &&& r@.len() >= 11 + 3 * a.network@.len()
            &&& r@[0]@ == types::response_text(n@.response(a@.outcome))
        }),
{
    navigation_laws::clients_are_told_of_arrival(n@, a@);
    let before = old(ctx)@.pages;
    assert(before.push(final(ctx)@.pages.last()).drop_last() =~= before);
    assert(text::texts(r@).len() == r@.len());
    assert(text::texts(r@)[0] == r@[0]@);
    assert(a@.network.len() == a.network@.len());
}

/// A request of a page that waits is told to the client in two events, and waits under its name.
pub proof fn waiting_requests_reach_clients(
    n: &Navigation,
    paused: &mut Vec<String>,
    q: &InterceptedRequest,
    timestamp: Json,
    wall_time: Json,
    r: (String, String),
)
    requires
        call_ensures(Navigation::on_intercepted, (n, paused, q, timestamp, wall_time), r),
    ensures
        text::texts(final(paused)@).contains(q.request_id@),
        exists|j: JsonView|
            r.0@ == #[trigger] json::json_text(j) && j.get("method"@) == Some(
                JsonView::Str("Network.requestWillBeSent"@),
            ),
        exists|j: JsonView|
            r.1@ == #[trigger] json::json_text(j) && j.get("method"@) == Some(
                JsonView::Str("Fetch.requestPaused"@),
            ),
{
    navigation_laws::waiting_requests_are_announced(n@, q@, timestamp@, wall_time@);
    navigation_laws::waiting_requests_are_told(n@, q@);
    navigation_laws::waiting_requests_are_kept(text::texts(old(paused)@), q.request_id@);
    assert(r.0@ == json::json_text(n@.will_be_sent(q@, timestamp@, wall_time@)));
    assert(r.1@ == json::json_text(n@.request_paused(q@)));
}

/// A message is routed by what it is: a client that connects is greeted, a navigation is intercepted
/// where its client decides about requests, and anything else is processed.
pub proof fn messages_are_routed(p: &mut CdpProcessor, m: &ServerMessage, r: Route)
    requires
        call_ensures(CdpProcessor::route, (p, m), r),
    ensures
        m is NewConnection ==> r is Send && final(p)@ == old(p)@,
        (m matches ServerMessage::Cdp { text: t, client } ==> {
            let goes = text::has_text(t@, "Page.navigate"@) && old(p)@.ctx.fetch_intercept_enabled;
            &&& goes ==> r is Intercept && final(p)@ == old(p)@
            &&& !goes ==> r is Process
            &&& !goes && !text::has_text(t@, "Fetch."@) ==> final(p)@ == old(p)@ && r->Process_0
                is None
        }),
        final(p)@.ctx == old(p)@.ctx && final(p)@.deferred == old(p)@.deferred,
{
}

/// A context has the settings that it is made with, and nothing else yet.
pub proof fn contexts_are_made(
    proxy: Option<String>,
    stealth: bool,
    user_agent: Option<String>,
    dir: Option<String>,
    files: bool,
    a: CdpContext,
    b: CdpContext,
    c: CdpContext,
)
    requires
        call_ensures(CdpContext::new_with_storage, (proxy, stealth, user_agent, dir), a),
        call_ensures(CdpContext::new_with_security, (proxy, stealth, user_agent, files), b),
        call_ensures(CdpContext::new, (), c),
    ensures
        a@.default_context.proxy == text::opt(proxy) && a@.default_context.stealth == stealth,
        a@.default_context.user_agent == text::opt(user_agent) && a@.default_context.storage_dir
            == text::opt(dir),
        !a@.default_context.allow_file_access && a@.default_context.id == "default"@,
        b@.default_context.proxy == text::opt(proxy) && b@.default_context.stealth == stealth,
        b@.default_context.user_agent == text::opt(user_agent) && b@.default_context.storage_dir
            is None && b@.default_context.allow_file_access == files,
        c@.default_context.proxy is None && !c@.default_context.stealth
            && c@.default_context.user_agent is None && c@.default_context.storage_dir is None
            && !c@.default_context.allow_file_access,
        a@.pages.len() == 0 && a@.sessions.len() == 0 && a@.page_counter == 0
            && a@.pending_events.len() == 0 && !a@.fetch_intercept_enabled && !a@.has_intercept_tx,
{
}

/// A server starts without pages, and its pages can ask about requests.
pub proof fn servers_are_made(
    proxy: Option<String>,
    stealth: bool,
    user_agent: Option<String>,
    dir: Option<String>,
    p: CdpProcessor,
)
    requires
        call_ensures(CdpProcessor::new, (proxy, stealth, user_agent, dir), p),
    ensures
        p@.ctx.has_intercept_tx && !p@.ctx.fetch_intercept_enabled,
        p@.ctx.pages.len() == 0 && p@.deferred.len() == 0 && p@.paused.len() == 0,
        p@.ctx.default_context.proxy == text::opt(proxy) && p@.ctx.default_context.stealth
            == stealth && p@.ctx.default_context.user_agent == text::opt(user_agent)
            && p@.ctx.default_context.storage_dir == text::opt(dir),
{
}

/// A page that comes back stands behind the others, and what a client wants of requests is kept.
pub proof fn contexts_are_changed(ctx: &mut CdpContext, page: Page)
    requires
        call_ensures(CdpContext::return_page, (ctx, page), ()),
    ensures
        final(ctx)@.pages.len() == old(ctx)@.pages.len() + 1,
        final(ctx)@.pages.last() == page@,
        final(ctx)@.pages.drop_last() == old(ctx)@.pages,
        final(ctx)@.sessions == old(ctx)@.sessions,
{
    assert(old(ctx)@.pages.push(page@).drop_last() =~= old(ctx)@.pages);
}

/// A client decides about requests from when it says so.
pub proof fn interception_is_set(ctx: &mut CdpContext, on: bool)
    requires
        call_ensures(CdpContext::set_intercepts, (ctx, on), ()),
    ensures
        final(ctx)@.fetch_intercept_enabled == on,
        final(ctx)@.has_intercept_tx == old(ctx)@.has_intercept_tx && final(ctx)@.pages == old(
            ctx,
        )@.pages,
{
}

/// Putting every page to sleep tells the names of those that were awake.
pub proof fn all_pages_are_put_to_sleep(ctx: &mut CdpContext, r: Vec<String>)
    requires
        call_ensures(CdpContext::suspend_all, (ctx,), r),
    ensures
        final(ctx)@.pages.len() == old(ctx)@.pages.len(),
        forall|i: int|
            0 <= i < old(ctx)@.pages.len() ==> !(#[trigger] final(ctx)@.pages[i]).has_js
                && final(ctx)@.pages[i].id == old(ctx)@.pages[i].id,
        (forall|i: int| 0 <= i < old(ctx)@.pages.len() ==> !(#[trigger] old(ctx)@.pages[i]).has_js)
            ==> r@.len() == 0,
{
    let pages = old(ctx)@.pages;
    dispatch_laws::others_are_put_to_sleep(pages, Seq::empty(), arbitrary());
    assert forall|i: int| 0 <= i < pages.len() implies !(
    #[trigger] final(ctx)@.pages[i]).has_js && final(ctx)@.pages[i].id == pages[i].id by {
        assert(final(ctx)@.pages[i] == dispatch::all_asleep(pages)[i]);
    }
    assert(text::texts(r@).len() == r@.len());
    if forall|i: int| 0 <= i < pages.len() ==> !(#[trigger] pages[i]).has_js {
        sleepers_have_no_names(pages);
    }
}

proof fn sleepers_have_no_names(pages: Seq<dispatch::PageView>)
    requires
        forall|i: int| 0 <= i < pages.len() ==> !(#[trigger] pages[i]).has_js,
    ensures
        dispatch::live_names(pages).len() == 0,
    decreases pages.len(),
{
    if pages.len() > 0 {
        let rest = pages.drop_last();
        assert(!pages[pages.len() - 1].has_js);
        assert forall|i: int| 0 <= i < rest.len() implies !(#[trigger] rest[i]).has_js by {
            assert(rest[i] == pages[i]);
        }
        sleepers_have_no_names(rest);
    }
}

/// A text is taken as the request that it is.
pub proof fn requests_are_parsed(t: &str, r: Option<CdpRequest>, v: &Json, q: Option<CdpRequest>)
    requires
        call_ensures(CdpRequest::parse, (t,), r),
        call_ensures(CdpRequest::of_json, (v,), q),
    ensures
        (q matches Some(x) ==> v@.get("id"@) == Some(JsonView::UInt(x.id)) && v@.get("method"@)
            == Some(JsonView::Str(x.method@))),
        (q matches Some(x) ==> (x.session_id is Some ==> v@.get("sessionId"@) == Some(
            JsonView::Str(x.session_id->0@),
        ))),
        (q matches Some(x) ==> (v@.get("params"@) is Some ==> x.params@ == v@.get("params"@)->0)),
        q is None ==> !(v@.get("id"@) matches Some(JsonView::UInt(n))) || !(v@.get(
            "method"@,
        ) matches Some(JsonView::Str(s))) || v@.get("sessionId"@) is Some,
        json::json_parsed(t@) == Ok::<JsonView, Seq<char>>(v@) ==> (r is Some <==> q is Some),
        json::json_parsed(t@) is Err ==> r is None,
{
    dispatch_laws::requests_are_read(v@);
}

/// A client that connects while a navigation waits is told the page and the session that are made
/// for it.
pub proof fn connections_get_pages(p: &mut CdpProcessor, m: ServerMessage, r: Meanwhile)
    requires
        call_ensures(CdpProcessor::on_message, (p, m), r),
        m is NewConnection,
        old(p)@.ctx.page_counter < u32::MAX,
        assoc::distinct(old(p)@.ctx.sessions),
    ensures
        r is Send && r->Send_0 is Some,
        final(p)@.ctx.pages.len() == old(p)@.ctx.pages.len() + 1,
        ({
            let page = final(p)@.ctx.pages.last();
            let session = page.id + "-session"@;
            &&& assoc::lookup(final(p)@.ctx.sessions, session) == Some(page.id)
            &&& exists|j: JsonView|
                r->Send_0->0@ == #[trigger] json::json_text(j) && j.get("pageId"@) == Some(
                    JsonView::Str(page.id),
                ) && j.get("sessionId"@) == Some(JsonView::Str(session))
        }),
        final(p)@.deferred == old(p)@.deferred,
{
    let page = final(p)@.ctx.pages.last();
    let session = page.id + "-session"@;
    assoc::with_sets(old(p)@.ctx.sessions, session, page.id, session);
    server_laws::clients_are_greeted(page.id, session);
    assert(r->Send_0->0@ == json::json_text(server::greeting_with_page(page.id, session)));
}

/// A request that is answered at once is answered under its number and to its session, and one that
/// is not waits.
pub proof fn fast_requests_are_answered(req: &CdpRequest, r: Option<CdpResponse>)
    requires
        call_ensures(server::fast_answer, (req,), r),
    ensures
        (r matches Some(a) ==> a.id == req.id && text::opt(a.session_id) == text::opt(
            req.session_id,
        ) && a.error is None && a.result is Some),
        req.method@ == "Page.enable"@ ==> r is Some && r->0.result->0@ == JsonView::Object(
            Seq::empty(),
        ),
        req.method@ == "Target.setAutoAttach"@ ==> r is Some,
        req.method@ == "Browser.getVersion"@ ==> r is Some && r->0.result->0@.get("product"@)
            == Some(JsonView::Str("Obscura/0.1.0"@)),
        req.method@ == "Page.navigate"@ ==> r is None,
{
    server_laws::idle_methods_are_answered();
    server_laws::known_answers_are_given(Seq::empty());
    server_laws::navigation_waits_in_line();
}

/// The page whose scripts may have asked for another document is that of the session.
pub proof fn pending_pages_are_found(ctx: &CdpContext, session: &Option<String>, r: Option<String>)
    requires
        call_ensures(server::check_pending_navigation, (ctx, session), r),
    ensures
        *session is None ==> r is None,
        r is Some ==> *session is Some && assoc::lookup(ctx@.sessions, session->0@) == Some(r->0@),
{
    if *session is Some {
        if let Some(id) = assoc::lookup(ctx@.sessions, session->0@) {
            dispatch::page_index_is_first(ctx@.pages, id);
        }
    }
}

/// A message starts a navigation where it is a request and its session has a page.
pub proof fn messages_start_navigations(
    ctx: &mut CdpContext,
    t: &str,
    loader: String,
    r: InterceptStart,
)
    requires
        call_ensures(navigation::process_with_interception, (ctx, t, loader), r),
    ensures
        types::parsed_request(t@) is None ==> r is Nothing && final(ctx)@ == old(ctx)@,
        (types::parsed_request(t@) matches Some(q) ==> (old(ctx)@.session_page(
            q.session_id,
        ) is None ==> r is Process && final(ctx)@ == old(ctx)@)),
        (types::parsed_request(t@) matches Some(q) ==> (old(ctx)@.session_page(
            q.session_id,
        ) is Some ==> (r matches InterceptStart::Navigate(n) && n.id == q.id && n.loader_id@
            == loader@))),
{
    if let Some(q) = types::parsed_request(t@) {
        let i = match old(ctx)@.session_page(q.session_id) {
            Some(i) => i,
            None => 0,
        };
        navigation_laws::navigations_start(q, old(ctx)@, loader@, i);
    }
}

/// What a script asked for is a request to navigate there.
pub proof fn script_navigations_are_requests(
    session: &Option<String>,
    u: &str,
    method: &str,
    body: &str,
    r: CdpRequest,
)
    requires
        call_ensures(server::navigation_request, (session, u, method, body), r),
    ensures
        r.id == 0 && r.method@ == "Page.navigate"@ && text::opt(r.session_id) == text::opt(
            *session,
        ),
        r.params@.get("url"@) == Some(JsonView::Str(u@)),
        r.params@.get("__method"@) == Some(JsonView::Str(method@)),
        r.params@.get("__body"@) == Some(JsonView::Str(body@)),
{
    server_laws::scripts_navigate(text::opt(*session), u@, method@, body@);
}

/// What is told over HTTP ends in the body, which is JSON of the version where that is asked for.
pub proof fn http_is_answered(port: u16, endpoint: &str, r: String)
    requires
        call_ensures(http::handle_http_json, (port, endpoint), r),
    ensures
        ({
            let body = http::endpoint_body(port, endpoint@);
            r@
                == "HTTP/1.1 200 OK\r\nContent-Type: application/json; charset=utf-8\r\nContent-Length: "@
                + text::decimal_text(vstd::utf8::encode_utf8(body).len())
                + "\r\nConnection: close\r\n\r\n"@ + body
        }),
{
}

/// Answers and events are told as JSON.
pub proof fn answers_are_written(a: &CdpResponse, s: String, e: &CdpEvent, t: String)
    requires
        call_ensures(CdpResponse::to_text, (a,), s),
        call_ensures(CdpEvent::to_text, (e,), t),
    ensures
        exists|j: JsonView|
            s@ == #[trigger] json::json_text(j) && j.get("id"@) == Some(JsonView::UInt(a.id)) && (
            a.result is Some ==> j.get("result"@) == Some(a.result->0@)) && (a.error is None
                ==> j.get("error"@) is None) && (a.session_id is Some ==> j.get("sessionId"@)
                == Some(JsonView::Str(a.session_id->0@))),
        exists|j: JsonView|
            t@ == #[trigger] json::json_text(j) && j.get("method"@) == Some(
                JsonView::Str(e.method@),
            ) && j.get("params"@) == Some(e.params@) && (e.session_id is Some ==> j.get(
                "sessionId"@,
            ) == Some(JsonView::Str(e.session_id->0@))),
{
    dispatch_laws::answers_are_told(a@);
    dispatch_laws::events_are_told(e@);
    assert(s@ == json::json_text(a@.to_json()));
    assert(t@ == json::json_text(e@.to_json()));
}

/// Answers and events are what they are made of.
pub proof fn answers_are_made(
    id: u64,
    v: Json,
    session: Option<String>,
    a: CdpResponse,
    code: i64,
    message: String,
    b: CdpResponse,
)
    requires
        call_ensures(CdpResponse::success, (id, v, session), a),
        call_ensures(CdpResponse::error, (id, code, message, session), b),
    ensures
        a.id == id && a.result is Some && a.result->0@ == v@ && a.error is None,
        b.id == id && b.result is None && b.error is Some && b.error->0.code == code
            && b.error->0.message@ == message@,
        text::opt(a.session_id) == text::opt(session) && text::opt(b.session_id) == text::opt(
            session,
        ),
{
}

/// A context has the settings that it is made with; the others are left out.
pub proof fn contexts_have_settings(
    proxy: Option<String>,
    stealth: bool,
    user_agent: Option<String>,
    a: CdpContext,
    b: CdpContext,
    c: CdpContext,
)
    requires
        call_ensures(CdpContext::new_with_proxy, (proxy,), a),
        call_ensures(CdpContext::new_with_options, (proxy, stealth), b),
        call_ensures(CdpContext::new_with_full_options, (proxy, stealth, user_agent), c),
    ensures
        a@.default_context.proxy == text::opt(proxy) && !a@.default_context.stealth
            && a@.default_context.user_agent is None && a@.default_context.storage_dir is None
            && !a@.default_context.allow_file_access,
        b@.default_context.proxy == text::opt(proxy) && b@.default_context.stealth == stealth
            && b@.default_context.user_agent is None && b@.default_context.storage_dir is None
            && !b@.default_context.allow_file_access,
        c@.default_context.proxy == text::opt(proxy) && c@.default_context.stealth == stealth
            && c@.default_context.user_agent == text::opt(user_agent)
            && c@.default_context.storage_dir is None && !c@.default_context.allow_file_access,
        a@.pages.len() == 0 && b@.pages.len() == 0 && c@.pages.len() == 0,
        a@.page_counter == 0 && b@.page_counter == 0 && c@.page_counter == 0,
{
}

/// A context tells what it was set to.
pub proof fn contexts_tell_their_state(ctx: &CdpContext, room: bool, on: bool, asks: bool)
    requires
        call_ensures(CdpContext::can_create_page, (ctx,), room),
        call_ensures(CdpContext::intercepts, (ctx,), on),
        call_ensures(CdpContext::can_ask, (ctx,), asks),
    ensures
        room <==> ctx@.page_counter < 0xffff_ffff,
        on == ctx@.fetch_intercept_enabled,
        asks == ctx@.has_intercept_tx,
{
}

/// A context that lets its pages ask does so from then on, and nothing else of it changes.
pub proof fn contexts_let_pages_ask(ctx: &mut CdpContext)
    requires
        call_ensures(CdpContext::let_ask, (ctx,), ()),
    ensures
        final(ctx)@.has_intercept_tx,
        final(ctx)@.fetch_intercept_enabled == old(ctx)@.fetch_intercept_enabled
            && final(ctx)@.pages == old(ctx)@.pages && final(ctx)@.sessions == old(ctx)@.sessions
            && final(ctx)@.page_counter == old(ctx)@.page_counter && final(ctx)@.pending_events
            == old(ctx)@.pending_events,
{
}

/// The page of a session is the first with the name that the session has, and no session has none.
pub proof fn sessions_lead_to_pages(
    ctx: &CdpContext,
    session: &Option<String>,
    p: Option<&Page>,
    n: Option<String>,
    i: int,
)
    requires
        call_ensures(CdpContext::get_session_page, (ctx, session), p),
        call_ensures(CdpContext::session_page_name, (ctx, session), n),
    ensures
        *session is None ==> p is None && n is None,
        (*session matches Some(s) ==> (n is Some <==> assoc::lookup(ctx@.sessions, s@) is Some) && (
        n is Some ==> assoc::lookup(ctx@.sessions, s@) == Some(n->0@))),
        n is None ==> p is None,
        p is Some ==> n is Some && p->0.id@ == n->0@,
        n is Some && 0 <= i < ctx@.pages.len() && ctx@.pages[i].id == n->0@ ==> p is Some,
        n is Some && 0 <= i < ctx@.pages.len() && ctx@.pages[i].id == n->0@ && (forall|j: int|
            0 <= j < i ==> (#[trigger] ctx@.pages[j]).id != n->0@) ==> p->0@ == ctx@.pages[i],
{
    if n is Some {
        dispatch::page_index_is_first(ctx@.pages, n->0@);
    }
}

/// The scripts that a document starts with are those that were given, in their order.
pub proof fn documents_start_with_scripts(ctx: &CdpContext, r: Vec<String>, i: int)
    requires
        call_ensures(CdpContext::preload_sources, (ctx,), r),
    ensures
        r@.len() == ctx@.preload_scripts.len(),
        0 <= i < r@.len() ==> r@[i]@ == ctx@.preload_scripts[i].1,
{
    assert(text::texts(r@).len() == r@.len());
    if 0 <= i < r@.len() {
        assert(text::texts(r@)[i] == r@[i]@);
    }
}

/// A message that is read as a request is that request, and is answered at once just where the
/// request is.
pub proof fn messages_are_read(t: &str, r: Option<CdpRequest>, s: Option<String>, a: ClientAction)
    requires
        call_ensures(server::process_cdp_message, (t,), r),
        call_ensures(server::fast_path_response, (t,), s),
        call_ensures(server::on_client_text, (t,), a),
    ensures
        r is Some <==> types::parsed_request(t@) is Some,
        r is Some ==> Some(r->0@) == types::parsed_request(t@),
        r is None ==> s is None,
        (r matches Some(q) ==> q.method@ == "Page.navigate"@ ==> s is None),
        (r matches Some(q) ==> q.method@ == "Page.enable"@ ==> s is Some),
        text::has_text(t@, "\"Browser.close\""@) ==> a is Close,
        !text::has_text(t@, "\"Browser.close\""@) && s is Some ==> (a matches ClientAction::Reply(
            x,
        ) && x@ == s->0@),
        !text::has_text(t@, "\"Browser.close\""@) && s is None ==> a is Forward,
{
    server_laws::idle_methods_are_answered();
    server_laws::navigation_waits_in_line();
}

/// A message that decides ends the wait of the request that it names; one that is no request ends
/// none.
pub proof fn texts_decide(
    t: &str,
    paused: &mut Vec<String>,
    r: Option<FetchResolution>,
    id: Seq<char>,
)
    requires
        call_ensures(server::handle_fetch_resolution, (t, paused), r),
    ensures
        types::parsed_request(t@) is None ==> r is None && final(paused)@ == old(paused)@,
        (types::parsed_request(t@) matches Some(q) ==> q.params.get("requestId"@) == Some(
            JsonView::Str(id),
        ) ==> text::texts(final(paused)@) == text::texts(old(paused)@).filter(
            |s: Seq<char>| s != id,
        ) && (r is Some <==> text::texts(old(paused)@).contains(id)) && (r is Some
            ==> r->0.request_id@ == id)),
{
    if let Some(q) = types::parsed_request(t@) {
        if q.params.get("requestId"@) == Some(JsonView::Str(id)) {
            server_laws::waits_are_ended(q, text::texts(old(paused)@), id);
        }
    }
}

/// An address that names the version is that, whatever else stands with it.
pub proof fn addresses_are_found(line: &str, r: Endpoint, a: Seq<char>, b: Seq<char>)
    requires
        call_ensures(http::find_endpoint, (line,), r),
    ensures
        line@ == a + "/json/version"@ + b ==> r is Version,
        line@ == a + "/json/list"@ + b && !text::has_text(line@, "/json/version"@) ==> r is List,
{
    server_laws::connections_tell_what_they_are_for(a, b, line@);
}

} // verus!
