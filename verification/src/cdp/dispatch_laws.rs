//! What holds of every request that a client makes.

use vstd::prelude::*;
use vstd::string::*;

use crate::assoc;
use crate::cdp::dispatch::{self, ContextView, OptionsView, PageView, StepView};
use crate::cdp::types::{self, EventView, RequestView, ResponseView};
use crate::json::{self, JsonView};
use crate::text;

verus! {

/// How some names are spelled: enough to tell them apart.
spec fn domains_differ_spelled() -> bool {
    &&& "Target"@.len() == 6
    &&& "Browser"@.len() == 7
    &&& "Page"@.len() == 4
    &&& "DOM"@.len() == 3
    &&& "Runtime"@.len() == 7
    &&& "Network"@.len() == 7
    &&& "Fetch"@.len() == 5
    &&& "Input"@.len() == 5
    &&& "Storage"@.len() == 7
    &&& "LP"@.len() == 2
    &&& "Accessibility"@.len() == 13
    &&& "Emulation"@.len() == 9
    &&& "Log"@.len() == 3
    &&& "Performance"@.len() == 11
    &&& "Security"@.len() == 8
    &&& "CSS"@.len() == 3
    &&& "ServiceWorker"@.len() == 13
    &&& "Inspector"@.len() == 9
    &&& "Debugger"@.len() == 8
    &&& "Profiler"@.len() == 8
    &&& "HeapProfiler"@.len() == 12
    &&& "Overlay"@.len() == 7
    &&& "Audits"@.len() == 6
    &&& "Target"@[0] == 'T'
    &&& "Audits"@[0] == 'A'
    &&& "Browser"@[0] == 'B'
    &&& "Runtime"@[0] == 'R'
    &&& "Network"@[0] == 'N'
    &&& "Storage"@[0] == 'S'
    &&& "Overlay"@[0] == 'O'
    &&& "DOM"@[0] == 'D'
    &&& "Log"@[0] == 'L'
    &&& "CSS"@[0] == 'C'
    &&& "Fetch"@[0] == 'F'
    &&& "Input"@[0] == 'I'
    &&& "Accessibility"@[0] == 'A'
    &&& "ServiceWorker"@[0] == 'S'
    &&& "Emulation"@[0] == 'E'
    &&& "Inspector"@[0] == 'I'
    &&& "Security"@[0] == 'S'
    &&& "Debugger"@[0] == 'D'
    &&& "Profiler"@[0] == 'P'
}

#[verifier::spinoff_prover]
proof fn domains_differ()
    ensures
        domains_differ_spelled(),
{
    reveal_strlit("Target");
    reveal_strlit("Browser");
    reveal_strlit("Page");
    reveal_strlit("DOM");
    reveal_strlit("Runtime");
    reveal_strlit("Network");
    reveal_strlit("Fetch");
    reveal_strlit("Input");
    reveal_strlit("Storage");
    reveal_strlit("LP");
    reveal_strlit("Accessibility");
    reveal_strlit("Emulation");
    reveal_strlit("Log");
    reveal_strlit("Performance");
    reveal_strlit("Security");
    reveal_strlit("CSS");
    reveal_strlit("ServiceWorker");
    reveal_strlit("Inspector");
    reveal_strlit("Debugger");
    reveal_strlit("Profiler");
    reveal_strlit("HeapProfiler");
    reveal_strlit("Overlay");
    reveal_strlit("Audits");
}

/// No dot stands in the names of the domains.
proof fn domains_have_no_dot()
    ensures
        !"Target"@.contains('.'),
        !"Browser"@.contains('.'),
        !"Page"@.contains('.'),
        !"DOM"@.contains('.'),
        !"Runtime"@.contains('.'),
        !"Network"@.contains('.'),
        !"Fetch"@.contains('.'),
        !"Input"@.contains('.'),
        !"Storage"@.contains('.'),
        !"LP"@.contains('.'),
        !"Accessibility"@.contains('.'),
        !"Emulation"@.contains('.'),
        !"Log"@.contains('.'),
        !"Performance"@.contains('.'),
        !"Security"@.contains('.'),
        !"CSS"@.contains('.'),
        !"ServiceWorker"@.contains('.'),
        !"Inspector"@.contains('.'),
        !"Debugger"@.contains('.'),
        !"Profiler"@.contains('.'),
        !"HeapProfiler"@.contains('.'),
        !"Overlay"@.contains('.'),
        !"Audits"@.contains('.'),
{
    reveal_strlit("Target");
    reveal_strlit("Browser");
    reveal_strlit("Page");
    reveal_strlit("DOM");
    reveal_strlit("Runtime");
    reveal_strlit("Network");
    reveal_strlit("Fetch");
    reveal_strlit("Input");
    reveal_strlit("Storage");
    reveal_strlit("LP");
    reveal_strlit("Accessibility");
    reveal_strlit("Emulation");
    reveal_strlit("Log");
    reveal_strlit("Performance");
    reveal_strlit("Security");
    reveal_strlit("CSS");
    reveal_strlit("ServiceWorker");
    reveal_strlit("Inspector");
    reveal_strlit("Debugger");
    reveal_strlit("Profiler");
    reveal_strlit("HeapProfiler");
    reveal_strlit("Overlay");
    reveal_strlit("Audits");
}

proof fn steps_by_domain(q: RequestView, d: Seq<char>, m: Seq<char>)
    requires
        !d.contains('.'),
        d != "Target"@ || m != "sendMessageToTarget"@,
    ensures
        q.method == d + seq!['.'] + m ==> q.method != "Target.sendMessageToTarget"@
            && text::split_first(q.method, '.') == Some((d, m)),
{
    text::split_at_first(d, '.', m);
    let t = "Target"@;
    let s = "sendMessageToTarget"@;
    reveal_strlit("Target");
    reveal_strlit("sendMessageToTarget");
    reveal_strlit("Target.sendMessageToTarget");
    assert(t + seq!['.'] + s =~= "Target.sendMessageToTarget"@);
    assert(!t.contains('.'));
    text::split_at_first(t, '.', s);
}

/// Whether an answer is an error with a code and a message, and no result.
pub open spec fn fails_with(r: ResponseView, code: int, message: Seq<char>) -> bool {
    &&& r.result is None
    &&& r.error is Some && r.error->0.code == code && r.error->0.message == message
}

/// Whether a request for any method of a domain goes to the handler of that domain.
pub open spec fn goes_to_its_handler(q: RequestView, d: Seq<char>, m: Seq<char>) -> bool {
    q.method == d + seq!['.'] + m ==> q.step() == (StepView::Handle { domain: d, method: m })
}

/// A request for a method of one of the eleven domains that have a handler goes there, whatever
/// the method is; only a wrapped request goes elsewhere.
pub proof fn handled_domains_are_handled(q: RequestView, m: Seq<char>)
    ensures
        m != "sendMessageToTarget"@ ==> goes_to_its_handler(q, "Target"@, m),
        goes_to_its_handler(q, "Browser"@, m),
        goes_to_its_handler(q, "Page"@, m),
        goes_to_its_handler(q, "DOM"@, m),
        goes_to_its_handler(q, "Runtime"@, m),
        goes_to_its_handler(q, "Network"@, m),
        goes_to_its_handler(q, "Fetch"@, m),
        goes_to_its_handler(q, "Input"@, m),
        goes_to_its_handler(q, "Storage"@, m),
        goes_to_its_handler(q, "LP"@, m),
        goes_to_its_handler(q, "Accessibility"@, m),
{
    domains_have_no_dot();
    if m != "sendMessageToTarget"@ {
        steps_by_domain(q, "Target"@, m);
    }
    domains_differ();
    steps_by_domain(q, "Browser"@, m);
    steps_by_domain(q, "Page"@, m);
    steps_by_domain(q, "DOM"@, m);
    steps_by_domain(q, "Runtime"@, m);
    steps_by_domain(q, "Network"@, m);
    steps_by_domain(q, "Fetch"@, m);
    steps_by_domain(q, "Input"@, m);
    steps_by_domain(q, "Storage"@, m);
    steps_by_domain(q, "LP"@, m);
    steps_by_domain(q, "Accessibility"@, m);
}

/// A request for a method of one of the twelve domains that do nothing is answered with an empty
/// object, whatever the method is.
pub proof fn idle_domains_do_nothing(q: RequestView, m: Seq<char>)
    ensures
        is_taken_quietly(q, "Emulation"@, m),
        is_taken_quietly(q, "Log"@, m),
        is_taken_quietly(q, "Performance"@, m),
        is_taken_quietly(q, "Security"@, m),
        is_taken_quietly(q, "CSS"@, m),
        is_taken_quietly(q, "ServiceWorker"@, m),
        is_taken_quietly(q, "Inspector"@, m),
        is_taken_quietly(q, "Debugger"@, m),
        is_taken_quietly(q, "Profiler"@, m),
        is_taken_quietly(q, "HeapProfiler"@, m),
        is_taken_quietly(q, "Overlay"@, m),
        is_taken_quietly(q, "Audits"@, m),
{
    domains_have_no_dot();
    domains_differ();
    steps_by_domain(q, "Emulation"@, m);
    steps_by_domain(q, "Log"@, m);
    steps_by_domain(q, "Performance"@, m);
    steps_by_domain(q, "Security"@, m);
    steps_by_domain(q, "CSS"@, m);
    steps_by_domain(q, "ServiceWorker"@, m);
    steps_by_domain(q, "Inspector"@, m);
    steps_by_domain(q, "Debugger"@, m);
    steps_by_domain(q, "Profiler"@, m);
    steps_by_domain(q, "HeapProfiler"@, m);
    steps_by_domain(q, "Overlay"@, m);
    steps_by_domain(q, "Audits"@, m);
}

/// Whether a request for any method of a domain is answered with an empty object.
pub open spec fn is_taken_quietly(q: RequestView, d: Seq<char>, m: Seq<char>) -> bool {
    q.method == d + seq!['.'] + m ==> {
        &&& q.step() matches StepView::Reply(r)
        &&& r.id == q.id && r.session_id == q.session_id
        &&& r.result == Some(JsonView::Object(Seq::empty())) && r.error is None
    }
}

/// A request for a method of any other domain, or without a domain, is refused with error -32601,
/// which names what was asked for.
pub proof fn other_domains_are_refused(q: RequestView, d: Seq<char>, m: Seq<char>)
    requires
        !d.contains('.'),
        d != "Target"@,
        d != "Browser"@,
        d != "Page"@,
        d != "DOM"@,
        d != "Runtime"@,
        d != "Network"@,
        d != "Fetch"@,
        d != "Input"@,
        d != "Storage"@,
        d != "LP"@,
        d != "Accessibility"@,
        d != "Emulation"@,
        d != "Log"@,
        d != "Performance"@,
        d != "Security"@,
        d != "CSS"@,
        d != "ServiceWorker"@,
        d != "Inspector"@,
        d != "Debugger"@,
        d != "Profiler"@,
        d != "HeapProfiler"@,
        d != "Overlay"@,
        d != "Audits"@,
    ensures
        q.method == d + seq!['.'] + m ==> {
            &&& q.step() matches StepView::Reply(r)
            &&& r.id == q.id && r.session_id == q.session_id
            &&& fails_with(r, -32601, "Unknown domain: "@ + d)
        },
        q.method == d ==> {
            &&& q.step() matches StepView::Reply(r)
            &&& r.id == q.id && r.session_id == q.session_id
            &&& fails_with(r, -32601, "Invalid method format: "@ + d)
        },
{
    steps_by_domain(q, d, m);
    text::split_at_first(d, '.', m);
    if d == "Target.sendMessageToTarget"@ {
        reveal_strlit("Target.sendMessageToTarget");
        assert(d[6] == '.');
    }
}

/// A request that wraps another needs a text to read it from; without one it is refused with error
/// -32602, and with one that is a request that request goes first.
pub proof fn wrapped_requests_are_read(q: RequestView, t: Seq<char>)
    requires
        q.method == "Target.sendMessageToTarget"@,
    ensures
        q.params.get_str("message"@) is None ==> {
            &&& q.step() matches StepView::Reply(r)
            &&& r.id == q.id && r.session_id == q.session_id
            &&& fails_with(r, -32602, "sendMessageToTarget requires a message string"@)
        },
        q.params.get_str("message"@) == Some(t) ==> match types::parsed_request(t) {
            Some(inner) => q.step() == q.unwrapped(Ok(inner)),
            None => q.step() == StepView::Unread(t),
        },
{
}

/// A wrapped request goes on as it is, for the session that the wrapper names or else for its
/// own; a text that is none is refused with error -32700 and the reason.
pub proof fn wrapped_requests_go_first(q: RequestView, inner: RequestView, e: Seq<char>)
    ensures
        ({
            &&& q.unwrapped(Ok(inner)) matches StepView::Inner(r)
            &&& r.id == inner.id && r.method == inner.method && r.params == inner.params
            &&& match q.params.get("sessionId"@) {
                Some(JsonView::Str(s)) => r.session_id == Some(s),
                _ => r.session_id == inner.session_id,
            }
        }),
        ({
            &&& q.unwrapped(Err(e)) matches StepView::Reply(r)
            &&& r.id == q.id && r.session_id == q.session_id
            &&& fails_with(r, -32700, "sendMessageToTarget message is not a valid CDP request: "@ + e)
        }),
{
}

/// What a handler gives is the result of the answer, and why it failed is the error, with code
/// -32601; the answer goes to the session that asked, under the number of the request.
pub proof fn outcomes_are_answered(q: RequestView, v: JsonView, e: Seq<char>)
    ensures
        q.answered(Ok(v)).result == Some(v),
        q.answered(Ok(v)).error is None,
        fails_with(q.answered(Err(e)), -32601, e),
        q.answered(Ok(v)).id == q.id && q.answered(Err(e)).id == q.id,
        q.answered(Ok(v)).session_id == q.session_id,
        q.answered(Err(e)).session_id == q.session_id,
{
}

/// How some names are spelled: enough to tell them apart.
spec fn member_names_differ_spelled() -> bool {
    &&& "id"@.len() == 2
    &&& "method"@.len() == 6
    &&& "params"@.len() == 6
    &&& "sessionId"@.len() == 9
    &&& "result"@.len() == 6
    &&& "error"@.len() == 5
    &&& "code"@.len() == 4
    &&& "message"@.len() == 7
    &&& "targetId"@.len() == 8
    &&& "method"@[0] == 'm'
    &&& "params"@[0] == 'p'
    &&& "result"@[0] == 'r'
}

#[verifier::spinoff_prover]
proof fn member_names_differ()
    ensures
        member_names_differ_spelled(),
{
    reveal_strlit("id");
    reveal_strlit("method");
    reveal_strlit("params");
    reveal_strlit("sessionId");
    reveal_strlit("result");
    reveal_strlit("error");
    reveal_strlit("code");
    reveal_strlit("message");
    reveal_strlit("targetId");
}

/// The answer to a wrapped request is told in an event to the session that wrapped it, under the
/// session that the wrapper names.
pub proof fn wrapped_answers_are_told(q: RequestView, inner: ResponseView)
    ensures
        ({
            let e = q.inner_event(inner);
            let session = match q.params.get("sessionId"@) {
                Some(JsonView::Str(s)) => s,
                _ => Seq::empty(),
            };
            &&& e.method == "Target.receivedMessageFromTarget"@
            &&& e.session_id == q.session_id
            &&& e.params.get("sessionId"@) == Some(JsonView::Str(session))
            &&& e.params.get("targetId"@) == Some(JsonView::Str(session))
            &&& e.params.get("message"@) == Some(
                JsonView::Str(json::json_text(inner.to_json())),
            )
        }),
{
    member_names_differ();
    json::object_is_keyed();
    let session = match q.target_session() {
        Some(s) => s,
        None => Seq::empty(),
    };
    let a = JsonView::object();
    let b = a.put("sessionId"@, JsonView::Str(session));
    let m = JsonView::Str(json::json_text(inner.to_json()));
    json::put_sets(a, "sessionId"@, JsonView::Str(session));
    json::put_sets(b, "message"@, m);
    json::put_sets(b.put("message"@, m), "targetId"@, JsonView::Str(session));
}

/// A request has a number from zero on under `id` and a text under `method`; what stands under
/// `params` are its parameters, and `sessionId`, where it is there, is a text or nothing.
pub proof fn requests_are_read(v: JsonView)
    ensures
        match types::request_of(v) {
            Some(q) => {
                &&& v.get("id"@) == Some(JsonView::UInt(q.id))
                &&& v.get("method"@) == Some(JsonView::Str(q.method))
                &&& match v.get("params"@) {
                    Some(p) => q.params == p,
                    None => q.params is Null,
                }
                &&& match v.get("sessionId"@) {
                    Some(s) => match q.session_id {
                        Some(t) => s == JsonView::Str(t),
                        None => s is Null,
                    },
                    None => q.session_id is None,
                }
            },
            None => {
                ||| !(v.get("id"@) matches Some(JsonView::UInt(n)))
                ||| !(v.get("method"@) matches Some(JsonView::Str(t)))
                ||| (v.get("sessionId"@) matches Some(s) && !(s is Null) && !(s is Str))
            },
        },
{
}

/// A text is the request that its JSON is, and none where it is no JSON.
pub proof fn texts_are_read_as_requests(t: Seq<char>)
    ensures
        match json::json_parsed(t) {
            Ok(v) => types::parsed_request(t) == types::request_of(v),
            Err(_) => types::parsed_request(t) is None,
        },
{
}

/// An answer told as JSON has the number of the request under `id`, the result under `result`,
/// the error under `error` with its code and its message, and the session under `sessionId`.
pub proof fn answers_are_told(r: ResponseView)
    ensures
        ({
            let j = r.to_json();
            &&& j.keyed()
            &&& j.get("id"@) == Some(JsonView::UInt(r.id))
            &&& j.get("result"@) == r.result
            &&& match r.session_id {
                Some(s) => j.get("sessionId"@) == Some(JsonView::Str(s)),
                None => j.get("sessionId"@) is None,
            }
            &&& match r.error {
                Some(e) => {
                    &&& j.get("error"@) matches Some(k)
                    &&& k.get("message"@) == Some(JsonView::Str(e.message))
                    &&& e.code < 0 ==> k.get("code"@) == Some(JsonView::Int(e.code))
                    &&& e.code >= 0 ==> k.get("code"@) == Some(JsonView::UInt(e.code as u64))
                },
                None => j.get("error"@) is None,
            }
            &&& types::response_text(r) == json::json_text(j)
        }),
{
    member_names_differ();
    json::object_is_keyed();
    let a = JsonView::object();
    json::put_sets(a, "id"@, JsonView::UInt(r.id));
    let b = a.put("id"@, JsonView::UInt(r.id));
    let c = match r.result {
        Some(v) => {
            json::put_sets(b, "result"@, v);
            b.put("result"@, v)
        },
        None => b,
    };
    let d = match r.error {
        Some(e) => {
            json::put_sets(a, "code"@, types::int_view(e.code));
            json::put_sets(
                a.put("code"@, types::int_view(e.code)),
                "message"@,
                JsonView::Str(e.message),
            );
            json::put_sets(c, "error"@, e.to_json());
            c.put("error"@, e.to_json())
        },
        None => c,
    };
    if let Some(s) = r.session_id {
        json::put_sets(d, "sessionId"@, JsonView::Str(s));
    }
}

/// An event told as JSON has its name under `method`, what it tells under `params`, and the
/// session under `sessionId`.
pub proof fn events_are_told(e: EventView)
    ensures
        ({
            let j = e.to_json();
            &&& j.keyed()
            &&& j.get("method"@) == Some(JsonView::Str(e.method))
            &&& j.get("params"@) == Some(e.params)
            &&& match e.session_id {
                Some(s) => j.get("sessionId"@) == Some(JsonView::Str(s)),
                None => j.get("sessionId"@) is None,
            }
            &&& j.get("id"@) is None
            &&& e.to_text() == json::json_text(j)
        }),
{
    member_names_differ();
    json::object_is_keyed();
    let a = JsonView::object();
    let b = a.put("method"@, JsonView::Str(e.method));
    json::put_sets(a, "method"@, JsonView::Str(e.method));
    json::put_sets(b, "params"@, e.params);
    if let Some(s) = e.session_id {
        json::put_sets(b.put("params"@, e.params), "sessionId"@, JsonView::Str(s));
    }
}

/// A new context has no pages and no sessions, waits to send nothing, knows two script contexts,
/// and does not intercept requests.
pub proof fn new_contexts_are_empty(o: OptionsView)
    ensures
        ({
            let c = ContextView::fresh(o);
            &&& c.pages.len() == 0 && c.sessions.len() == 0 && c.pending_events.len() == 0
            &&& c.default_context == o && c.page_counter == 0 && c.preload_counter == 0
            &&& c.preload_scripts.len() == 0 && c.isolated_worlds.len() == 0
            &&& c.valid_context_ids.len() == 2 && c.valid_context_ids[0] == 1
                && c.valid_context_ids[1] == 2
            &&& !c.fetch_intercept_enabled && !c.has_intercept_tx
        }),
{
}

/// The settings of the default context are those that were given, under the name `default`.
pub proof fn settings_are_kept(
    proxy: Option<Seq<char>>,
    stealth: bool,
    user_agent: Option<Seq<char>>,
    storage_dir: Option<Seq<char>>,
    allow_file_access: bool,
)
    ensures
        ({
            let o = dispatch::default_options(
                proxy,
                stealth,
                user_agent,
                storage_dir,
                allow_file_access,
            );
            &&& o.id == "default"@ && o.proxy == proxy && o.stealth == stealth
            &&& o.user_agent == user_agent && o.storage_dir == storage_dir
            &&& o.allow_file_access == allow_file_access
        }),
{
}

/// A page goes by `page-` and its number.
pub proof fn pages_are_numbered(n: nat)
    ensures
        dispatch::page_name(n) == seq!['p', 'a', 'g', 'e', '-'] + text::decimal_text(n),
{
    reveal_strlit("page-");
    assert("page-"@ =~= seq!['p', 'a', 'g', 'e', '-']);
}

/// A session is for the page that it was made for, and no session for none.
pub proof fn sessions_have_pages(c: ContextView, s: Seq<char>, id: Seq<char>, i: int)
    requires
        assoc::distinct(c.sessions),
    ensures
        c.session_page_name(None) is None,
        c.session_page(None) is None,
        (ContextView { sessions: assoc::with(c.sessions, s, id), ..c }).session_page_name(Some(s))
            == Some(id),
        c.session_page_name(Some(s)) == Some(id) && 0 <= i < c.pages.len() && c.pages[i].id == id
            && (forall|j: int| 0 <= j < i ==> (#[trigger] c.pages[j]).id != id)
            ==> c.session_page(Some(s)) == Some(i),
        c.session_page_name(Some(s)) == Some(id) && (forall|j: int|
            0 <= j < c.pages.len() ==> (#[trigger] c.pages[j]).id != id) ==> c.session_page(
            Some(s),
        ) is None,
        dispatch::name_at(c.pages, None) is None,
        0 <= i < c.pages.len() ==> dispatch::name_at(c.pages, Some(i)) == Some(c.pages[i].id),
{
    assoc::with_sets(c.sessions, s, id, s);
    dispatch::page_index_is_first(c.pages, id);
}

/// Taking out a page keeps all pages of other names, as they are and in their order, and none of
/// its name.
pub proof fn removing_keeps_the_others(pages: Seq<PageView>, id: Seq<char>)
    ensures
        dispatch::pages_without(pages, id) == pages.filter(|p: PageView| p.id != id),
    decreases pages.len(),
{
    reveal(Seq::filter);
    if pages.len() > 0 {
        removing_keeps_the_others(pages.drop_last(), id);
    }
}

/// Getting a page ready puts every other page to sleep and changes nothing else of any page; the
/// pages that are put to sleep are those that were awake, in their order.
pub proof fn others_are_put_to_sleep(pages: Seq<PageView>, id: Seq<char>, p: PageView)
    ensures
        dispatch::others_asleep(pages, id).len() == pages.len(),
        dispatch::all_asleep(pages).len() == pages.len(),
        forall|i: int|
            0 <= i < pages.len() ==> {
                let q = #[trigger] dispatch::others_asleep(pages, id)[i];
                &&& q.id == pages[i].id && q.frame_id == pages[i].frame_id
                &&& pages[i].id == id ==> q.has_js == pages[i].has_js
                &&& pages[i].id != id ==> !q.has_js
            },
        forall|i: int|
            0 <= i < pages.len() ==> {
                let q = #[trigger] dispatch::all_asleep(pages)[i];
                q.id == pages[i].id && q.frame_id == pages[i].frame_id && !q.has_js
            },
        dispatch::other_live_names(Seq::empty(), id).len() == 0,
        dispatch::live_names(Seq::empty()).len() == 0,
        p.has_js && p.id != id ==> dispatch::other_live_names(pages.push(p), id)
            == dispatch::other_live_names(pages, id).push(p.id),
        !p.has_js || p.id == id ==> dispatch::other_live_names(pages.push(p), id)
            == dispatch::other_live_names(pages, id),
        p.has_js ==> dispatch::live_names(pages.push(p)) == dispatch::live_names(pages).push(p.id),
        !p.has_js ==> dispatch::live_names(pages.push(p)) == dispatch::live_names(pages),
        p.has_js ==> dispatch::live_with_name(pages.push(p), p.id),
        (forall|i: int|
            0 <= i < pages.len() ==> !((#[trigger] pages[i]).has_js && pages[i].id == id))
            == !dispatch::live_with_name(pages, id),
{
    let more = pages.push(p);
    assert(more.drop_last() =~= pages);
    if p.has_js {
        assert(more[pages.len() as int] == p);
    }
}

/// The scripts that run before those of a page are the sources that were given, in their order,
/// and events are told as the texts that they are, in their order.
pub proof fn lists_keep_their_order(v: Seq<(Seq<char>, Seq<char>)>, e: Seq<EventView>)
    ensures
        dispatch::sources(v).len() == v.len(),
        forall|i: int| 0 <= i < v.len() ==> #[trigger] dispatch::sources(v)[i] == v[i].1,
        dispatch::event_texts(e).len() == e.len(),
        forall|i: int|
            0 <= i < e.len() ==> #[trigger] dispatch::event_texts(e)[i] == json::json_text(
                e[i].to_json(),
            ),
{
}

} // verus!
