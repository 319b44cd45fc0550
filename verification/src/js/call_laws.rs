//! What the functions for page scripts give back, whatever they are called with.

use vstd::prelude::*;
use vstd::string::*;

use crate::assoc::{self, StringMap};
use crate::base64;
use crate::js::dom::{DomTree, NodeView};
use crate::js::dom_laws;
use crate::js::dom_ops::{self, DomAnswer, DomCall, DomOutcome};
use crate::js::fetch::{self, Admission, FetchCall, ScriptFetch, ScriptRequest};
use crate::js::fetch_laws;
use crate::js::ops::{self, ClientSettings, ConsoleLevel, PortEdit, UrlEdit};
use crate::js::ops_laws;
use crate::js::state::{InterceptResolution, ObscuraState, StateView};
use crate::json::{self, Json, JsonView};
use crate::net::policy;
use crate::net::url::{self, UrlHost, UrlRecord, UrlView};
use crate::text;

verus! {

/// What the tree is asked for and told by each command of a script, where there is a document.
pub proof fn commands_reach_the_tree(
    state: &ObscuraState,
    cmd: &str,
    arg1: &str,
    arg2: &str,
    r: DomOutcome,
)
    requires
        call_ensures(dom_ops::op_dom_inner, (state, cmd, arg1, arg2), r),
        state.dom is Some,
    ensures
        ({
            let n = dom_ops::id_of(arg1@);
            let m = dom_ops::id_of(arg2@);
            &&& cmd@ == "get_element_by_id"@ ==> (r matches DomOutcome::Call(
                DomCall::GetElementById(t),
            ) && t@ == arg1@)
            &&& cmd@ == "query_selector"@ ==> (r matches DomOutcome::Call(
                DomCall::QuerySelector(t),
            ) && t@ == arg1@)
            &&& cmd@ == "query_selector_all"@ ==> (r matches DomOutcome::Call(
                DomCall::QuerySelectorAll(t),
            ) && t@ == arg1@)
            &&& cmd@ == "query_selector_scoped"@ ==> (r matches DomOutcome::Call(
                DomCall::QuerySelectorFrom(k, t),
            ) && k == n && t@ == arg2@)
            &&& cmd@ == "query_selector_all_scoped"@ ==> (r matches DomOutcome::Call(
                DomCall::QuerySelectorAllFrom(k, t),
            ) && k == n && t@ == arg2@)
            &&& cmd@ == "text_content"@ ==> r == DomOutcome::Call(DomCall::TextContent(n))
            &&& cmd@ == "inner_html"@ ==> r == DomOutcome::Call(DomCall::InnerHtml(n))
            &&& cmd@ == "outer_html"@ ==> r == DomOutcome::Call(DomCall::OuterHtml(n))
            &&& cmd@ == "append_child"@ ==> r == DomOutcome::Call(
                DomCall::AppendChild { parent: n, child: m },
            )
            &&& cmd@ == "remove_child"@ ==> r == DomOutcome::Call(DomCall::RemoveChild(n))
            &&& cmd@ == "insert_before"@ ==> r == DomOutcome::Call(
                DomCall::InsertBefore { reference: m, new_node: n },
            )
            &&& cmd@ == "contains"@ ==> r == DomOutcome::Call(
                DomCall::Descendants { node: n, wanted: m },
            )
            &&& cmd@ == "create_document_fragment"@ ==> r == DomOutcome::Call(
                DomCall::CreateDocumentFragment,
            )
            &&& cmd@ == "create_element"@ ==> (r matches DomOutcome::Call(
                DomCall::CreateElement(t),
            ) && t@ == arg1@)
            &&& cmd@ == "create_text_node"@ ==> (r matches DomOutcome::Call(
                DomCall::CreateTextNode(t),
            ) && t@ == arg1@)
            &&& cmd@ == "create_comment_node"@ ==> (r matches DomOutcome::Call(
                DomCall::CreateComment(t),
            ) && t@ == arg1@)
            &&& cmd@ == "create_processing_instruction"@ ==> (r matches DomOutcome::Call(
                DomCall::CreateProcessingInstruction { target, data },
            ) && target@ == arg1@ && data@ == arg2@)
            &&& cmd@ == "create_doctype"@ ==> (r matches DomOutcome::Call(
                DomCall::CreateDoctype { name, public_id },
            ) && name@ == arg1@ && public_id@ == arg2@)
        }),
{
    let d = state.dom->0@;
    let n = dom_ops::id_of(arg1@);
    let m = dom_ops::id_of(arg2@);
    dom_laws::searches_reach_the_tree(state@, d, n, m, arg1@, arg2@, arg1@, arg2@);
    dom_laws::searches_reach_the_tree(state@, d, n, m, arg2@, arg2@, arg1@, arg2@);
    dom_laws::contents_are_asked_for(state@, d, n, arg2@, arg1@);
    dom_laws::nodes_are_moved(state@, d, n, m, arg1@, arg2@);
    dom_laws::nodes_are_made(state@, d, arg1@, arg2@);
}

/// What a command that changes a node with a number asks the tree to do.
pub proof fn changes_reach_the_tree(
    state: &ObscuraState,
    cmd: &str,
    arg1: &str,
    arg2: &str,
    r: DomOutcome,
    x: NodeView,
)
    requires
        call_ensures(dom_ops::op_dom_inner, (state, cmd, arg1, arg2), r),
        state.dom is Some,
        state.dom->0@.node(dom_ops::id_of(arg1@)) == Some(x),
    ensures
        ({
            let n = dom_ops::id_of(arg1@);
            &&& cmd@ == "set_inner_html"@ ==> (r matches DomOutcome::Call(
                DomCall::ReplaceChildren { node, detach, html },
            ) && node == n && detach@ == x.children && (arg2@.len() == 0 ==> html is None) && (
            arg2@.len() > 0 ==> html is Some && html->0@ == arg2@))
            &&& cmd@ == "set_text_content"@ && (x.data is Text || x.data is Comment
                || x.data is ProcessingInstruction) ==> (r matches DomOutcome::Call(
                DomCall::SetCharacterData { node, data },
            ) && node == n && data@ == arg2@)
            &&& cmd@ == "set_text_content"@ && (x.data is Element || x.data is Document
                || x.data is Doctype) ==> (r matches DomOutcome::Reply(t) && t@ == "true"@)
            &&& cmd@ == "remove_attribute"@ && x.data is Element ==> (r matches DomOutcome::Call(
                DomCall::KeepAttributes { node, places },
            ) && node == n)
            &&& cmd@ == "remove_attribute"@ && !(x.data is Element) ==> (
            r matches DomOutcome::Reply(t) && t@ == "true"@)
        }),
{
    let d = state.dom->0@;
    let n = dom_ops::id_of(arg1@);
    dom_laws::nodes_are_found_by_number(d, n);
    dom_laws::contents_are_replaced(state@, d, n, x, arg2@, arg1@);
    if x.data is Element {
        dom_laws::removing_names_the_node(state@, d, n, x, arg2@, arg1@);
    }
}

/// Setting an attribute of a node tells the tree its name and its value, which a null character
/// parts, and of the id apart.
pub proof fn attributes_reach_the_tree(
    state: &ObscuraState,
    cmd: &str,
    arg1: &str,
    arg2: &str,
    r: DomOutcome,
    name: Seq<char>,
    value: Seq<char>,
)
    requires
        call_ensures(dom_ops::op_dom_inner, (state, cmd, arg1, arg2), r),
        state.dom is Some,
        state.dom->0@.node(dom_ops::id_of(arg1@)) is Some,
        cmd@ == "set_attribute"@,
        !name.contains('\0'),
        arg2@ == name + seq!['\0'] + value,
    ensures
        name != "id"@ ==> (r matches DomOutcome::Call(
            DomCall::SetAttribute { node, name: k, value: v },
        ) && node == dom_ops::id_of(arg1@) && k@ == name && v@ == value),
        name == "id"@ ==> (r matches DomOutcome::Call(DomCall::SetId { node, old_id, value: v })
            && node == dom_ops::id_of(arg1@) && v@ == value),
{
    let d = state.dom->0@;
    let n = dom_ops::id_of(arg1@);
    let x = d.node(n)->0;
    dom_laws::nodes_are_found_by_number(d, n);
    dom_laws::attributes_are_set(state@, d, n, x, name, value, arg1@);
    if name == "id"@ {
        dom_laws::setting_names_the_node(state@, d, n, x, name, value, arg1@);
    }
}

/// Without a document, and for what is no command, the reply is `null`; about the document itself
/// it is what the page has.
pub proof fn commands_are_answered(
    state: &ObscuraState,
    cmd: &str,
    arg1: &str,
    arg2: &str,
    r: DomOutcome,
)
    requires
        call_ensures(dom_ops::op_dom_inner, (state, cmd, arg1, arg2), r),
    ensures
        state.dom is None ==> (r matches DomOutcome::Reply(t) && t@ == "null"@),
        cmd@.len() > 29 ==> (r matches DomOutcome::Reply(t) && t@ == "null"@),
        state.dom is Some && cmd@ == "document_title"@ ==> (r matches DomOutcome::Reply(t) && t@
            == json::json_text(JsonView::Str(state.title@))),
        state.dom is Some && cmd@ == "document_url"@ ==> (r matches DomOutcome::Reply(t) && t@
            == json::json_text(JsonView::Str(state.url@))),
        state.dom is Some && cmd@ == "document_encoding"@ ==> (r matches DomOutcome::Reply(t) && t@
            == json::json_text(JsonView::Str(state.encoding@))),
{
    if cmd@.len() > 29 {
        dom_laws::long_names_are_no_commands(state@, cmd@, arg1@, arg2@);
    }
    if state.dom is Some {
        dom_laws::documents_describe_themselves(state@, state.dom->0@, arg1@, arg2@);
    }
}

/// The relatives of a node are told by their numbers, or minus one.
pub proof fn relatives_are_answered(
    state: &ObscuraState,
    cmd: &str,
    arg1: &str,
    arg2: &str,
    r: DomOutcome,
    x: NodeView,
)
    requires
        call_ensures(dom_ops::op_dom_inner, (state, cmd, arg1, arg2), r),
        state.dom is Some,
        state.dom->0@.node(dom_ops::id_of(arg1@)) == Some(x),
    ensures
        ({
            let told = |o: Option<u32>|
                r is Reply && r->Reply_0@ == if o is Some {
                    text::decimal_text(o->0 as nat)
                } else {
                    "-1"@
                };
            &&& cmd@ == "parent_node"@ ==> told(x.parent)
            &&& cmd@ == "first_child"@ ==> told(x.first_child)
            &&& cmd@ == "last_child"@ ==> told(x.last_child)
            &&& cmd@ == "next_sibling"@ ==> told(x.next_sibling)
            &&& cmd@ == "prev_sibling"@ ==> told(x.prev_sibling)
        }),
{
    let d = state.dom->0@;
    let n = dom_ops::id_of(arg1@);
    dom_laws::nodes_are_found_by_number(d, n);
    dom_laws::nodes_tell_their_relatives(state@, d, n, x, arg2@, arg1@);
}

/// What the tree found is passed on: a node by its number or minus one, contents as JSON, and that
/// a node is below another just where it is among those that were found there.
pub proof fn answers_are_passed_on(call: &DomCall, answer: &DomAnswer, r: String)
    requires
        call_ensures(dom_ops::dom_reply, (call, answer), r),
    ensures
        call is GetElementById || call is QuerySelector || call is QuerySelectorFrom
            || call is CreateDocumentFragment || call is CreateElement || call is CreateTextNode
            || call is CreateComment || call is CreateProcessingInstruction || call is CreateDoctype
            ==> r@ == if answer.node is Some {
            text::decimal_text(answer.node->0 as nat)
        } else {
            "-1"@
        },
        call is TextContent || call is InnerHtml || call is OuterHtml ==> r@ == json::json_text(
            JsonView::Str(answer.text@),
        ),
        (call matches DomCall::Descendants { node, wanted } ==> r@ == if answer.nodes@.contains(
            *wanted,
        ) {
            "true"@
        } else {
            "false"@
        }),
        call is AppendChild || call is RemoveChild || call is InsertBefore || call is SetAttribute
            || call is SetId || call is KeepAttributes || call is ReplaceChildren
            || call is SetCharacterData ==> r@ == "true"@,
{
}

/// The request that is sent for a script is the one on its way: with its method, to the URL that it
/// has got to, with its body unless that is empty, and with every header that the script set. One
/// request more is then on its way.
pub proof fn script_requests_are_sent(
    f: &ScriptFetch,
    state: &mut ObscuraState,
    cookies: &str,
    r: ScriptRequest,
)
    requires
        call_ensures(ScriptFetch::outgoing, (f, state, cookies), r),
    ensures
        r.method@ == f.method@,
        r.url@ == f.current_url@,
        f.body@.len() == 0 ==> r.body is None,
        f.body@.len() > 0 ==> r.body is Some && r.body->0@ == f.body@,
        forall|i: int|
            0 <= i < f.custom_headers@.len() ==> assoc::entry_views(r.headers@).contains(
                #[trigger] f.custom_headers@[i],
            ),
        r.headers@.len() <= f.custom_headers@.len() + 2,
        f.cross_origin ==> assoc::entry_views(r.headers@).contains(("Origin"@, f.page_origin@)),
        !f.cross_origin && cookies@.len() > 0 ==> assoc::entry_views(r.headers@).contains(
            ("Cookie"@, cookies@),
        ),
        old(state)@.http_client matches Some(c) ==> c.in_flight < u32::MAX
            ==> final(state)@.http_client is Some && final(state)@.http_client->0.in_flight
            == c.in_flight + 1,
        final(state)@.url == old(state)@.url && final(state)@.dom == old(state)@.dom,
{
    fetch_laws::headers_of_scripts_are_sent(f@, cookies@);
    fetch_laws::requests_tell_who_asks(f@, cookies@);
    fetch_laws::requests_are_counted(old(state)@);
    assert(assoc::entry_views(r.headers@).len() == r.headers@.len());
}

/// A redirect of a script's request that is followed leads to the target; after 301, 302 and 303 as
/// a `GET` without a body, and otherwise as before. Where it is not followed the request is left as
/// it was.
pub proof fn script_redirects_are_followed(
    f: &mut ScriptFetch,
    status: u16,
    next: &UrlRecord,
    host: &Option<UrlHost>,
    ip_forbidden: bool,
    r: Option<Json>,
)
    requires
        call_ensures(ScriptFetch::follow_to, (f, status, next, host, ip_forbidden), r),
    ensures
        ({
            let verdict = policy::verdict_for(
                next.scheme@,
                url::host_view(*host),
                old(f).allow_private,
                ip_forbidden,
            );
            &&& r is None <==> verdict is Ok && old(f).redirects < 10
            &&& r is Some ==> final(f)@ == old(f)@
            &&& r is None ==> final(f).current_url@ == next.href@ && final(f).redirects == old(
                f,
            ).redirects + 1
            &&& r is None && (status == 301 || status == 302 || status == 303)
                ==> final(f).method@ == "GET"@ && final(f).body@.len() == 0
            &&& r is None && status != 301 && status != 302 && status != 303
                ==> final(f).method@ == old(f).method@ && final(f).body@ == old(f).body@
            &&& final(f).url@ == old(f).url@ && final(f).custom_headers@ == old(f).custom_headers@
            &&& final(f).page_origin@ == old(f).page_origin@ && final(f).cors == old(f).cors
            &&& final(f).cross_origin == old(f).cross_origin && final(f).allow_private == old(
                f,
            ).allow_private
            &&& r is Some ==> r->0@.get("url"@) == Some(JsonView::Str(next.href@)) && r->0@.get(
                "blocked"@,
            ) == Some(JsonView::Bool(true)) && r->0@.get("status"@) == Some(JsonView::UInt(0))
        }),
{
    let h = url::host_view(*host);
    fetch_laws::redirects_of_scripts_are_followed(old(f)@, status, next@, h, ip_forbidden);
    fetch_laws::redirects_that_end_requests(old(f)@, status, next@, h, ip_forbidden);
}

/// A response leads a script's request on only with a status from 300 to 399 and a location.
pub proof fn script_responses_lead_on(
    f: &ScriptFetch,
    state: &mut ObscuraState,
    status: u16,
    location: Option<&str>,
    r: Option<UrlRecord>,
)
    requires
        call_ensures(ScriptFetch::redirect_target, (f, state, status, location), r),
    ensures
        status < 300 || status > 399 || location is None ==> r is None,
        300 <= status <= 399 && location is Some ==> match url::url_resolved(
            f.current_url@,
            location->0@,
        ) {
            Ok(u) => r is Some && r->0@ == u,
            Err(_) => r is None,
        },
        old(state)@.http_client matches Some(c) ==> c.in_flight > 0
            ==> final(state)@.http_client is Some && final(state)@.http_client->0.in_flight
            == c.in_flight - 1,
{
    fetch_laws::requests_are_counted(old(state)@);
}

/// The server is asked before a request just where the request leaves its origin under CORS with
/// another method than the three, or another header than the four, that any page may send.
pub proof fn script_requests_ask_first(f: &ScriptFetch, r: Option<Vec<(String, String)>>)
    requires
        call_ensures(ScriptFetch::preflight, (f,), r),
    ensures
        !f.cross_origin || !f.cors ==> r is None,
        f.cross_origin && f.cors && f.method@ != "GET"@ && f.method@ != "HEAD"@ && f.method@
            != "POST"@ ==> r is Some,
        f.custom_headers@.len() == 0 && (f.method@ == "GET"@ || f.method@ == "HEAD"@ || f.method@
            == "POST"@) ==> r is None,
        r is Some ==> {
            let h = assoc::entry_views(r->0@);
            &&& h.len() == 3
            &&& h[0] == ("Origin"@, f.page_origin@)
            &&& h[1] == ("Access-Control-Request-Method"@, f.asked_method@)
            &&& h[2].0 == "Access-Control-Request-Headers"@
        },
{
    fetch_laws::servers_are_asked_first(f@);
    fetch_laws::questions_tell_what_is_asked(f@);
}

/// A server that was asked allows the origin that it names, or every one by a star.
pub proof fn servers_answer_first(f: &ScriptFetch, allowed: Option<&str>, r: Result<(), String>)
    requires
        call_ensures(ScriptFetch::on_preflight, (f, allowed), r),
    ensures
        allowed is Some ==> (r is Ok <==> allowed->0@ == "*"@ || allowed->0@ == f.page_origin@),
        allowed is None && f.page_origin@.len() > 0 ==> r is Err,
        allowed is Some && r is Err ==> r->Err_0@ == "CORS preflight: Origin '"@ + f.page_origin@
            + "' not allowed by Access-Control-Allow-Origin '"@ + allowed->0@ + "'"@,
{
    reveal_strlit("*");
    assert("*"@.len() == 1);
}

/// What is told of requests that failed.
pub proof fn script_failures_are_told(
    f: &ScriptFetch,
    state: &mut ObscuraState,
    reason: &str,
    a: String,
    b: String,
)
    requires
        call_ensures(ScriptFetch::preflight_failed, (f, reason), a),
        call_ensures(ScriptFetch::send_failed, (f, state, reason), b),
    ensures
        a@ == "CORS preflight failed: "@ + reason@,
        b@ == reason@,
        old(state)@.http_client matches Some(c) ==> c.in_flight > 0
            ==> final(state)@.http_client is Some && final(state)@.http_client->0.in_flight
            == c.in_flight - 1,
{
    fetch_laws::requests_are_counted(old(state)@);
}

/// The reply to a script has the status, the body and the headers of the response where the script
/// may see it, and nothing of it otherwise.
pub proof fn scripts_are_answered(
    f: &ScriptFetch,
    status: u16,
    headers: &StringMap,
    body: &Vec<u8>,
    r: Json,
)
    requires
        call_ensures(ScriptFetch::reply, (f, status, headers, body), r),
    ensures
        r@.get("url"@) == Some(JsonView::Str(f.url@)),
        !f.cross_origin || !f.cors ==> r@.get("status"@) == Some(JsonView::UInt(status as u64)),
        !f.cross_origin || !f.cors ==> r@.get("body"@) == Some(
            JsonView::Str(text::lossy(body@)),
        ),
        !f.cross_origin || !f.cors ==> r@.get("bodyBase64"@) is Some && r@.get(
            "bodyBase64"@,
        )->0 is Str && base64::decoded(r@.get("bodyBase64"@)->0->Str_0) == body@,
        f.cross_origin && f.cors && f.page_origin@.len() > 0 && (forall|k: int|
            0 <= k < headers@.len() ==> (#[trigger] headers@[k]).0
                != "access-control-allow-origin"@) ==> r@.get("status"@) == Some(
            JsonView::UInt(0),
        ) && r@.get("corsBlocked"@) == Some(JsonView::Bool(true)) && r@.get("bodyBase64"@) is None,
{
    fetch_laws::scripts_see_what_servers_allow(f@, headers@, 0);
    fetch_laws::hidden_replies_tell_nothing(f@, headers@);
    fetch_laws::replies_tell_responses(f@, status, headers@, body@);
}

/// How a script's request starts.
pub proof fn script_requests_start(
    call: &FetchCall,
    u: &Option<UrlRecord>,
    headers: StringMap,
    allow_private: bool,
    r: ScriptFetch,
)
    requires
        call_ensures(ScriptFetch::begin, (call, u, headers, allow_private), r),
        *u is Some,
    ensures
        r.url@ == call.url@ && r.current_url@ == call.url@,
        r.asked_method@ == call.method@ && r.body@ == call.body@,
        r.custom_headers@ == headers@ && r.redirects == 0 && r.allow_private == allow_private,
        r.cors == (call.mode@ == "cors"@),
        call.method@.len() == 0 || call.method@.contains(' ') ==> r.method@ == "GET"@,
        call.method@.len() > 0 && (forall|i: int|
            0 <= i < call.method@.len() ==> 'A' <= #[trigger] call.method@[i] <= 'Z')
            ==> r.method@ == call.method@,
        call.origin@.len() == 0 ==> !r.cross_origin,
        call.origin@.len() > 0 ==> r.page_origin@ == call.origin@,
        call.origin@.len() > 0 && u->0.hostname is Some && u->0.port is None ==> r.cross_origin
            == (call.origin@ != u->0.scheme@ + seq![':', '/', '/'] + u->0.hostname->0@),
        call.origin@.len() > 0 && u->0.hostname is Some && u->0.port is Some ==> r.cross_origin
            == (call.origin@ != u->0.scheme@ + seq![':', '/', '/'] + u->0.hostname->0@ + seq![':']
            + text::decimal_text(u->0.port->0 as nat)),
{
    fetch_laws::requests_start_as_asked(call@, u->0@, headers@, allow_private);
}

/// What becomes of a script's request before it is sent.
pub proof fn script_requests_are_taken(
    state: &mut ObscuraState,
    call: &FetchCall,
    refused: &Option<String>,
    headers: StringMap,
    r: Admission,
)
    requires
        call_ensures(fetch::take_request, (state, call, refused, headers), r),
        old(state)@.intercept_counter < u64::MAX,
    ensures
        ({
            let s = old(state)@;
            let blocked = fetch::any_blocks(s.blocked_urls, call.url@);
            &&& *refused is Some ==> (r matches Admission::Reply(j) && j@.get("error"@) == Some(
                JsonView::Str(refused->0@),
            ) && j@.get("blocked"@) == Some(JsonView::Bool(true)) && j@.get("url"@) == Some(
                JsonView::Str(call.url@),
            ))
            &&& *refused is None && blocked ==> (r matches Admission::Reply(j) && j@.get(
                "blocked"@,
            ) == Some(JsonView::Bool(true)) && j@.get("error"@) is None)
            &&& *refused is None && !blocked && s.intercept_enabled && s.has_intercept_tx ==> (
            r matches Admission::Intercept(q) && q.url@ == call.url@ && q.method@ == call.method@
                && q.headers@ == headers@ && q.resource_type@ == "Fetch"@)
            &&& *refused is None && !blocked && !(s.intercept_enabled && s.has_intercept_tx)
                ==> r is Proceed
            &&& *refused is Some || blocked || !s.intercept_enabled ==> final(state)@ == s
            &&& *refused is None && !blocked && s.intercept_enabled
                ==> final(state)@.intercept_counter == s.intercept_counter + 1
        }),
{
    fetch_laws::requests_are_admitted(old(state)@, call@, text::opt(*refused), headers@);
}

/// A decision about a request that waits answers the script just where it fulfils or fails it.
pub proof fn decisions_answer_scripts(
    call: &FetchCall,
    resolution: Option<InterceptResolution>,
    r: Option<Json>,
)
    requires
        call_ensures(fetch::on_resolution, (call, resolution), r),
    ensures
        resolution is None ==> r is None,
        (resolution matches Some(InterceptResolution::Continue { url, method, headers, body })
            ==> r is None),
        (resolution matches Some(InterceptResolution::Fulfill { status, headers, body }) ==> r
            is Some && r->0@.get("status"@) == Some(JsonView::UInt(status as u64)) && r->0@.get(
            "body"@,
        ) == Some(JsonView::Str(body@)) && r->0@.get("url"@) == Some(JsonView::Str(call.url@))),
        (resolution matches Some(InterceptResolution::Fail { reason }) ==> r is Some && r->0@.get(
            "error"@,
        ) == Some(JsonView::Str(reason@)) && r->0@.get("blocked"@) == Some(JsonView::Bool(true))),
{
    match resolution {
        Some(InterceptResolution::Fulfill { status, headers, body }) => {
            fetch_laws::decisions_answer_requests(
                call.url@,
                status,
                headers@,
                body@,
                Seq::empty(),
                resolution->0@,
            );
        },
        Some(InterceptResolution::Fail { reason }) => {
            fetch_laws::decisions_answer_requests(
                call.url@,
                0,
                Seq::empty(),
                Seq::empty(),
                reason@,
                resolution->0@,
            );
        },
        _ => {},
    }
}

/// A pattern with stars at both ends fits a URL just where what is between them stands in it.
pub proof fn patterns_fit(pattern: &str, u: &str, r: bool, t: Seq<char>)
    requires
        call_ensures(fetch::glob_match, (pattern, u), r),
        t.len() > 0,
        t[0] != '*',
        t.last() != '*',
    ensures
        pattern@ == seq!['*'] ==> r,
        pattern@ == t ==> r == (u@ == t),
        pattern@ == seq!['*'] + t + seq!['*'] && r ==> exists|i: int|
            0 <= i <= u@.len() - t.len() && #[trigger] u@.subrange(i, i + t.len()) == t,
        pattern@ == seq!['*'] + t ==> (r <==> t.len() <= u@.len() && u@.skip(u@.len() - t.len())
            == t),
        pattern@ == t + seq!['*'] ==> (r <==> t.len() <= u@.len() && u@.take(t.len() as int) == t),
{
    fetch_laws::stars_stand_for_any_text(t, Seq::empty(), Seq::empty(), u@);
    if t.len() <= u@.len() {
        let a = u@.take(u@.len() - t.len());
        let b = u@.skip(t.len() as int);
        fetch_laws::stars_stand_for_any_text(t, a, b, u@);
        if u@.skip(u@.len() - t.len()) == t {
            assert(u@ =~= a + t);
        }
        if u@.take(t.len() as int) == t {
            assert(u@ =~= t + b);
        }
    }
}

/// A line on the console is a warning or an error by its level, and a note otherwise.
pub proof fn console_lines_are_logged(level: &str, r: ConsoleLevel)
    requires
        call_ensures(ops::op_console_msg, (level,), r),
    ensures
        level@ == "warn"@ ==> r == ConsoleLevel::Warn,
        level@ == "error"@ ==> r == ConsoleLevel::Error,
        level@ != "warn"@ && level@ != "error"@ ==> r == ConsoleLevel::Info,
{
    reveal_strlit("warn");
    reveal_strlit("error");
    assert("warn"@.len() != "error"@.len());
}

/// A client for scripts' requests goes through the proxy that is given and has the time that is
/// set; it keeps what is idle for five minutes and asks whether it is alive every minute.
pub proof fn clients_are_set_up(
    proxy: Option<&str>,
    setting: Option<&str>,
    r: ClientSettings,
    n: u64,
)
    requires
        call_ensures(ops::build_request_client, (proxy, setting), r),
    ensures
        r.pool_idle_secs == 300 && r.keepalive_secs == 60,
        proxy is None ==> r.proxy is None,
        proxy is Some ==> r.proxy is Some && r.proxy->0@ == proxy->0@,
        setting is None ==> r.timeout_ms == 30000,
        setting is Some && setting->0@ == text::decimal_text(n as nat) ==> r.timeout_ms == n,
{
    ops_laws::timeouts_are_set(n, Seq::empty());
}

/// What is told where a client cannot be set up.
pub proof fn client_failures_are_told(proxy: &str, reason: &str, a: String, b: String)
    requires
        call_ensures(ops::proxy_refused, (proxy, reason), a),
        call_ensures(ops::client_refused, (reason,), b),
    ensures
        a@ == "Invalid op_fetch_url proxy '"@ + proxy@ + "': "@ + reason@,
        b@ == "failed to build reqwest::Client: "@ + reason@,
{
}

/// A digest is made with the algorithm that is named and has the length that the algorithm gives.
pub proof fn digests_have_their_length(name: &str, data: &[u8], r: Vec<u8>)
    requires
        call_ensures(ops::op_subtle_digest, (name, data), r),
    ensures
        name@ == "SHA-1"@ || name@ == "sha-1"@ ==> r@ == ops::sha1_digest(data@) && r@.len() == 20,
        name@ == "SHA-256"@ || name@ == "sha-256"@ ==> r@ == ops::sha256_digest(data@) && r@.len()
            == 32,
        name@ == "SHA-384"@ || name@ == "sha-384"@ ==> r@ == ops::sha384_digest(data@) && r@.len()
            == 48,
        name@ == "SHA-512"@ || name@ == "sha-512"@ ==> r@ == ops::sha512_digest(data@) && r@.len()
            == 64,
{
    ops_laws::names_of_algorithms(name@);
    ops_laws::digests_are_made(name@, data@);
}

/// The host that a script gives is taken apart into a name and a port.
pub proof fn hosts_are_parted(value: &str, r: UrlEdit, h: Seq<char>, p: u64)
    requires
        call_ensures(ops::set_host_port, (value,), r),
        !h.contains(':'),
        h.len() > 0,
        h[0] != '[',
    ensures
        value@ == h ==> (r matches UrlEdit::Host(t, q) && t@ == h && q == PortEdit::Keep),
        value@ == h + seq![':'] ==> (r matches UrlEdit::Host(t, q) && t@ == h && q
            == PortEdit::Clear),
        p <= 65535 && value@ == h + seq![':'] + text::decimal_text(p as nat) ==> (
        r matches UrlEdit::Host(t, q) && t@ == h && q == PortEdit::To(p as u16)),
{
    let none = Seq::<char>::empty();
    assert(!none.contains(']'));
    ops_laws::hosts_are_taken_apart(h, none, none, p);
}

/// The change that a script makes to a part of a URL.
pub proof fn edits_are_planned(part: &str, value: &str, r: UrlEdit)
    requires
        call_ensures(ops::plan_edit, (part, value), r),
    ensures
        part@ == "href"@ ==> (r matches UrlEdit::Whole(t) && t@ == value@),
        part@ == "protocol"@ && value@.len() > 0 && value@.last() != ':' ==> (
        r matches UrlEdit::Scheme(t) && t@ == value@),
        part@ == "username"@ ==> (r matches UrlEdit::Username(t) && t@ == value@),
        part@ == "password"@ && value@.len() > 0 ==> (r matches UrlEdit::Password(Some(t)) && t@
            == value@),
        part@ == "hostname"@ && value@.len() > 0 ==> (r matches UrlEdit::Host(t, q) && t@ == value@
            && q == PortEdit::Keep),
        part@ == "port"@ && value@.len() == 0 ==> r == UrlEdit::Port(None),
        part@ == "pathname"@ ==> (r matches UrlEdit::Path(t) && t@ == value@),
        part@ == "search"@ && value@.len() > 0 && value@[0] != '?' ==> (r matches UrlEdit::Query(
            Some(t),
        ) && t@ == value@),
        part@ == "hash"@ && value@.len() > 0 && value@[0] != '#' ==> (r matches UrlEdit::Fragment(
            Some(t),
        ) && t@ == value@),
        part@ == "origin"@ ==> r is Nothing,
{
    ops_laws::parts_are_set(value@, Seq::empty(), 0);
}

/// What is told of encodings: the name that was found, the text that was decoded, and the query
/// that was encoded, or as it was.
pub proof fn encodings_are_told(
    name: Option<String>,
    a: String,
    decoded: Option<&str>,
    b: String,
    query: &str,
    encoded: Option<String>,
    c: String,
)
    requires
        call_ensures(ops::op_encoding_for_label, (name,), a),
        call_ensures(ops::op_text_decode, (decoded,), b),
        call_ensures(ops::op_url_encode_query, (query, encoded), c),
    ensures
        name is Some ==> a@ == name->0@,
        name is None ==> a@.len() == 0,
        decoded is None ==> b@ == "{\"ok\":false}"@,
        decoded is Some ==> exists|j: JsonView|
            b@ == #[trigger] json::json_text(j) && j.get("ok"@) == Some(JsonView::Bool(true))
                && j.get("v"@) == Some(JsonView::Str(decoded->0@)),
        encoded is Some ==> c@ == encoded->0@,
        encoded is None ==> c@ == query@,
{
    if decoded is Some {
        let v = JsonView::Str(decoded->0@);
        reveal_strlit("ok");
        reveal_strlit("v");
        assert("ok"@.len() != "v"@.len());
        json::object_is_keyed();
        let o = JsonView::object();
        json::put_sets(o, "ok"@, JsonView::Bool(true));
        json::put_sets(o.put("ok"@, JsonView::Bool(true)), "v"@, v);
        assert(b@ == json::json_text(o.put("ok"@, JsonView::Bool(true)).put("v"@, v)));
    }
}

/// A script that goes elsewhere leaves where it goes, with its method and body, for the page to
/// follow, and is at that URL; nothing else changes.
pub proof fn scripts_go_elsewhere(state: &mut ObscuraState, u: &str, method: &str, body: &str)
    requires
        call_ensures(ObscuraState::op_navigate, (state, u, method, body), ()),
    ensures
        final(state)@.url == u@,
        final(state)@.pending_navigation == Some((u@, method@, body@)),
        final(state)@ == (StateView {
            url: final(state)@.url,
            pending_navigation: final(state)@.pending_navigation,
            ..old(state)@
        }),
{
}

/// A script that calls an exposed function leaves the call behind those that wait.
pub proof fn exposed_functions_are_called(state: &mut ObscuraState, name: &str, payload: &str)
    requires
        call_ensures(ObscuraState::op_binding_called, (state, name, payload), ()),
    ensures
        ({
            let before = old(state)@.pending_binding_calls;
            let after = final(state)@.pending_binding_calls;
            &&& after.len() == before.len() + 1
            &&& after.last() == (name@, payload@)
            &&& after.drop_last() == before
            &&& final(state)@ == (StateView { pending_binding_calls: after, ..old(state)@ })
        }),
{
    let before = old(state)@.pending_binding_calls;
    assert(before.push((name@, payload@)).drop_last() =~= before);
}

/// Scripts' requests go through the proxy that the page is loaded through.
pub proof fn scripts_share_the_proxy(state: &ObscuraState, r: Option<&str>)
    requires
        call_ensures(ObscuraState::fetch_proxy, (state,), r),
    ensures
        state@.http_client is None ==> r is None,
        state@.http_client is Some && state@.http_client->0.proxy_url is None ==> r is None,
        state@.http_client is Some && state@.http_client->0.proxy_url is Some ==> r is Some
            && r->0@ == state@.http_client->0.proxy_url->0,
{
}

/// The commands that a tree can answer are told by its links.
pub proof fn trees_tell_what_they_can_answer(
    dom: &DomTree,
    cmd: &str,
    arg1: &str,
    arg2: &str,
    r: bool,
    a: bool,
    b: bool,
)
    requires
        call_ensures(dom_ops::links_end, (dom, cmd, arg1, arg2), r),
        call_ensures(DomTree::up_links_end, (dom, dom_ops::id_of(arg1@)), a),
        call_ensures(DomTree::back_links_end, (dom, dom_ops::id_of(arg1@)), b),
    ensures
        cmd@ != "node_index"@ && cmd@ != "compare_order"@ && cmd@ != "node_root"@ ==> r,
        cmd@ == "node_index"@ ==> r == b,
        cmd@ == "node_root"@ ==> r == a,
        dom@.parent(dom_ops::id_of(arg1@)) is None ==> a,
        dom@.prev(dom_ops::id_of(arg1@)) is None ==> b,
{
    let n = dom_ops::id_of(arg1@);
    dom_laws::commands_can_be_answered(dom@, cmd@, arg1@, arg2@);
    dom_laws::ways_end_without_circles(dom@, |k: u32| 0nat, n, n);
}

/// A node without a sibling before it has index zero and a node without a parent is its own root, at
/// the beginning of its way; a node is level with itself.
pub proof fn trees_tell_places(
    dom: &DomTree,
    n: u32,
    i: usize,
    root: u32,
    way: Vec<u32>,
    order: i32,
    x: NodeView,
)
    requires
        call_ensures(DomTree::node_child_index, (dom, n), i),
        call_ensures(DomTree::node_root, (dom, n), root),
        call_ensures(DomTree::node_ancestors_root_first, (dom, n), way),
        call_ensures(DomTree::compare_node_order, (dom, n, n), order),
        dom@.node(n) == Some(x),
    ensures
        x.prev_sibling is None ==> i == 0,
        dom@.way_back_ends(n) && x.prev_sibling is Some ==> i == dom@.child_index(
            x.prev_sibling->0,
        ) + 1,
        x.parent is None ==> root == n && way@ == seq![n],
        dom@.way_up_ends(n) && x.parent is Some ==> root == dom@.root(x.parent->0) && way@
            == dom@.path(x.parent->0).push(n),
        order == 0,
{
    dom_laws::nodes_are_found_by_number(dom@, n);
    dom_laws::places_follow_links(dom@, n, x);
    dom_laws::ways_follow_parents(dom@, n, x, n);
    dom_laws::ways_end_without_circles(dom@, |k: u32| 0nat, n, n);
}

/// A whole request of a script is taken by what the policy says of its URL; the URL that it has got
/// to is the one whose cookies it is sent with.
pub proof fn script_urls_are_judged(
    state: &mut ObscuraState,
    call: &FetchCall,
    allow_private: bool,
    ip_forbidden: bool,
    r: Admission,
    f: &ScriptFetch,
    c: Option<UrlRecord>,
)
    requires
        call_ensures(fetch::op_fetch_url, (state, call, allow_private, ip_forbidden), r),
        call_ensures(ScriptFetch::cookie_url, (f,), c),
        old(state)@.intercept_counter < u64::MAX,
    ensures
        (url::url_parsed(call.url@) matches Ok(u) ==> (policy::verdict(
            u,
            allow_private,
            ip_forbidden,
        ) matches Err(e) ==> (r matches Admission::Reply(j) && j@.get("error"@) == Some(
            JsonView::Str(e),
        )) && final(state)@ == old(state)@)),
        fetch::any_blocks(old(state)@.blocked_urls, call.url@) ==> r is Reply,
        r is Intercept ==> old(state)@.intercept_enabled && old(state)@.has_intercept_tx,
        match url::url_parsed(f.current_url@) {
            Ok(u) => c is Some && c->0@ == u,
            Err(_) => c is None,
        },
{
    fetch_laws::requests_are_admitted_by_url(old(state)@, call@, allow_private, ip_forbidden);
    let h = match fetch::string_object(call.headers_json@) {
        Some(h) => h,
        None => Seq::empty(),
    };
    match url::url_parsed(call.url@) {
        Ok(u) => match policy::verdict(u, allow_private, ip_forbidden) {
            Ok(()) => fetch_laws::requests_are_admitted(old(state)@, call@, None, h),
            Err(e) => fetch_laws::requests_are_admitted(old(state)@, call@, Some(e), h),
        },
        Err(_) => fetch_laws::requests_are_admitted(old(state)@, call@, None, h),
    }
}

/// A client is kept once for each proxy, and found where it was kept.
pub proof fn clients_are_kept(
    c: &mut ops::ClientCache,
    proxy: Option<&str>,
    r: usize,
)
    requires
        call_ensures(ops::ClientCache::keep, (c, proxy), r),
    ensures
        r < final(c)@.len(),
        proxy is Some ==> final(c)@[r as int] == proxy->0@,
        proxy is None ==> final(c)@[r as int].len() == 0,
        old(c)@.contains(final(c)@[r as int]) ==> final(c)@ == old(c)@,
        final(c)@.len() <= old(c)@.len() + 1,
        forall|i: int| 0 <= i < old(c)@.len() ==> #[trigger] final(c)@[i] == old(c)@[i],
{
}

/// A client that was made for a proxy is found again, and none where none was made.
pub proof fn clients_are_found(c: &ops::ClientCache, proxy: Option<&str>, r: Option<usize>)
    requires
        call_ensures(ops::ClientCache::cached_request_client, (c, proxy), r),
        proxy is Some,
    ensures
        r is Some ==> r->0 < c@.len() && c@[r->0 as int] == proxy->0@,
        r is None <==> !c@.contains(proxy->0@),
{
    if let Some(i) = r {
        assert(c@.contains(c@[i as int]));
    }
}

/// A URL is read into its parts, or told to be none.
pub proof fn urls_are_read(href: &str, base: &str, a: String, b: String)
    requires
        call_ensures(ops::op_url_parse, (href, base), a),
        call_ensures(ops::op_url_resolve, (href, base), b),
    ensures
        base@.len() == 0 ==> match url::url_parsed(href@) {
            Ok(u) => a@ == json::json_text(u.components()) && b@ == u.href,
            Err(_) => a@ == "{\"ok\":false}"@ && b@.len() == 0,
        },
        base@.len() > 0 && url::url_parsed(base@) is Err ==> a@ == "{\"ok\":false}"@ && b@.len()
            == 0,
        base@.len() > 0 && url::url_parsed(base@) is Ok ==> match url::url_joined(base@, href@) {
            Ok(u) => a@ == json::json_text(u.components()) && b@ == u.href,
            Err(_) => a@ == "{\"ok\":false}"@ && b@.len() == 0,
        },
{
    ops_laws::texts_are_resolved(href@, base@);
}

/// Setting a part of a URL gives the parts of what comes of it, and those of the URL as it was where
/// nothing can come of it.
pub proof fn urls_are_changed(
    href: &str,
    part: &str,
    value: &str,
    a: String,
    b: String,
    u: UrlView,
)
    requires
        call_ensures(ops::op_url_set, (href, part, value), a),
        call_ensures(ops::url_unchanged, (href,), b),
        url::url_parsed(href@) == Ok::<UrlView, Seq<char>>(u),
    ensures
        b@ == json::json_text(u.components()),
        part@ == "origin"@ && value@.len() > 0 ==> a@ == b@,
        part@ == "href"@ && value@.len() > 0 ==> match url::url_parsed(value@) {
            Ok(w) => a@ == json::json_text(w.components()),
            Err(_) => a@ == b@,
        },
        part@ == "pathname"@ && value@.len() > 0 && u.fits_text(value@) && url::url_with_path(
            href@,
            value@,
        ) is Some ==> a@ == json::json_text(url::url_with_path(href@, value@)->0.components()),
{
    if value@.len() > 0 {
        ops_laws::setters_are_called(href@, u, value@, 0);
    }
}

/// The links of a tree are those that its nodes hold.
pub proof fn links_are_told(t: &DomTree, n: u32, a: Option<u32>, b: Option<u32>, x: NodeView)
    requires
        call_ensures(DomTree::parent, (t, n), a),
        call_ensures(DomTree::prev_sibling, (t, n), b),
    ensures
        t@.node(n) == Some(x) ==> a == x.parent && b == x.prev_sibling,
        t@.node(n) is None ==> a is None && b is None,
{
}

/// A request starts with the URL that its text is and the headers that its text holds.
pub proof fn requests_start_from_texts(
    call: &FetchCall,
    u: &Option<UrlRecord>,
    headers: StringMap,
    allow_private: bool,
    a: ScriptFetch,
    b: ScriptFetch,
)
    requires
        call_ensures(ScriptFetch::start, (call, allow_private), a),
        call_ensures(ScriptFetch::begin, (call, u, headers, allow_private), b),
        url::record_view(*u) == fetch::url_of(call.url@),
        headers@ == fetch::custom_headers(call.headers_json@),
    ensures
        a@ == b@,
        a.url@ == call.url@ && a.current_url@ == call.url@ && a.redirects == 0,
        a.custom_headers@ == headers@ && a.allow_private == allow_private,
{
    assert(a@.url == a.url@ && a@.current_url == a.current_url@);
    assert(a@.custom_headers == a.custom_headers@);
}

/// A redirect of a script's request is followed to where the host that its URL names may be
/// reached.
pub proof fn script_redirects_are_checked(
    f: &mut ScriptFetch,
    status: u16,
    next: &UrlRecord,
    ip_forbidden: bool,
    r: Option<Json>,
)
    requires
        call_ensures(ScriptFetch::follow, (f, status, next, ip_forbidden), r),
    ensures
        ({
            let verdict = policy::verdict_for(
                next.scheme@,
                url::url_host(next.href@),
                old(f).allow_private,
                ip_forbidden,
            );
            &&& r is None <==> verdict is Ok && old(f).redirects < 10
            &&& r is Some ==> final(f)@ == old(f)@
            &&& r is None ==> final(f).current_url@ == next.href@ && final(f).redirects == old(
                f,
            ).redirects + 1
            &&& r is None && (status == 301 || status == 302 || status == 303)
                ==> final(f).method@ == "GET"@ && final(f).body@.len() == 0
            &&& r is None && status != 301 && status != 302 && status != 303
                ==> final(f).method@ == old(f).method@ && final(f).body@ == old(f).body@
            &&& final(f).url@ == old(f).url@ && final(f).custom_headers@ == old(f).custom_headers@
        }),
{
    let h = url::url_host(next@.href);
    fetch_laws::redirects_of_scripts_are_followed(old(f)@, status, next@, h, ip_forbidden);
    fetch_laws::redirects_that_end_requests(old(f)@, status, next@, h, ip_forbidden);
}

/// A response is kept from a script only across origins, and then it is said why.
pub proof fn responses_are_kept_from_scripts(f: &ScriptFetch, h: &StringMap, r: Option<Json>, i: int)
    requires
        call_ensures(ScriptFetch::cors_reply, (f, h), r),
        assoc::distinct(h@),
    ensures
        !f.cross_origin || !f.cors ==> r is None,
        0 <= i < h@.len() && h@[i].0 == "access-control-allow-origin"@ && (h@[i].1 == "*"@
            || h@[i].1 == f.page_origin@) ==> r is None,
        f.cross_origin && f.cors && 0 <= i < h@.len() && h@[i].0
            == "access-control-allow-origin"@ && h@[i].1 != "*"@ && h@[i].1 != f.page_origin@ ==> r
            is Some,
{
    fetch_laws::scripts_see_what_servers_allow(f@, h@, i);
    if 0 <= i < h@.len() && h@[i].0 == "access-control-allow-origin"@ {
        assert forall|k: int| i < k < h@.len() implies (#[trigger] h@[k]).0
            != "access-control-allow-origin"@ by {
            assert(h@[i].0 != h@[k].0);
        }
    }
}

/// A time limit is the number that is set, and thirty seconds where none is.
pub proof fn time_limits_are_read(setting: Option<&str>, r: u64, n: u64)
    requires
        call_ensures(ops::fetch_timeout_ms, (setting,), r),
    ensures
        setting is None ==> r == 30000,
        setting is Some && setting->0@ == text::decimal_text(n as nat) ==> r == n,
        setting is Some && text::parsed_uint(setting->0@, u64::MAX) is None ==> r == 30000,
{
    ops_laws::timeouts_are_set(
        n,
        match setting {
            Some(s) => s@,
            None => Seq::empty(),
        },
    );
}

/// Scripts read and set the cookies of the URL that the page is at, where there is a jar.
pub proof fn scripts_have_cookies(s: &ObscuraState, a: Option<UrlRecord>, b: Option<UrlRecord>)
    requires
        call_ensures(ObscuraState::op_get_cookies, (s,), a),
        call_ensures(ObscuraState::op_set_cookie, (s,), b),
    ensures
        !s@.has_cookie_jar ==> a is None && b is None,
        s@.has_cookie_jar ==> match url::url_parsed(s@.url) {
            Ok(u) => a is Some && a->0@ == u && b is Some && b->0@ == u,
            Err(_) => a is None && b is None,
        },
{
    fetch_laws::cookies_are_of_the_page(s@);
}

} // verus!
