//! What page scripts can do.

use obscura::assoc::StringMap;
use obscura::js::dom::{DomTree, Node, NodeData};
use obscura::js::dom_ops::{dom_reply, links_end, op_dom_inner, DomAnswer, DomCall, DomOutcome};
use obscura::js::fetch::{
    glob_match, headers_to_json, on_resolution, op_fetch_url, take_request, Admission, FetchCall,
    ScriptFetch, FETCH_REDIRECT_LIMIT,
};
use obscura::js::ops::{
    build_request_client, client_refused, fetch_timeout_ms, op_console_msg, op_encoding_for_label,
    op_subtle_digest, op_text_decode,
    op_url_encode_query, op_url_parse, op_url_resolve, op_url_set, plan_edit, proxy_refused,
    set_host_port, url_set_inner, ClientCache, ConsoleLevel, PortEdit, UrlEdit,
};
use obscura::js::state::{InterceptResolution, ObscuraState};
use obscura::json::Json;
use obscura::net::client::{ObscuraHttpClient, DEFAULT_USER_AGENT};
use obscura::net::url::{UrlHost, UrlRecord};

fn node(data: NodeData, parent: Option<u32>, prev: Option<u32>, next: Option<u32>, children: &[u32]) -> Option<Node> {
    Some(Node {
        data,
        parent,
        first_child: children.first().copied(),
        last_child: children.last().copied(),
        next_sibling: next,
        prev_sibling: prev,
        children: children.to_vec(),
    })
}

fn element(name: &str, attrs: &[(&str, &str)]) -> NodeData {
    NodeData::Element {
        name: name.to_string(),
        attrs: attrs.iter().map(|(k, v)| (k.to_string(), v.to_string())).collect(),
    }
}

// 0 document: 1 doctype, 2 html(3 head, 4 body(5 text, 6 comment, 7 pi)); 8 alone
fn tree() -> DomTree {
    DomTree {
        document: 0,
        nodes: vec![
            node(NodeData::Document, None, None, None, &[1, 2]),
            node(
                NodeData::Doctype { name: "html".into(), public_id: "p".into(), system_id: "s".into() },
                Some(0), None, Some(2), &[],
            ),
            node(element("html", &[("id", "root"), ("class", "a"), ("class", "b")]), Some(0), Some(1), None, &[3, 4]),
            node(element("head", &[]), Some(2), None, Some(4), &[]),
            node(element("body", &[]), Some(2), Some(3), None, &[5, 6, 7]),
            node(NodeData::Text { contents: "t".into() }, Some(4), None, Some(6), &[]),
            node(NodeData::Comment { contents: "c".into() }, Some(4), Some(5), Some(7), &[]),
            node(
                NodeData::ProcessingInstruction { target: "x".into(), data: "d".into() },
                Some(4), Some(6), None, &[],
            ),
            node(element("p", &[]), None, None, None, &[]),
        ],
    }
}

fn page() -> ObscuraState {
    let mut s = ObscuraState::new();
    s.dom = Some(tree());
    s.title = "T\"".to_string();
    s.url = "http://example.com/".to_string();
    s
}

fn ask(s: &ObscuraState, cmd: &str, a: &str, b: &str) -> String {
    match op_dom_inner(s, cmd, a, b) {
        DomOutcome::Reply(t) => t,
        _ => panic!("{} is answered at once", cmd),
    }
}

fn call(s: &ObscuraState, cmd: &str, a: &str, b: &str) -> DomCall {
    match op_dom_inner(s, cmd, a, b) {
        DomOutcome::Call(c) => c,
        _ => panic!("{} is for the tree", cmd),
    }
}

#[test]
fn states_start_blank() {
    let s = ObscuraState::new();
    assert_eq!((s.url.as_str(), s.encoding.as_str(), s.title.as_str()), ("about:blank", "UTF-8", ""));
    assert_eq!(ask(&s, "document_title", "", ""), "null");
    assert!(s.op_get_cookies().is_none());
    assert!(s.fetch_proxy().is_none());
}

#[test]
fn documents_are_read() {
    let s = page();
    assert_eq!(ask(&s, "document_node_id", "", ""), "0");
    assert_eq!(ask(&s, "document_title", "", ""), "\"T\\\"\"");
    assert_eq!(ask(&s, "document_url", "", ""), "\"http://example.com/\"");
    assert_eq!(ask(&s, "document_encoding", "", ""), "\"UTF-8\"");
    assert_eq!(ask(&s, "document_element", "", ""), "2");
    assert_eq!(
        ask(&s, "document_doctype", "", ""),
        "{\"name\":\"html\",\"publicId\":\"p\",\"systemId\":\"s\",\"nodeId\":1}"
    );
    assert_eq!(ask(&s, "no_such_command", "", ""), "null");
}

#[test]
fn nodes_are_read() {
    let s = page();
    for (n, t, name) in [
        ("0", "9", "\"#document\""), ("1", "10", "\"html\""), ("2", "1", "\"HTML\""),
        ("5", "3", "\"#text\""), ("6", "8", "\"#comment\""), ("7", "7", "\"x\""), ("99", "0", "\"\""),
    ] {
        assert_eq!(ask(&s, "node_type", n, ""), t);
        assert_eq!(ask(&s, "node_name", n, ""), name);
    }
    assert_eq!(ask(&s, "tag_name", "4", ""), "\"BODY\"");
    assert_eq!(ask(&s, "tag_name", "5", ""), "\"\"");
    assert_eq!(ask(&s, "get_attribute", "2", "class"), "\"a\"");
    assert_eq!(ask(&s, "get_attribute", "2", "style"), "null");
    assert_eq!(ask(&s, "attribute_names", "2", ""), "[\"id\",\"class\",\"class\"]");
    assert_eq!(ask(&s, "attribute_names", "5", ""), "[]");
    assert_eq!(ask(&s, "pi_target", "7", ""), "\"x\"");
    assert_eq!(ask(&s, "doctype_name", "1", ""), "\"html\"");
    assert_eq!(ask(&s, "doctype_public_id", "1", ""), "\"p\"");
    assert_eq!(ask(&s, "doctype_public_id", "2", ""), "\"\"");
}

#[test]
fn relatives_are_found() {
    let s = page();
    assert_eq!(ask(&s, "parent_node", "4", ""), "2");
    assert_eq!(ask(&s, "parent_node", "0", ""), "-1");
    assert_eq!(ask(&s, "first_child", "4", ""), "5");
    assert_eq!(ask(&s, "last_child", "4", ""), "7");
    assert_eq!(ask(&s, "next_sibling", "5", ""), "6");
    assert_eq!(ask(&s, "prev_sibling", "5", ""), "-1");
    assert_eq!(ask(&s, "child_nodes", "4", ""), "[5,6,7]");
    assert_eq!(ask(&s, "child_nodes", "99", ""), "[]");
    assert_eq!(ask(&s, "element_children", "0", ""), "[2]");
    assert_eq!(ask(&s, "has_child_nodes", "4", ""), "true");
    assert_eq!(ask(&s, "has_child_nodes", "5", ""), "false");
    assert_eq!(ask(&s, "node_type", "x", ""), "9");
}

#[test]
fn nodes_are_put_in_order() {
    let s = page();
    let t = tree();
    assert!((0..9).all(|n| t.up_links_end(n) && t.back_links_end(n)));
    assert_eq!(ask(&s, "node_index", "7", ""), "2");
    assert_eq!(ask(&s, "node_index", "5", ""), "0");
    assert_eq!(ask(&s, "node_root", "7", ""), "0");
    assert_eq!(ask(&s, "node_root", "8", ""), "8");
    assert_eq!(t.node_ancestors_root_first(7), vec![0, 2, 4, 7]);
    let order = [0u32, 1, 2, 3, 4, 5, 6, 7];
    for (i, a) in order.iter().enumerate() {
        for (j, b) in order.iter().enumerate() {
            let want = if i < j { -1 } else if i > j { 1 } else { 0 };
            assert_eq!(t.compare_node_order(*a, *b), want);
        }
    }
    assert_eq!(ask(&s, "compare_order", "5", "7"), "-1");
    assert_eq!(ask(&s, "compare_order", "8", "5"), "1");
    assert_eq!(ask(&s, "compare_order", "5", "8"), "-1");
}

#[test]
fn rings_of_links_are_found() {
    let mut t = tree();
    t.nodes[2].as_mut().unwrap().parent = Some(4);
    t.nodes[5].as_mut().unwrap().prev_sibling = Some(7);
    assert!(!t.up_links_end(7) && !t.back_links_end(7));
    assert!(!links_end(&t, "node_root", "7", ""));
    assert!(!links_end(&t, "node_index", "7", ""));
    assert!(!links_end(&t, "compare_order", "7", "1"));
    assert!(!links_end(&t, "compare_order", "1", "7"));
    assert!(links_end(&t, "node_type", "7", ""));
}

#[test]
fn rings_elsewhere_do_no_harm() {
    let mut t = tree();
    t.nodes[4].as_mut().unwrap().parent = Some(4);
    assert!(!t.up_links_end(7) && t.up_links_end(3) && t.back_links_end(4));
    assert!(t.can_compare(1, 3) && t.can_compare(7, 7) && !t.can_compare(1, 7));
    assert!(links_end(&t, "node_root", "3", ""));
    assert!(links_end(&t, "node_index", "7", ""));
    assert_eq!(t.node_root(3), 0);
    assert_eq!(t.node_child_index(7), 2);
    assert_eq!(t.compare_node_order(1, 3), -1);
}

#[test]
fn changes_are_planned() {
    let s = page();
    assert!(matches!(call(&s, "set_attribute", "2", "id\0new=\0"),
        DomCall::SetId { node: 2, old_id: Some(o), value } if o == "root" && value == "new=\0"));
    assert!(matches!(call(&s, "set_attribute", "3", "class\0x"),
        DomCall::SetAttribute { node: 3, name, value } if name == "class" && value == "x"));
    assert_eq!(ask(&s, "set_attribute", "3", "class"), "true");
    assert!(matches!(call(&s, "remove_attribute", "2", "class"),
        DomCall::KeepAttributes { node: 2, places } if places == vec![0]));
    assert_eq!(ask(&s, "remove_attribute", "5", "class"), "true");
    assert!(matches!(call(&s, "set_inner_html", "4", "<b>"),
        DomCall::ReplaceChildren { node: 4, detach, html: Some(h) } if detach == vec![5, 6, 7] && h == "<b>"));
    assert!(matches!(call(&s, "set_inner_html", "4", ""),
        DomCall::ReplaceChildren { node: 4, html: None, .. }));
    assert!(matches!(call(&s, "set_text_content", "5", "new"),
        DomCall::SetCharacterData { node: 5, data } if data == "new"));
    assert_eq!(ask(&s, "set_text_content", "4", "new"), "true");
    assert!(matches!(call(&s, "insert_before", "7", "5"),
        DomCall::InsertBefore { reference: 5, new_node: 7 }));
    assert!(matches!(call(&s, "append_child", "4", "8"),
        DomCall::AppendChild { parent: 4, child: 8 }));
    assert!(matches!(call(&s, "create_doctype", "n", "p"),
        DomCall::CreateDoctype { name, public_id } if name == "n" && public_id == "p"));
}

#[test]
fn calls_are_answered() {
    let s = page();
    let answer = |node: Option<u32>, nodes: &[u32], text: &str| DomAnswer {
        node, nodes: nodes.to_vec(), text: text.to_string(),
    };
    let by_id = call(&s, "get_element_by_id", "root", "");
    assert_eq!(dom_reply(&by_id, &answer(Some(2), &[], "")), "2");
    assert_eq!(dom_reply(&by_id, &answer(None, &[], "")), "-1");
    let all = call(&s, "query_selector_all_scoped", "2", "*");
    assert!(matches!(&all, DomCall::QuerySelectorAllFrom(2, sel) if sel == "*"));
    assert_eq!(dom_reply(&all, &answer(None, &[3, 4, 0xffff_ffff], "")), "[3,4,-1]");
    let text = call(&s, "text_content", "4", "");
    assert_eq!(dom_reply(&text, &answer(None, &[], "a\"b")), "\"a\\\"b\"");
    let inside = call(&s, "contains", "2", "7");
    assert_eq!(dom_reply(&inside, &answer(None, &[3, 4, 5, 6, 7], "")), "true");
    assert_eq!(dom_reply(&inside, &answer(None, &[3], "")), "false");
    let removed = call(&s, "remove_child", "7", "");
    assert_eq!(dom_reply(&removed, &answer(None, &[], "")), "true");
}

#[test]
fn scripts_navigate_and_call_bindings() {
    let mut s = page();
    s.has_cookie_jar = true;
    assert_eq!(s.op_get_cookies().unwrap().href, "http://example.com/");
    s.op_navigate("b/", "POST", "x=1");
    assert_eq!(s.url, "b/");
    assert_eq!(s.pending_navigation, Some(("b/".into(), "POST".into(), "x=1".into())));
    assert!(s.op_set_cookie().is_none());
    s.op_binding_called("f", "1");
    s.op_binding_called("g", "2");
    assert_eq!(s.pending_binding_calls, vec![("f".into(), "1".into()), ("g".into(), "2".into())]);
}

fn fetch_call(url: &str, method: &str, headers: &str, origin: &str) -> FetchCall {
    FetchCall {
        url: url.to_string(),
        method: method.to_string(),
        headers_json: headers.to_string(),
        body: "body".to_string(),
        origin: origin.to_string(),
        mode: "cors".to_string(),
    }
}

fn map(pairs: &[(&str, &str)]) -> StringMap {
    let mut m = StringMap::new();
    for (k, v) in pairs {
        m.insert(k, v);
    }
    m
}

#[test]
fn globs_match() {
    assert!(glob_match("*", "anything"));
    assert!(glob_match("**", "anything"));
    assert!(glob_match("*ads*", "http://ads.example/"));
    assert!(glob_match("*.png", "http://a/b.png"));
    assert!(!glob_match("*.png", "http://a/b.png?x"));
    assert!(glob_match("http://a/*", "http://a/b"));
    assert!(!glob_match("http://a/*", "http://b/a"));
    assert!(glob_match("http://a/", "http://a/"));
    assert!(!glob_match("", "x"));
    assert!(glob_match("", ""));
}

#[test]
fn requests_are_admitted() {
    let mut s = ObscuraState::new();
    let get = |u: &str| fetch_call(u, "GET", "{}", "");
    assert!(matches!(op_fetch_url(&mut s, &get("http://example.com/"), false, false), Admission::Proceed));
    assert!(matches!(op_fetch_url(&mut s, &get("not a url"), false, true), Admission::Proceed));
    match op_fetch_url(&mut s, &get("http://localhost/x"), false, false) {
        Admission::Reply(j) => assert_eq!(
            j.to_text(),
            "{\"status\":0,\"body\":\"\",\"url\":\"http://localhost/x\",\"headers\":{},\"blocked\":true,\
             \"error\":\"Access to localhost domain 'localhost' is not allowed\"}"
        ),
        _ => panic!("localhost is refused"),
    }
    assert!(matches!(op_fetch_url(&mut s, &get("http://localhost/x"), true, true), Admission::Proceed));
    s.blocked_urls.push("*.png".to_string());
    s.blocked_urls.push("ads".to_string());
    for u in ["http://a.example/b.png", "http://ads.example/"] {
        match op_fetch_url(&mut s, &get(u), false, false) {
            Admission::Reply(j) => {
                assert_eq!(j.to_text(), format!(
                    "{{\"status\":0,\"body\":\"\",\"url\":\"{}\",\"headers\":{{}},\"blocked\":true}}", u))
            }
            _ => panic!("{} is blocked", u),
        }
    }
    assert_eq!(s.intercept_counter, 0);
}

#[test]
fn requests_wait_for_decisions() {
    let mut s = ObscuraState::new();
    s.intercept_enabled = true;
    let call = fetch_call("http://example.com/", "PUT", "{\"B\":\"2\",\"A\":\"1\",\"B\":\"3\"}", "");
    assert!(matches!(op_fetch_url(&mut s, &call, false, false), Admission::Proceed));
    s.has_intercept_tx = true;
    match op_fetch_url(&mut s, &call, false, false) {
        Admission::Intercept(q) => {
            assert_eq!(q.request_id, "intercept-2");
            assert_eq!((q.url.as_str(), q.method.as_str()), ("http://example.com/", "PUT"));
            assert_eq!(q.resource_type, "Fetch");
            assert_eq!(q.headers.get("A"), Some("1"));
            assert_eq!(q.headers.get("B"), Some("3"));
            assert_eq!(q.headers.entries.len(), 2);
        }
        _ => panic!("someone is asked"),
    }
    assert_eq!(s.intercept_counter, 2);
    let given = InterceptResolution::Fulfill { status: 201, headers: map(&[("x", "y")]), body: "b".into() };
    assert_eq!(
        on_resolution(&call, Some(given)).unwrap().to_text(),
        "{\"status\":201,\"body\":\"b\",\"url\":\"http://example.com/\",\"headers\":{\"x\":\"y\"}}"
    );
    let failed = InterceptResolution::Fail { reason: "Aborted".into() };
    let reply = on_resolution(&call, Some(failed)).unwrap();
    assert_eq!(reply.get_str("error"), Some("Aborted"));
    assert_eq!(reply.get_u64_or("status", 9), 0);
    let go = InterceptResolution::Continue { url: None, method: None, headers: None, body: None };
    assert!(on_resolution(&call, Some(go)).is_none());
    assert!(on_resolution(&call, None).is_none());
}

#[test]
fn origins_are_compared() {
    let at = |u: &str, o: &str| ScriptFetch::start(&fetch_call(u, "GET", "{}", o), false);
    assert!(!at("http://a.example:81/x", "http://a.example:81").cross_origin);
    assert!(at("http://a.example:81/x", "http://a.example").cross_origin);
    assert!(at("https://a.example/x", "http://a.example").cross_origin);
    let own = at("http://a.example/x", "");
    assert_eq!(own.page_origin, "http://a.example");
    assert!(!own.cross_origin);
    let no_url = at("x", "http://a.example");
    assert!(no_url.cross_origin);
    assert!(!at("x", "").cross_origin);
}

#[test]
fn preflights_are_asked() {
    let far = |method: &str, headers: &str| {
        ScriptFetch::start(&fetch_call("http://b.example/", method, headers, "http://a.example"), false)
    };
    assert!(far("GET", "{}").preflight().is_none());
    assert!(far("POST", "{\"Content-TYPE\":\"text/plain\"}").preflight().is_none());
    assert!(far("bad method", "{}").preflight().is_none());
    let asked = far("PUT", "{\"X-B\":\"1\",\"X-A\":\"2\"}").preflight().unwrap();
    assert_eq!(asked, vec![
        ("Origin".to_string(), "http://a.example".to_string()),
        ("Access-Control-Request-Method".to_string(), "PUT".to_string()),
        ("Access-Control-Request-Headers".to_string(), "X-A, X-B".to_string()),
    ]);
    let get = far("GET", "{\"X-A\":\"2\"}");
    assert!(get.preflight().is_some());
    assert_eq!(get.on_preflight(Some("*")), Ok(()));
    assert_eq!(get.on_preflight(Some("http://a.example")), Ok(()));
    assert_eq!(
        get.on_preflight(None),
        Err("CORS preflight: Origin 'http://a.example' not allowed by Access-Control-Allow-Origin ''".to_string())
    );
    assert_eq!(get.preflight_failed("x"), "CORS preflight failed: x");
    let near = ScriptFetch::start(&fetch_call("http://a.example/", "PUT", "{}", "http://a.example"), false);
    assert!(near.preflight().is_none());
}

#[test]
fn scripts_requests_carry_headers() {
    let mut s = ObscuraState::new();
    let near = ScriptFetch::start(&fetch_call("http://a.example/", "GET", "not json", ""), false);
    assert_eq!(near.outgoing(&mut s, "k=v").headers, vec![
        ("Cookie".to_string(), "k=v".to_string()),
        ("User-Agent".to_string(), DEFAULT_USER_AGENT.to_string()),
    ]);
    assert_eq!(near.outgoing(&mut s, "").headers.len(), 1);
    assert_eq!(near.outgoing(&mut s, "").body.as_deref(), Some("body"));
    let far = ScriptFetch::start(
        &fetch_call("http://b.example/", "weird", "{\"user-AGENT\":\"me\"}", "http://a.example"), false);
    let out = far.outgoing(&mut s, "k=v");
    assert_eq!(out.method, "weird");
    assert_eq!(out.headers, vec![
        ("Origin".to_string(), "http://a.example".to_string()),
        ("user-AGENT".to_string(), "me".to_string()),
    ]);
    assert_eq!(far.outgoing(&mut s, "other=jar").headers, out.headers);
}

#[test]
fn scripts_requests_are_redirected() {
    let mut s = ObscuraState::new();
    let mut f = ScriptFetch::start(&fetch_call("http://a.example/x", "PUT", "{}", ""), false);
    assert!(f.redirect_target(&mut s, 200, Some("/y")).is_none());
    assert!(f.redirect_target(&mut s, 302, None).is_none());
    assert!(f.redirect_target(&mut s, 302, Some("http://[")).is_none());
    let next = f.redirect_target(&mut s, 308, Some("/y")).unwrap();
    assert!(f.follow(308, &next, false).is_none());
    assert_eq!((f.current_url.as_str(), f.method.as_str(), f.body.as_str()), ("http://a.example/y", "PUT", "body"));
    let inside = f.redirect_target(&mut s, 301, Some("http://10.0.0.1/")).unwrap();
    let refused = f.follow(301, &inside, true).unwrap();
    assert_eq!(
        refused.get_str("error"),
        Some("Redirect to forbidden URL blocked: Access to private/internal IP address 10.0.0.1 is not allowed")
    );
    assert_eq!(refused.get_str("url"), Some("http://10.0.0.1/"));
    assert_eq!(f.current_url, "http://a.example/y");
    for i in 1..FETCH_REDIRECT_LIMIT {
        let next = f.redirect_target(&mut s, 301, Some(&format!("/{}", i))).unwrap();
        assert!(f.follow(301, &next, false).is_none());
    }
    assert_eq!((f.method.as_str(), f.body.as_str()), ("GET", ""));
    let last = f.redirect_target(&mut s, 301, Some("/z")).unwrap();
    let ended = f.follow(301, &last, false).unwrap();
    assert_eq!(ended.get_str("error"), Some("Too many redirects (>10)"));
    assert_eq!(f.cookie_url().unwrap().href, "http://a.example/9");
}

#[test]
fn responses_are_shown_or_hidden() {
    let near = ScriptFetch::start(&fetch_call("http://a.example/", "GET", "{}", ""), false);
    let h = map(&[("content-type", "text/plain")]);
    assert!(near.cors_reply(&h).is_none());
    assert_eq!(
        near.reply(200, &h, &vec![104, 105, 255]).to_text(),
        "{\"status\":200,\"body\":\"hi\u{fffd}\",\"bodyBase64\":\"aGn/\",\"url\":\"http://a.example/\",\
         \"headers\":{\"content-type\":\"text/plain\"}}"
    );
    assert_eq!(near.reply(200, &h, &vec![104]).get_str("bodyBase64"), Some("aA=="));
    assert_eq!(near.reply(200, &h, &vec![104, 105]).get_str("bodyBase64"), Some("aGk="));
    let far = ScriptFetch::start(&fetch_call("http://b.example/", "GET", "{}", "http://a.example"), false);
    let hidden = far.reply(200, &h, &vec![104]).to_text();
    assert_eq!(
        hidden,
        "{\"status\":0,\"body\":\"\",\"url\":\"http://b.example/\",\"headers\":{},\"corsBlocked\":true,\
         \"corsError\":\"CORS error: Origin 'http://a.example' not in Access-Control-Allow-Origin ''\"}"
    );
    assert_eq!(far.cors_reply(&h).unwrap().to_text(), hidden);
    for allowed in ["*", "http://a.example"] {
        assert!(far.cors_reply(&map(&[("access-control-allow-origin", allowed)])).is_none());
    }
    let mut open = fetch_call("http://b.example/", "GET", "{}", "http://a.example");
    open.mode = "no-cors".to_string();
    assert!(ScriptFetch::start(&open, false).cors_reply(&h).is_none());
    assert_eq!(headers_to_json(&h).to_text(), "{\"content-type\":\"text/plain\"}");
}

#[test]
fn services_are_set_up() {
    assert!(op_console_msg("warn") == ConsoleLevel::Warn);
    assert!(op_console_msg("error") == ConsoleLevel::Error);
    assert!(op_console_msg("log") == ConsoleLevel::Info);
    assert_eq!(fetch_timeout_ms(None), 30000);
    assert_eq!(fetch_timeout_ms(Some("1500")), 1500);
    assert_eq!(fetch_timeout_ms(Some("1.5")), 30000);
    let c = build_request_client(Some("http://p:1"), Some("9"));
    assert_eq!((c.timeout_ms, c.pool_idle_secs, c.keepalive_secs), (9, 300, 60));
    assert_eq!(c.proxy.as_deref(), Some("http://p:1"));
    assert_eq!(proxy_refused("p", "bad"), "Invalid op_fetch_url proxy 'p': bad");
    assert_eq!(client_refused("bad"), "failed to build reqwest::Client: bad");
    let mut s = ObscuraState::new();
    s.http_client = Some(ObscuraHttpClient::with_options((), Some("http://p:1")));
    assert_eq!(s.fetch_proxy(), Some("http://p:1"));
}

#[test]
fn clients_are_made_once() {
    let mut c = ClientCache::new();
    assert_eq!(c.cached_request_client(None), None);
    assert_eq!(c.keep(None), 0);
    assert_eq!(c.keep(Some("http://p:1")), 1);
    assert_eq!(c.keep(Some("http://p:1")), 1);
    assert_eq!(c.cached_request_client(Some("http://p:1")), Some(1));
    assert_eq!(c.cached_request_client(Some("")), Some(0));
    assert_eq!(c.cached_request_client(Some("http://p:2")), None);
}

fn hex(b: &[u8]) -> String {
    b.iter().map(|x| format!("{:02x}", x)).collect()
}

#[test]
fn digests_are_computed() {
    let d = |alg: &str| hex(&op_subtle_digest(alg, b"abc"));
    assert_eq!(d("sha-1"), "a9993e364706816aba3e25717850c26c9cd0d89d");
    let sha256 = "ba7816bf8f01cfea414140de5dae2223b00361a396177a9cb410ff61f20015ad";
    assert_eq!(d("SHA-256"), sha256);
    assert_eq!(d("MD5"), sha256);
    assert_eq!(d("Sha-384"), "cb00753f45a35e8bb5a03d699ac65007272c32ab0eded1631a8b605a43ff5bed8086072ba1e7cc2358baeca134c825a7");
    assert_eq!(d("SHA-512"), "ddaf35a193617abacc417349ae20413112e6fa4e89a97ea20a9eeee64b55d39a2192992a274fc1a836ba3c23a3feebbd454d4423643ce80e2a9ac94fa54ca49f");
}

#[test]
fn urls_are_taken_apart() {
    assert_eq!(
        op_url_parse("http://u:p@Example.com:8080/a?q#f", ""),
        "{\"ok\":true,\"href\":\"http://u:p@example.com:8080/a?q#f\",\"protocol\":\"http:\",\"username\":\"u\",\
         \"password\":\"p\",\"host\":\"example.com:8080\",\"hostname\":\"example.com\",\"port\":\"8080\",\
         \"pathname\":\"/a\",\"search\":\"?q\",\"hash\":\"#f\",\"origin\":\"http://example.com:8080\"}"
    );
    assert_eq!(op_url_parse("nope", ""), "{\"ok\":false}");
    assert_eq!(op_url_parse("x", "also nope"), "{\"ok\":false}");
    let part = |t: &str, k: &str| Json::parse(t).ok().unwrap().get_str_or(k, "-");
    let bare = op_url_parse("?#", "http://a.example/b");
    assert_eq!(part(&bare, "search"), "");
    assert_eq!(part(&bare, "hash"), "");
    assert_eq!(part(&bare, "host"), "a.example");
    assert_eq!(op_url_resolve("../c", "http://a.example/b/d"), "http://a.example/c");
    assert_eq!(op_url_resolve("c", ""), "");
}

#[test]
fn urls_are_put_together() {
    let set = |part: &str, value: &str| {
        Json::parse(&op_url_set("http://u:p@a.example:81/x?q#f", part, value)).ok().unwrap().get_str_or("href", "-")
    };
    assert_eq!(set("href", "https://b.example/"), "https://b.example/");
    assert_eq!(set("href", "nope"), "http://u:p@a.example:81/x?q#f");
    assert_eq!(set("protocol", "https::"), "https://u:p@a.example:81/x?q#f");
    assert_eq!(set("protocol", "mailto"), "http://u:p@a.example:81/x?q#f");
    assert_eq!(set("username", "w"), "http://w:p@a.example:81/x?q#f");
    assert_eq!(set("password", ""), "http://u@a.example:81/x?q#f");
    assert_eq!(set("password", "w"), "http://u:w@a.example:81/x?q#f");
    assert_eq!(set("host", "b.example:82"), "http://u:p@b.example:82/x?q#f");
    assert_eq!(set("host", "b.example:"), "http://u:p@b.example/x?q#f");
    assert_eq!(set("host", "b.example:99999"), "http://u:p@b.example:81/x?q#f");
    assert_eq!(set("host", "b.example"), "http://u:p@b.example:81/x?q#f");
    assert_eq!(set("host", "[::1]:82"), "http://u:p@[::1]:82/x?q#f");
    assert_eq!(set("host", "[::1]"), "http://u:p@[::1]:81/x?q#f");
    assert_eq!(set("host", "[::1"), "http://u:p@a.example:81/x?q#f");
    assert_eq!(set("hostname", "c.example"), "http://u:p@c.example:81/x?q#f");
    assert_eq!(set("hostname", ""), "http://u:p@a.example:81/x?q#f");
    assert_eq!(set("port", "82"), "http://u:p@a.example:82/x?q#f");
    assert_eq!(set("port", ""), "http://u:p@a.example/x?q#f");
    assert_eq!(set("port", "x"), "http://u:p@a.example:81/x?q#f");
    assert_eq!(set("pathname", "y z"), "http://u:p@a.example:81/y%20z?q#f");
    assert_eq!(set("search", "?r"), "http://u:p@a.example:81/x?r#f");
    assert_eq!(set("search", ""), "http://u:p@a.example:81/x#f");
    assert_eq!(set("hash", "#g"), "http://u:p@a.example:81/x?q#g");
    assert_eq!(set("hash", "#"), "http://u:p@a.example:81/x?q");
    assert_eq!(set("unknown", "z"), "http://u:p@a.example:81/x?q#f");
    assert_eq!(op_url_set("nope", "port", "1"), "{\"ok\":false}");
    assert!(url_set_inner("nope", "port", "1").is_none());
}

#[test]
fn edits_are_planned() {
    let host = |v: &str| match set_host_port(v) {
        UrlEdit::Host(h, p) => (h, p),
        _ => panic!("a host"),
    };
    assert!(host("a:80") == ("a".to_string(), PortEdit::To(80)));
    assert!(host("a:") == ("a".to_string(), PortEdit::Clear));
    assert!(host("a:b") == ("a:b".to_string(), PortEdit::Keep));
    assert!(host("a:65536") == ("a".to_string(), PortEdit::Keep));
    assert!(host("[::1]:8") == ("[::1]".to_string(), PortEdit::To(8)));
    assert!(host("[::1]8") == ("[::1]".to_string(), PortEdit::Keep));
    assert!(host("[::1:8") == ("[::1".to_string(), PortEdit::To(8)));
    assert!(matches!(plan_edit("protocol", "ftp:::"), UrlEdit::Scheme(s) if s == "ftp"));
    assert!(matches!(plan_edit("password", ""), UrlEdit::Password(None)));
    assert!(matches!(plan_edit("hostname", ""), UrlEdit::Nothing));
    assert!(matches!(plan_edit("port", "+7"), UrlEdit::Port(Some(7))));
    assert!(matches!(plan_edit("search", "??"), UrlEdit::Query(Some(q)) if q == "?"));
    assert!(matches!(plan_edit("hash", "#"), UrlEdit::Fragment(None)));
    assert!(matches!(plan_edit("origin", "x"), UrlEdit::Nothing));
}

#[test]
fn parsed_urls_decide() {
    let mut s = ObscuraState::new();
    let call = fetch_call("u", "GET", "", "");
    assert!(matches!(take_request(&mut s, &call, &Some("no".into()), StringMap::new()), Admission::Reply(_)));
    assert!(matches!(take_request(&mut s, &call, &None, StringMap::new()), Admission::Proceed));
    let mut f = ScriptFetch::begin(&call, &None, map(&[("x", "y")]), false);
    assert_eq!(f.page_origin, "");
    assert_eq!(f.custom_headers.get("x"), Some("y"));
    let next = UrlRecord::parse("http://a.example/").ok().unwrap();
    let inside = Some(UrlHost::Ipv4(10, 0, 0, 1));
    assert!(f.follow_to(302, &next, &inside, true).is_some());
    assert!(f.follow_to(302, &next, &inside, false).is_none());
}

#[test]
fn encodings_are_answered() {
    assert_eq!(op_encoding_for_label(Some("euc-jp".into())), "euc-jp");
    assert_eq!(op_encoding_for_label(None), "");
    assert_eq!(op_text_decode(Some("a\"")), "{\"ok\":true,\"v\":\"a\\\"\"}");
    assert_eq!(op_text_decode(None), "{\"ok\":false}");
    assert_eq!(op_url_encode_query("q", None), "q");
    assert_eq!(op_url_encode_query("q", Some("%71".into())), "%71");
}

#[test]
fn scripts_requests_are_counted_while_they_run() {
    let mut s = ObscuraState::new();
    s.http_client = Some(ObscuraHttpClient::new());
    let running = |s: &ObscuraState| s.http_client.as_ref().unwrap().active_requests();
    let f = ScriptFetch::start(&fetch_call("http://a.example/x", "PUT", "{}", ""), false);
    f.outgoing(&mut s, "");
    assert_eq!(running(&s), 1);
    assert!(f.redirect_target(&mut s, 302, Some("/y")).is_some());
    assert_eq!(running(&s), 0);
    f.outgoing(&mut s, "");
    assert_eq!(running(&s), 1);
    assert_eq!(f.send_failed(&mut s, "refused"), "refused");
    assert_eq!(running(&s), 0);
}

#[test]
fn empty_hosts_are_set_where_they_can_be() {
    for value in ["", ":", ":2"] {
        assert_eq!(op_url_set("foo://h:1/", "host", value), op_url_parse("foo://h:1/", ""));
        assert_eq!(op_url_set("http://h:81/", "host", value), op_url_parse("http://h:81/", ""));
    }
    let set = |href: &str, value: &str| {
        Json::parse(&op_url_set(href, "host", value)).ok().unwrap().get_str_or("href", "-")
    };
    assert_eq!(set("foo://h/x", ""), "foo:///x");
    assert_eq!(set("foo://u@h:1/", ""), "foo://u@:1/");
    assert_eq!(set("foo://:p@h:1/", ":2"), "foo://:p@:1/");
    assert_eq!(set("foo:/x", ":"), "foo:///x");
    assert_eq!(set("foo:/.//x", "h:"), "foo://h/.//x");
    assert_eq!(set("foo:/.//x", "h:2"), "foo://h:2//x");
    assert_eq!(set("file:///x", "localhost:2"), "file://localhost/x");
    assert_eq!(set("http://a:81/", "b:80"), "http://b/");
}

#[test]
fn parts_are_set_as_the_crate_sets_them() {
    for href in ["http://u@a.example:81/x?q#f", "foo://h/x", "foo:/x?q", "foo:x  ?q#f", "file:///C:/x", "foo://h:1"] {
        for host in ["b", "B.example", "1", "[::1]", "a b", "", "x@y"] {
            for port in ["", ":", ":7", ":80", ":99999"] {
                let mut want = url::Url::parse(href).unwrap();
                let took = want.set_host(Some(host)).is_ok();
                if took && port == ":" && !host.starts_with('[') {
                    let _ = want.set_port(None);
                } else if let (true, Ok(p)) = (took, port.trim_start_matches(':').parse::<u16>()) {
                    let _ = want.set_port(Some(p));
                }
                if host.is_empty() && want.port().is_some() && want.as_str().contains("//:") {
                    want = url::Url::parse(href).unwrap();
                }
                let value = format!("{}{}", host, port);
                let got = Json::parse(&op_url_set(href, "host", &value)).ok().unwrap();
                assert_eq!(got.get_str("href"), Some(want.as_str()), "{} {}", href, value);
            }
        }
    }
}

#[test]
fn marks_make_no_difference() {
    let set = |href: &str, part: &str, value: &str| {
        Json::parse(&op_url_set(href, part, value)).ok().unwrap().get_str_or("href", "-")
    };
    let href = "http://a.example/x?q#f";
    assert_eq!(set(href, "search", "r"), set(href, "search", "?r"));
    assert_eq!(set(href, "hash", "r"), set(href, "hash", "#r"));
    assert_eq!(set(href, "search", ""), "http://a.example/x#f");
    assert_eq!(set(href, "hash", "#"), "http://a.example/x?q");
    assert_eq!(set("foo:x  ?q", "search", ""), "foo:x");
    assert!(url_set_inner("nope", "hash", "").is_none());
    assert!(url_set_inner(href, "href", "nope").is_none());
    assert!(url_set_inner(href, "other", "nope").is_some());
}

#[test]
fn resolving_agrees_with_parsing() {
    for (href, base) in [
        ("a", "http://h/b/"), ("http://h/", ""), ("http://h/", "nope"), ("", ""), ("", "http://h/?q#f"),
        ("//x", "foo:/y"), ("x", "mailto:y"),
    ] {
        let parsed = Json::parse(&op_url_parse(href, base)).ok().unwrap();
        let resolved = op_url_resolve(href, base);
        assert_eq!(parsed.get_str_or("href", ""), resolved);
        assert_eq!(resolved.is_empty(), op_url_parse(href, base) == "{\"ok\":false}");
    }
}

#[test]
fn origins_are_told() {
    let origin = |t: &str| {
        Json::parse(&op_url_parse(t, "")).ok().unwrap().get_str_or("origin", "-").to_string()
    };
    assert_eq!(origin("http://u:p@Example.com:80/a"), "http://example.com");
    assert_eq!(origin("https://example.com:8443/a"), "https://example.com:8443");
    assert_eq!(origin("file:///a"), "null");
    assert_eq!(origin("blob:https://example.com/1-2"), "https://example.com");
    for t in [
        "ws://[::1]:80/", "wss://1.2.3.4:81/", "ftp://a.example:21/", "data:,x", "blob:data:,x",
        "blob:file:///a", "blob:nope", "blob:blob:http://a.example:81/x", "blob:blob:blob:ftp://a.example/",
        "blob:http://a.example/?q#f", "other://a.example/",
    ] {
        assert_eq!(origin(t), url::Url::parse(t).unwrap().origin().ascii_serialization());
    }
}

#[test]
fn deeply_nested_urls_are_taken() {
    let text = format!("{}http://a.example/", "blob:".repeat(2000));
    let parsed = Json::parse(&op_url_parse(&text, "")).ok().unwrap();
    assert_eq!(parsed.get_str("origin"), Some("http://a.example"));
    let colons = format!("blob:http://a.example/{}", ":".repeat(200));
    assert_eq!(UrlRecord::parse(&colons).ok().unwrap().origin(), "http://a.example");
    let nothing = format!("{}nope", "blob:".repeat(200));
    assert_eq!(UrlRecord::parse(&nothing).ok().unwrap().origin(), "null");
    assert_eq!(UrlRecord::parse(&text).ok().unwrap().href, text);
}

#[test]
fn attributes_are_split_at_the_first_nul() {
    let s = page();
    assert!(matches!(call(&s, "set_attribute", "3", "class\0x\0y"),
        DomCall::SetAttribute { node: 3, name, value, .. } if name == "class" && value == "x\0y"));
}

#[test]
fn records_of_urls_stay() {
    let u = UrlRecord::parse("http://a.example/").ok().unwrap();
    assert_eq!(obscura::js::ops::url_components(&u).get_str("hostname"), Some("a.example"));
}
