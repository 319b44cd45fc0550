//! The server and its messages.

use obscura::assoc::StringMap;
use obscura::cdp::dispatch::{dispatch, CdpContext, DispatchStep};
use obscura::cdp::http::{find_endpoint, handle_connection, handle_http_json, Endpoint};
use obscura::cdp::navigation::{
    new_loader_id, process_with_interception, start_navigation, strictest, Arrival, InterceptStart,
    Navigation, NetworkEvent, WaitUntil,
};
use obscura::cdp::server::{
    answer_client, busy_reply, check_pending_navigation, fast_path_response,
    handle_fetch_resolution, is_hidden, message_replies, navigation_request, on_client_text,
    process_cdp_message, resolve_fetch, CdpProcessor, ClientAction, Meanwhile, Route,
    ServerMessage, MAX_DEFERRED_MESSAGES,
};
use obscura::cdp::types::{CdpError, CdpEvent, CdpRequest, CdpResponse};
use obscura::js::state::{InterceptResolution, InterceptedRequest};
use obscura::json::Json;

fn cdp(text: &str) -> ServerMessage {
    ServerMessage::Cdp { text: text.to_string(), client: 7 }
}

fn parse(text: &str) -> Json {
    Json::parse(text).ok().unwrap()
}

#[test]
fn requests_are_read() {
    let q = CdpRequest::parse("{\"id\":3,\"method\":\"A.b\",\"params\":{\"x\":1},\"sessionId\":\"s\"}").unwrap();
    assert_eq!((q.id, q.method.as_str(), q.session_id.as_deref()), (3, "A.b", Some("s")));
    assert_eq!(q.params.to_text(), "{\"x\":1}");
    let bare = CdpRequest::parse("{\"id\":3,\"method\":\"A.b\",\"sessionId\":null}").unwrap();
    assert!(bare.session_id.is_none());
    assert_eq!(bare.params.to_text(), "null");
    for t in [
        "{\"method\":\"A.b\"}", "{\"id\":-1,\"method\":\"A.b\"}", "{\"id\":1}",
        "{\"id\":1,\"method\":2}", "{\"id\":1,\"method\":\"A.b\",\"sessionId\":2}", "[]", "{",
    ] {
        assert!(CdpRequest::parse(t).is_none());
    }
    assert!(process_cdp_message("{").is_none());
    assert_eq!(process_cdp_message("{\"id\":3,\"method\":\"A.b\"}").unwrap().id, 3);
}

#[test]
fn answers_are_written() {
    let ok = CdpResponse::success(1, Json::object(), Some("s".into()));
    assert_eq!(ok.to_text(), "{\"id\":1,\"result\":{},\"sessionId\":\"s\"}");
    let bad = CdpResponse::error(2, -32000, "no".into(), None);
    assert_eq!(bad.to_text(), "{\"id\":2,\"error\":{\"code\":-32000,\"message\":\"no\"}}");
    let event = CdpEvent { method: "A.b".into(), params: Json::object(), session_id: None };
    assert_eq!(event.to_text(), "{\"method\":\"A.b\",\"params\":{}}");
    let _ = CdpError { code: 1, message: String::new() };
}

#[test]
fn contexts_start_empty() {
    let c = CdpContext::new_with_security(Some("p".into()), true, Some("ua".into()), true);
    assert!(c.pages.is_empty() && c.pending_events.is_empty());
    assert_eq!(c.valid_context_ids, vec![1, 2]);
    assert_eq!(c.default_context.id, "default");
    assert_eq!(c.default_context.proxy.as_deref(), Some("p"));
    assert!(c.default_context.stealth && c.default_context.allow_file_access);
    assert!(CdpContext::new_with_proxy(None).default_context.proxy.is_none());
    assert!(!CdpContext::new_with_options(None, false).default_context.stealth);
    assert!(CdpContext::new_with_full_options(None, true, None).default_context.stealth);
    let kept = CdpContext::new_with_storage(None, false, None, Some("d".into()));
    assert_eq!(kept.default_context.storage_dir.as_deref(), Some("d"));
}

#[test]
fn pages_come_and_go() {
    let mut c = CdpContext::new();
    assert_eq!(c.create_page(), "page-1");
    let (page, session) = c.create_page_with_session();
    assert_eq!((page.as_str(), session.as_str()), ("page-2", "page-2-session"));
    assert_eq!(c.get_page("page-2").unwrap().id, "page-2");
    assert!(c.get_page("page-3").is_none());
    c.get_page_mut("page-2").unwrap().has_js = true;
    assert!(c.get_session_page(&Some(session.clone())).unwrap().has_js);
    assert!(c.get_session_page(&None).is_none());
    c.remove_page("page-2");
    assert!(c.get_page("page-2").is_none());
    assert!(c.get_session_page(&Some(session.clone())).is_none());
    assert!(c.session_page_name(&Some(session)).is_none());
    assert_eq!(c.pages.len(), 1);
    assert_eq!(c.create_page(), "page-3");
}

#[test]
fn one_page_is_awake() {
    let mut c = CdpContext::new();
    let (a, sa) = c.create_page_with_session();
    let (b, sb) = c.create_page_with_session();
    c.get_page_mut(&a).unwrap().has_js = true;
    let same = c.get_session_page_mut(&Some(sa));
    assert_eq!((same.suspend, same.resume, same.page), (vec![], None, Some(a.clone())));
    let other = c.get_session_page_mut(&Some(sb.clone()));
    assert_eq!((other.suspend, other.resume, other.page), (vec![a.clone()], Some(b.clone()), Some(b.clone())));
    assert!(!c.get_page(&a).unwrap().has_js);
    c.get_page_mut(&b).unwrap().has_js = true;
    assert_eq!(c.pages.iter().filter(|p| p.has_js).count(), 1);
    let none = c.get_session_page_mut(&Some("x".into()));
    assert_eq!((none.suspend, none.resume, none.page), (vec![], None, None));
    assert_eq!(c.suspend_all(), vec![b]);
    assert!(c.pages.iter().all(|p| !p.has_js));
    assert_eq!(check_pending_navigation(&c, &Some(sb)).as_deref(), Some("page-2"));
}

#[test]
fn all_other_pages_are_put_to_sleep() {
    let mut c = CdpContext::new();
    let (a, sa) = c.create_page_with_session();
    let (b, sb) = c.create_page_with_session();
    let (d, _) = c.create_page_with_session();
    for p in [&a, &b, &d] {
        c.get_page_mut(p).unwrap().has_js = true;
    }
    let live = c.get_session_page_mut(&Some(sb));
    assert_eq!((live.suspend, live.resume, live.page), (vec![a.clone(), d.clone()], None, Some(b.clone())));
    assert_eq!(c.pages.iter().filter(|p| p.has_js).count(), 1);
    c.get_page_mut(&d).unwrap().has_js = true;
    let asleep = c.get_session_page_mut(&Some(sa));
    assert_eq!((asleep.suspend, asleep.resume, asleep.page), (vec![b, d], Some(a.clone()), Some(a)));
    assert!(c.pages.iter().all(|p| !p.has_js));
}

#[test]
fn methods_without_a_domain_are_refused() {
    let q = CdpRequest { id: 4, method: "enable".into(), params: Json::Null, session_id: Some("s".into()) };
    match dispatch(&q) {
        DispatchStep::Reply(r) => {
            assert_eq!((r.id, r.session_id.as_deref()), (4, Some("s")));
            assert_eq!(r.error.unwrap().message, "Invalid method format: enable");
        }
        _ => panic!("it is refused"),
    }
    let wrapper = CdpRequest {
        id: 4, method: "Target.sendMessageToTarget".into(), params: Json::object(), session_id: None,
    };
    match dispatch(&wrapper) {
        DispatchStep::Reply(r) => {
            let e = r.error.unwrap();
            assert_eq!(e.code, -32602);
            assert_eq!(e.message, "sendMessageToTarget requires a message string");
        }
        _ => panic!("it is refused"),
    }
}

#[test]
fn events_go_before_the_answer() {
    let mut c = CdpContext::new();
    for m in ["Target.targetCreated", "Target.attachedToTarget"] {
        c.pending_events.push(CdpEvent { method: m.into(), params: Json::object(), session_id: None });
    }
    let out = message_replies(&mut c, &CdpResponse::success(1, Json::object(), None));
    assert_eq!(out.len(), 3);
    assert!(out[0].contains("targetCreated") && out[1].contains("attachedToTarget"));
    assert_eq!(out[2], "{\"id\":1,\"result\":{}}");
    assert!(c.pending_events.is_empty());
    let q = navigation_request(&Some("s".into()), "u", "POST", "b");
    assert_eq!((q.id, q.method.as_str()), (0, "Page.navigate"));
    assert_eq!(q.params.to_text(), "{\"url\":\"u\",\"__method\":\"POST\",\"__body\":\"b\"}");
}

#[test]
fn fast_answers_skip_the_line() {
    let ask = |m: &str| fast_path_response(&format!("{{\"id\":1,\"method\":\"{}\"}}", m));
    assert_eq!(ask("Page.enable").as_deref(), Some("{\"id\":1,\"result\":{}}"));
    assert_eq!(
        ask("Browser.getVersion").as_deref(),
        Some("{\"id\":1,\"result\":{\"protocolVersion\":\"1.3\",\"product\":\"Obscura/0.1.0\",\"revision\":\"0\",\
              \"userAgent\":\"Obscura/0.1.0\",\"jsVersion\":\"V8\"}}")
    );
    assert_eq!(
        ask("Target.getBrowserContexts").as_deref(),
        Some("{\"id\":1,\"result\":{\"browserContextIds\":[\"default\"]}}")
    );
    assert_eq!(ask("Page.navigate"), None);
    assert_eq!(fast_path_response("{"), None);
}

#[test]
fn clients_are_served() {
    assert!(matches!(on_client_text("{\"id\":1,\"method\":\"Browser.close\",\"sessionId\":\"s\"}"),
        ClientAction::Close(Some(t)) if t == "{\"id\":1,\"result\":{}}"));
    assert!(matches!(on_client_text("\"Browser.close\""), ClientAction::Close(None)));
    assert!(matches!(on_client_text("{\"id\":1,\"method\":\"Log.enable\"}"), ClientAction::Reply(_)));
    assert!(matches!(on_client_text("{\"id\":1,\"method\":\"Page.navigate\"}"), ClientAction::Forward));
    assert!(is_hidden("{\"__init\":true}"));
    assert!(!is_hidden("{\"init\":true}"));
}

#[test]
fn connections_are_told_apart() {
    let see = |t: &str| handle_connection(&t.as_bytes()[..4], t.as_bytes());
    assert!(see("GET /json/version HTTP/1.1") == Endpoint::Version);
    assert!(see("GET /json/list HTTP/1.1") == Endpoint::List);
    assert!(see("GET /json HTTP/1.1") == Endpoint::List);
    assert!(see("GET /json\r\n") == Endpoint::List);
    assert!(see("GET /json/protocol HTTP/1.1") == Endpoint::Protocol);
    assert!(see("GET /devtools/browser HTTP/1.1") == Endpoint::WebSocket);
    assert!(see("POST /json/version HTTP/1.1") == Endpoint::WebSocket);
    assert!(handle_connection(b"GET ", b"GET /json/version\xff") == Endpoint::Version);
    assert!(find_endpoint("/json/list /json/version") == Endpoint::Version);
}

#[test]
fn the_server_describes_itself() {
    let r = handle_http_json(9222, "version");
    let (head, body) = r.split_once("\r\n\r\n").unwrap();
    assert_eq!(head, format!(
        "HTTP/1.1 200 OK\r\nContent-Type: application/json; charset=utf-8\r\nContent-Length: {}\r\nConnection: close",
        body.len()));
    let v = parse(body);
    assert_eq!(v.get_str("webSocketDebuggerUrl"), Some("ws://127.0.0.1:9222/devtools/browser"));
    assert_eq!(v.get_str("User-Agent"), Some("Obscura/0.1.0 (Headless Browser)"));
    let list = handle_http_json(1, "list");
    assert!(list.contains("\"webSocketDebuggerUrl\": \"ws://127.0.0.1:1/devtools/page/page-1\""));
    assert!(list.contains("\r\n\r\n[\n  {\n    \"description\": \"\""));
    assert!(handle_http_json(1, "protocol").ends_with(
        "{\n  \"version\": {\n    \"major\": \"1\",\n    \"minor\": \"3\"\n  }\n}"));
    assert!(handle_http_json(1, "other").ends_with("Content-Length: 2\r\nConnection: close\r\n\r\n{}"));
}

#[test]
fn decisions_are_taken() {
    let mut paused = vec!["a".to_string(), "b".to_string(), "c".to_string(), "d".to_string()];
    let full = "{\"id\":5,\"method\":\"Fetch.fulfillRequest\",\"sessionId\":\"s\",\"params\":{\"requestId\":\"b\",\
                \"responseCode\":65740,\"body\":\"aGk=\",\"responseHeaders\":[{\"name\":\"x\",\"value\":\"1\"},\
                {\"name\":\"y\"},{\"name\":\"x\",\"value\":\"2\"}]}}";
    let r = handle_fetch_resolution(full, &mut paused).unwrap();
    assert_eq!(r.request_id, "b");
    assert_eq!(r.reply.as_deref(), Some("{\"id\":5,\"result\":{},\"sessionId\":\"s\"}"));
    match r.resolution {
        Some(InterceptResolution::Fulfill { status, headers, body }) => {
            assert_eq!((status, body.as_str()), (204, "hi"));
            assert_eq!(headers.entries, vec![("x".to_string(), "2".to_string())]);
        }
        _ => panic!("a response is given"),
    }
    assert_eq!(paused, vec!["a", "c", "d"]);
    let go = "{\"id\":5,\"method\":\"Fetch.continueRequest\",\"params\":{\"requestId\":\"a\"}}";
    assert!(matches!(handle_fetch_resolution(go, &mut paused).unwrap().resolution,
        Some(InterceptResolution::Continue { url: None, method: None, headers: None, body: None })));
    assert!(handle_fetch_resolution(go, &mut paused).is_none());
    let fail = "{\"id\":5,\"method\":\"Fetch.failRequest\",\"params\":{\"requestId\":\"c\"}}";
    assert!(matches!(handle_fetch_resolution(fail, &mut paused).unwrap().resolution,
        Some(InterceptResolution::Fail { reason }) if reason == "Failed"));
    let odd = "{\"id\":5,\"method\":\"Fetch.getResponseBody\",\"params\":{\"requestId\":\"d\"}}";
    let dropped = handle_fetch_resolution(odd, &mut paused).unwrap();
    assert!(dropped.resolution.is_none() && dropped.reply.is_none());
    assert!(paused.is_empty());
    assert!(handle_fetch_resolution("{", &mut paused).is_none());
    let plain = "{\"id\":5,\"method\":\"Fetch.fulfillRequest\",\"params\":{\"requestId\":\"e\"}}";
    paused.push("e".to_string());
    assert!(matches!(handle_fetch_resolution(plain, &mut paused).unwrap().resolution,
        Some(InterceptResolution::Fulfill { status: 200, .. })));
}

fn request(id: u64, method: &str, params: &str) -> CdpRequest {
    CdpRequest { id, method: method.into(), params: parse(params), session_id: None }
}

#[test]
fn parsed_requests_are_served() {
    let mut paused = vec!["a".to_string()];
    let other = request(1, "Fetch.failRequest", "{\"requestId\":\"b\"}");
    assert!(resolve_fetch(&other, &mut paused).is_none());
    assert_eq!(paused, vec!["a"]);
    let why = request(1, "Fetch.failRequest", "{\"requestId\":\"a\",\"errorReason\":\"Aborted\"}");
    assert!(matches!(resolve_fetch(&why, &mut paused).unwrap().resolution,
        Some(InterceptResolution::Fail { reason }) if reason == "Aborted"));
    assert!(matches!(answer_client("x", Some(request(1, "Page.enable", "null"))), ClientAction::Reply(_)));
    assert!(matches!(answer_client("x", Some(request(1, "Page.reload", "null"))), ClientAction::Forward));
    assert!(matches!(answer_client("\"Browser.close\"", None), ClientAction::Close(None)));
    let mut p = CdpProcessor::new(None, false, None, None);
    assert!(matches!(p.resolve_or_wait("Fetch.failRequest".into(), 1, None), Meanwhile::Resolve(None)));
    assert!(matches!(p.resolve_or_wait("x".into(), 1, None), Meanwhile::Deferred));
    assert_eq!(p.deferred.len(), 1);
    let mut ctx = CdpContext::new();
    assert!(start_navigation(&mut ctx, request(1, "Page.navigate", "{}"), "l".into()).is_none());
    assert!(ctx.can_create_page());
}

#[test]
fn messages_are_routed() {
    let mut p = CdpProcessor::new(None, false, None, None);
    assert!(p.ctx.can_ask() && !p.ctx.intercepts());
    assert!(matches!(p.route(&ServerMessage::NewConnection { client: 1 }),
        Route::Send(t) if t == "{\"__init\":true}"));
    let nav = cdp("{\"id\":1,\"method\":\"Page.navigate\"}");
    assert!(matches!(p.route(&nav), Route::Process(None)));
    p.ctx.set_intercepts(true);
    assert!(matches!(p.route(&nav), Route::Intercept));
    p.paused.push("a".to_string());
    let go = cdp("{\"id\":1,\"method\":\"Fetch.continueRequest\",\"params\":{\"requestId\":\"a\"}}");
    assert!(matches!(p.route(&go), Route::Process(Some(r)) if r.request_id == "a"));
    assert!(matches!(p.route(&go), Route::Process(None)));
}

#[test]
fn messages_wait_in_line() {
    let mut p = CdpProcessor::new(None, false, None, None);
    for i in 0..MAX_DEFERRED_MESSAGES {
        assert!(matches!(p.on_message(cdp(&format!("m{}", i))), Meanwhile::Deferred));
    }
    match p.on_message(cdp("{\"id\":9,\"method\":\"Page.reload\"}")) {
        Meanwhile::Send(Some(t)) => assert_eq!(
            t,
            "{\"id\":9,\"error\":{\"code\":-32000,\"message\":\"Server busy: navigation in progress, try again later\"}}"
        ),
        _ => panic!("there is no room"),
    }
    assert!(matches!(p.on_message(cdp("no request")), Meanwhile::Send(None)));
    assert!(busy_reply(None).is_none());
    p.paused.push("a".to_string());
    let go = cdp("{\"id\":1,\"method\":\"Fetch.failRequest\",\"params\":{\"requestId\":\"a\"}}");
    assert!(matches!(p.on_message(go), Meanwhile::Resolve(Some(_))));
    assert_eq!(p.deferred.len(), MAX_DEFERRED_MESSAGES);
    match p.on_message(ServerMessage::NewConnection { client: 2 }) {
        Meanwhile::Send(Some(t)) => assert_eq!(
            t, "{\"__init\":true,\"pageId\":\"page-1\",\"sessionId\":\"page-1-session\"}"),
        _ => panic!("a page is made"),
    }
    for i in 0..MAX_DEFERRED_MESSAGES {
        assert!(matches!(p.next_deferred(), Some(ServerMessage::Cdp { text, client: 7 }) if text == format!("m{}", i)));
    }
    assert!(p.next_deferred().is_none());
}

fn navigation(ctx: &mut CdpContext, params: &str) -> Navigation {
    let (page, session) = ctx.create_page_with_session();
    ctx.get_page_mut(&page).unwrap().frame_id = "F".to_string();
    let text = format!("{{\"id\":3,\"method\":\"Page.navigate\",\"sessionId\":\"{}\",\"params\":{}}}", session, params);
    match process_with_interception(ctx, &text, "loader-x".to_string()) {
        InterceptStart::Navigate(n) => n,
        _ => panic!("the page navigates"),
    }
}

#[test]
fn navigations_start() {
    let mut ctx = CdpContext::new();
    ctx.let_ask();
    ctx.preload_scripts.push(("1".into(), "s1".into()));
    ctx.preload_scripts.push(("2".into(), "s2".into()));
    let (other, _) = ctx.create_page_with_session();
    ctx.get_page_mut(&other).unwrap().has_js = true;
    let n = navigation(&mut ctx, "{\"url\":\"http://a/\",\"waitUntil\":[\"load\",1,\"networkidle0\"]}");
    assert_eq!((n.id, n.url.as_str(), n.loader_id.as_str()), (3, "http://a/", "loader-x"));
    assert_eq!(n.page.id, "page-2");
    assert_eq!(n.suspended, vec!["page-1"]);
    assert_eq!(n.wait_names, vec!["load", "networkidle0"]);
    assert_eq!(n.preload_scripts, vec!["s1", "s2"]);
    assert!(n.asks);
    assert!(ctx.get_page("page-2").is_none());
    assert!(ctx.pages.iter().all(|p| !p.has_js));
    assert_eq!(navigation(&mut ctx, "{\"waitUntil\":\"load\"}").wait_names, vec!["load"]);
    assert!(matches!(process_with_interception(&mut ctx, "{", "l".into()), InterceptStart::Nothing));
    assert!(matches!(process_with_interception(&mut ctx, "{\"id\":1,\"method\":\"Page.navigate\"}", "l".into()),
        InterceptStart::Process));
}

#[test]
fn the_strictest_condition_counts() {
    assert!(strictest(&vec![]) == WaitUntil::Load);
    assert!(strictest(&vec![WaitUntil::DomContentLoaded]) == WaitUntil::DomContentLoaded);
    assert!(strictest(&vec![WaitUntil::Load, WaitUntil::NetworkIdle0, WaitUntil::NetworkIdle2]) == WaitUntil::NetworkIdle0);
}

#[test]
fn loaders_have_names_of_their_own() {
    let a = new_loader_id();
    let b = new_loader_id();
    assert!(a.starts_with("loader-") && a.len() == 43);
    for (i, ch) in a[7..].chars().enumerate() {
        let dash = [8, 13, 18, 23].contains(&i);
        assert!(if dash { ch == '-' } else { ch.is_ascii_hexdigit() && !ch.is_ascii_uppercase() });
    }
    assert_ne!(a, b);
}

#[test]
fn paused_requests_are_told() {
    let mut ctx = CdpContext::new();
    let n = navigation(&mut ctx, "{}");
    let mut headers = StringMap::new();
    headers.insert("x", "1");
    let q = InterceptedRequest {
        request_id: "intercept-1".into(), url: "http://a/".into(), method: "GET".into(), headers,
        resource_type: "Fetch".into(),
    };
    let mut paused = Vec::new();
    let (sent, waits) = n.on_intercepted(&mut paused, &q, parse("1.5"), parse("2.5"));
    assert_eq!(
        sent,
        "{\"method\":\"Network.requestWillBeSent\",\"params\":{\"requestId\":\"intercept-1\",\"loaderId\":\"\",\
         \"documentURL\":\"\",\"request\":{\"url\":\"http://a/\",\"method\":\"GET\",\"headers\":{\"x\":\"1\"},\
         \"initialPriority\":\"High\",\"referrerPolicy\":\"strict-origin-when-cross-origin\"},\"timestamp\":1.5,\
         \"wallTime\":2.5,\"initiator\":{\"type\":\"script\"},\"type\":\"Fetch\",\"frameId\":\"F\"},\
         \"sessionId\":\"page-1-session\"}"
    );
    assert_eq!(
        waits,
        "{\"method\":\"Fetch.requestPaused\",\"params\":{\"requestId\":\"intercept-1\",\"request\":{\"url\":\"http://a/\",\
         \"method\":\"GET\",\"headers\":{\"x\":\"1\"},\"initialPriority\":\"High\",\
         \"referrerPolicy\":\"strict-origin-when-cross-origin\"},\"frameId\":\"F\",\"resourceType\":\"Fetch\",\
         \"networkId\":\"intercept-1\",\"responseErrorReason\":null,\"responseStatusCode\":null,\
         \"responseHeaders\":null},\"sessionId\":\"page-1-session\"}"
    );
    assert_eq!(paused, vec!["intercept-1"]);
    n.on_intercepted(&mut paused, &q, Json::Null, Json::Null);
    assert_eq!(paused.len(), 1);
}

fn arrival(outcome: Result<(), String>, idle: bool) -> Arrival {
    Arrival {
        outcome,
        page_url: "http://a/".into(),
        network: vec![NetworkEvent {
            request_id: "r1".into(), url: "http://a/x".into(), method: "GET".into(), headers: StringMap::new(),
            resource_type: "Document".into(), timestamp: parse("7.25"), status: 200,
            response_headers: StringMap::new(), body_size: 12,
        }],
        network_idle: idle,
        timestamp: parse("9.5"),
    }
}

#[test]
fn navigations_end() {
    let mut ctx = CdpContext::new();
    let n = navigation(&mut ctx, "{}");
    let (late, _) = ctx.create_page_with_session();
    let out = n.finish(&mut ctx, true, &arrival(Ok(()), true));
    let names: Vec<String> = out.iter().map(|t| {
        let j = parse(t);
        let stage = j.get("params").map(|p| p.get_str_or("name", "")).unwrap_or_default();
        format!("{}{}", j.get_str_or("method", "answer"), stage)
    }).collect();
    assert_eq!(names, vec![
        "answer", "Page.lifecycleEventinit", "Runtime.executionContextsCleared", "Page.frameNavigated",
        "Runtime.executionContextCreated", "Page.lifecycleEventcommit", "Network.requestWillBeSent",
        "Network.responseReceived", "Network.loadingFinished", "Page.lifecycleEventDOMContentLoaded",
        "Page.domContentEventFired", "Page.lifecycleEventload", "Page.loadEventFired",
        "Page.lifecycleEventnetworkIdle", "Page.frameStoppedLoading",
    ]);
    assert_eq!(out[0], "{\"id\":3,\"result\":{\"frameId\":\"F\",\"loaderId\":\"loader-x\"},\"sessionId\":\"page-1-session\"}");
    assert_eq!(
        out[1],
        "{\"method\":\"Page.lifecycleEvent\",\"params\":{\"frameId\":\"F\",\"loaderId\":\"loader-x\",\"name\":\"init\",\
         \"timestamp\":9.5},\"sessionId\":\"page-1-session\"}"
    );
    assert_eq!(
        out[3],
        "{\"method\":\"Page.frameNavigated\",\"params\":{\"frame\":{\"id\":\"F\",\"loaderId\":\"loader-x\",\
         \"url\":\"http://a/\",\"domainAndRegistry\":\"\",\"securityOrigin\":\"http://a/\",\"mimeType\":\"text/html\",\
         \"adFrameStatus\":{\"adFrameType\":\"none\"}},\"type\":\"Navigation\"},\"sessionId\":\"page-1-session\"}"
    );
    assert_eq!(
        out[4],
        "{\"method\":\"Runtime.executionContextCreated\",\"params\":{\"context\":{\"id\":2,\"origin\":\"http://a/\",\
         \"name\":\"\",\"uniqueId\":\"ctx-nav-page-1\",\"auxData\":{\"isDefault\":true,\"type\":\"default\",\
         \"frameId\":\"F\"}}},\"sessionId\":\"page-1-session\"}"
    );
    assert_eq!(
        out[6],
        "{\"method\":\"Network.requestWillBeSent\",\"params\":{\"requestId\":\"r1\",\"loaderId\":\"loader-x\",\
         \"documentURL\":\"http://a/\",\"request\":{\"url\":\"http://a/x\",\"method\":\"GET\",\"headers\":{}},\
         \"timestamp\":7.25,\"wallTime\":7.25,\"initiator\":{\"type\":\"other\"},\"type\":\"Document\",\
         \"frameId\":\"F\"},\"sessionId\":\"page-1-session\"}"
    );
    assert_eq!(
        out[7],
        "{\"method\":\"Network.responseReceived\",\"params\":{\"requestId\":\"r1\",\"loaderId\":\"loader-x\",\
         \"timestamp\":7.25,\"type\":\"Document\",\"response\":{\"url\":\"http://a/x\",\"status\":200,\"statusText\":\"\",\
         \"headers\":{},\"mimeType\":\"\"},\"frameId\":\"F\"},\"sessionId\":\"page-1-session\"}"
    );
    assert_eq!(
        out[8],
        "{\"method\":\"Network.loadingFinished\",\"params\":{\"requestId\":\"r1\",\"timestamp\":7.25,\
         \"encodedDataLength\":12},\"sessionId\":\"page-1-session\"}"
    );
    let order: Vec<&str> = ctx.pages.iter().map(|p| p.id.as_str()).collect();
    assert_eq!(order, vec![late.as_str(), "page-1"]);
    assert!(ctx.get_page("page-1").unwrap().has_js);
}

#[test]
fn failed_navigations_are_told() {
    let mut ctx = CdpContext::new();
    let n = navigation(&mut ctx, "{}");
    let out = n.finish(&mut ctx, false, &arrival(Err("dns".into()), false));
    assert_eq!(out[0], "{\"id\":3,\"error\":{\"code\":-32000,\"message\":\"dns\"},\"sessionId\":\"page-1-session\"}");
    assert_eq!(out.len(), 14);
}
