//! Where requests go.

use obscura::cdp::dispatch::{answer, answer_wrapper, dispatch, unwrap_message, CdpContext, DispatchStep};
use obscura::cdp::server::fast_answer;
use obscura::cdp::types::CdpRequest;
use obscura::json::Json;

fn req(method: &str) -> CdpRequest {
    CdpRequest { id: 1, method: method.to_string(), params: Json::object(), session_id: None }
}

#[test]
fn audits_enable_returns_empty_success() {
    match dispatch(&req("Audits.enable")) {
        DispatchStep::Reply(resp) => {
            assert!(resp.error.is_none(), "Audits.enable should not error");
            assert_eq!(resp.result.map(|j| j.to_text()), Some("{}".to_string()));
        }
        _ => panic!("Audits.enable is answered at once"),
    }
}

#[test]
fn unknown_domain_still_errors() {
    match dispatch(&req("DefinitelyNotADomain.enable")) {
        DispatchStep::Reply(resp) => {
            let err = resp.error.expect("unknown domain must surface as error");
            assert_eq!(err.code, -32601);
            assert!(err.message.contains("Unknown domain"));
        }
        _ => panic!("an unknown domain has no handler"),
    }
}

#[test]
fn send_message_to_target_unwraps_inner_call() {
    let mut ctx = CdpContext::new();
    let inner = Json::object()
        .put("id", Json::UInt(42))
        .put("method", Json::string("Browser.getVersion"))
        .put("params", Json::object());
    let outer = CdpRequest {
        id: 99,
        method: "Target.sendMessageToTarget".to_string(),
        params: Json::object()
            .put("sessionId", Json::string("sess-1"))
            .put("message", Json::Str(inner.to_text())),
        session_id: None,
    };

    let inner_req = match dispatch(&outer) {
        DispatchStep::Inner(q) => q,
        _ => panic!("the wrapped request goes first"),
    };
    assert_eq!(inner_req.session_id.as_deref(), Some("sess-1"));
    match dispatch(&inner_req) {
        DispatchStep::Handle { domain, method } => {
            assert_eq!(domain, "Browser");
            assert_eq!(method, "getVersion");
        }
        _ => panic!("the browser domain has a handler"),
    }
    let version = fast_answer(&inner_req).and_then(|r| r.result).expect("a version");
    let inner_response = answer(&inner_req, Ok(version));
    let resp = answer_wrapper(&mut ctx, &outer, &inner_response);
    assert!(resp.error.is_none(), "wrapper must succeed");
    assert_eq!(resp.id, 99);
    assert_eq!(resp.result.map(|j| j.to_text()), Some("{}".to_string()));

    let evt = ctx
        .pending_events
        .iter()
        .find(|e| e.method == "Target.receivedMessageFromTarget")
        .expect("receivedMessageFromTarget event must be emitted");
    assert_eq!(evt.params.get_str("sessionId"), Some("sess-1"));
    let inner_msg = evt.params.get_str("message").expect("message is a string");
    let parsed = Json::parse(inner_msg).ok().expect("valid JSON");
    assert_eq!(parsed.get("id").and_then(|v| v.as_u64()), Some(42));
    assert!(parsed.get("result").is_some(), "inner response carries result");
    assert!(parsed.get("error").is_none(), "inner response is not an error");
}

#[test]
fn send_message_to_target_rejects_invalid_message() {
    let outer = CdpRequest {
        id: 5,
        method: "Target.sendMessageToTarget".to_string(),
        params: Json::object()
            .put("sessionId", Json::string("sess-1"))
            .put("message", Json::string("{not valid json")),
        session_id: None,
    };
    let reason = match dispatch(&outer) {
        DispatchStep::Unread(text) => Json::parse(&text).err().expect("malformed JSON"),
        _ => panic!("a malformed message goes nowhere"),
    };
    match unwrap_message(&outer, Err(reason)) {
        DispatchStep::Reply(resp) => {
            let err = resp.error.expect("malformed inner messages must error");
            assert_eq!(err.code, -32700);
            assert_eq!(
                err.message,
                "sendMessageToTarget message is not a valid CDP request: key must be a string at line 1 column 2"
            );
        }
        _ => panic!("a malformed message is answered"),
    }
}
