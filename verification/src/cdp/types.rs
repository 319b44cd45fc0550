//! Requests, responses and events.

use vstd::prelude::*;
use vstd::string::*;

use crate::json::{Json, JsonView};
use crate::json;
use crate::text;

verus! {

/// The error that no such method is known, or that it failed.
pub const METHOD_NOT_FOUND: i64 = -32601;

/// The error that parameters are missing.
pub const INVALID_PARAMS: i64 = -32602;

/// The error that a text is no request.
pub const PARSE_ERROR: i64 = -32700;

/// The error that the server could not do what it was asked for.
pub const SERVER_ERROR: i64 = -32000;

/// What a client asks for.
pub struct CdpRequest {
    pub id: u64,
    pub method: String,
    pub params: Json,
    pub session_id: Option<String>,
}

/// What a client asks for, as plain data.
pub struct RequestView {
    pub id: u64,
    pub method: Seq<char>,
    pub params: JsonView,
    pub session_id: Option<Seq<char>>,
}

impl View for CdpRequest {
    type V = RequestView;

    open spec fn view(&self) -> RequestView {
        RequestView {
            id: self.id,
            method: self.method@,
            params: self.params@,
            session_id: text::opt(self.session_id),
        }
    }
}

/// Why a request failed.
pub struct CdpError {
    pub code: i64,
    pub message: String,
}

/// Why a request failed, as plain data.
pub struct ErrorView {
    pub code: i64,
    pub message: Seq<char>,
}

impl View for CdpError {
    type V = ErrorView;

    open spec fn view(&self) -> ErrorView {
        ErrorView { code: self.code, message: self.message@ }
    }
}

/// The answer to a request: a result or an error.
pub struct CdpResponse {
    pub id: u64,
    pub result: Option<Json>,
    pub error: Option<CdpError>,
    pub session_id: Option<String>,
}

/// The answer to a request, as plain data.
pub struct ResponseView {
    pub id: u64,
    pub result: Option<JsonView>,
    pub error: Option<ErrorView>,
    pub session_id: Option<Seq<char>>,
}

impl View for CdpResponse {
    type V = ResponseView;

    open spec fn view(&self) -> ResponseView {
        ResponseView {
            id: self.id,
            result: match self.result {
                Some(j) => Some(j@),
                None => None,
            },
            error: match self.error {
                Some(e) => Some(e@),
                None => None,
            },
            session_id: text::opt(self.session_id),
        }
    }
}

/// Something that a client is told without asking.
pub struct CdpEvent {
    pub method: String,
    pub params: Json,
    pub session_id: Option<String>,
}

/// Something that a client is told without asking, as plain data.
pub struct EventView {
    pub method: Seq<char>,
    pub params: JsonView,
    pub session_id: Option<Seq<char>>,
}

impl View for CdpEvent {
    type V = EventView;

    open spec fn view(&self) -> EventView {
        EventView {
            method: self.method@,
            params: self.params@,
            session_id: text::opt(self.session_id),
        }
    }
}

/// The views of a list of events.
pub open spec fn event_views(v: Seq<CdpEvent>) -> Seq<EventView> {
    v.map_values(|e: CdpEvent| e@)
}

/// An object with a session named in it, where there is one.
pub open spec fn with_session(j: JsonView, session_id: Option<Seq<char>>) -> JsonView {
    match session_id {
        Some(s) => j.put("sessionId"@, JsonView::Str(s)),
        None => j,
    }
}

fn put_session(j: Json, session_id: &Option<String>) -> (r: Json)
    ensures
        r@ == with_session(j@, text::opt(*session_id)),
{
    match session_id {
        Some(s) => j.put("sessionId", Json::string(s.as_str())),
        None => j,
    }
}

/// Whether a value names no session, or names one by a text.
pub open spec fn session_is_sound(v: JsonView) -> bool {
    match v.get("sessionId"@) {
        None => true,
        Some(s) => s is Null || s is Str,
    }
}

/// The request that a value is, if it is one: it has a number and a method, and may have
/// parameters and name a session.
pub open spec fn request_of(v: JsonView) -> Option<RequestView> {
    match (v.get("id"@), v.get_str("method"@)) {
        (Some(JsonView::UInt(id)), Some(method)) => if session_is_sound(v) {
            Some(
                RequestView {
                    id,
                    method,
                    params: match v.get("params"@) {
                        Some(p) => p,
                        None => JsonView::Null,
                    },
                    session_id: v.get_str("sessionId"@),
                },
            )
        } else {
            None
        },
        _ => None,
    }
}

/// The request that a text is, if it is one.
pub open spec fn parsed_request(t: Seq<char>) -> Option<RequestView> {
    match json::json_parsed(t) {
        Ok(v) => request_of(v),
        Err(_) => None,
    }
}

/// The view of an optional request.
pub open spec fn opt_request(r: Option<CdpRequest>) -> Option<RequestView> {
    match r {
        Some(q) => Some(q@),
        None => None,
    }
}

/// The view of the outcome of reading a request.
pub open spec fn request_result(r: Result<CdpRequest, String>) -> Result<RequestView, Seq<char>> {
    match r {
        Ok(q) => Ok(q@),
        Err(e) => Err(e@),
    }
}

impl CdpRequest {
    /// Takes a value as a request, if it is one.
    pub fn of_json(v: &Json) -> (r: Option<CdpRequest>)
        ensures
            opt_request(r) == request_of(v@),
    {
        let id: u64 = match v.get("id") {
            Some(j) => match j.as_u64() {
                Some(n) => n,
                None => {
                    return None;
                },
            },
            None => {
                return None;
            },
        };
        let method: String = match v.get_str("method") {
            Some(m) => m.to_owned(),
            None => {
                return None;
            },
        };
        let session_id: Option<String> = match v.get("sessionId") {
            None => None,
            Some(j) => match j {
                Json::Null => None,
                Json::Str(s) => Some(s.clone()),
                _ => {
                    return None;
                },
            },
        };
        let params: Json = match v.get("params") {
            Some(p) => p.duplicate(),
            None => Json::Null,
        };
        Some(CdpRequest { id, method, params, session_id })
    }

    /// Reads a request, if the text is one.
    pub fn parse(t: &str) -> (r: Option<CdpRequest>)
        ensures
            opt_request(r) == parsed_request(t@),
    {
        match Json::parse(t) {
            Ok(v) => CdpRequest::of_json(&v),
            Err(_) => None,
        }
    }
}

/// An integer as JSON.
pub open spec fn int_view(n: i64) -> JsonView {
    if n >= 0 {
        JsonView::UInt(n as u64)
    } else {
        JsonView::Int(n)
    }
}

impl ErrorView {
    /// The error as JSON.
    pub open spec fn to_json(self) -> JsonView {
        JsonView::object().put("code"@, int_view(self.code)).put(
            "message"@,
            JsonView::Str(self.message),
        )
    }
}

impl ResponseView {
    /// The answer to a request that succeeded.
    pub open spec fn success(
        id: u64,
        result: JsonView,
        session_id: Option<Seq<char>>,
    ) -> ResponseView {
        ResponseView { id, result: Some(result), error: None, session_id }
    }

    /// The answer to a request that failed.
    pub open spec fn failure(
        id: u64,
        code: i64,
        message: Seq<char>,
        session_id: Option<Seq<char>>,
    ) -> ResponseView {
        ResponseView { id, result: None, error: Some(ErrorView { code, message }), session_id }
    }

    /// The answer as JSON.
    pub open spec fn to_json(self) -> JsonView {
        let j = JsonView::object().put("id"@, JsonView::UInt(self.id));
        let j = match self.result {
            Some(r) => j.put("result"@, r),
            None => j,
        };
        let j = match self.error {
            Some(e) => j.put("error"@, e.to_json()),
            None => j,
        };
        with_session(j, self.session_id)
    }
}

/// The text of an answer.
pub open spec fn response_text(r: ResponseView) -> Seq<char> {
    json::json_text(r.to_json())
}

impl CdpResponse {
    /// The answer to a request that succeeded.
    pub fn success(id: u64, result: Json, session_id: Option<String>) -> (r: CdpResponse)
        ensures
            r@ == ResponseView::success(id, result@, text::opt(session_id)),
    {
        CdpResponse { id, result: Some(result), error: None, session_id }
    }

    /// The answer to a request that failed.
    pub fn error(id: u64, code: i64, message: String, session_id: Option<String>) -> (r:
        CdpResponse)
        ensures
            r@ == ResponseView::failure(id, code, message@, text::opt(session_id)),
    {
        CdpResponse { id, result: None, error: Some(CdpError { code, message }), session_id }
    }

    /// The answer as JSON.
    pub fn to_json(&self) -> (r: Json)
        ensures
            r@ == self@.to_json(),
    {
        let j: Json = Json::object().put("id", Json::UInt(self.id));
        let j: Json = match &self.result {
            Some(r) => j.put("result", r.duplicate()),
            None => j,
        };
        let j: Json = match &self.error {
            Some(e) => j.put(
                "error",
                Json::object().put("code", Json::Int(e.code)).put(
                    "message",
                    Json::string(e.message.as_str()),
                ),
            ),
            None => j,
        };
        put_session(j, &self.session_id)
    }

    /// The answer as JSON text.
    pub fn to_text(&self) -> (r: String)
        ensures
            r@ == json::json_text(self@.to_json()),
            json::nested_at_most(self@.to_json(), json::SHALLOW as nat) ==> json::json_parsed(r@)
                == Ok::<JsonView, Seq<char>>(self@.to_json()),
    {
        self.to_json().to_text()
    }
}

impl EventView {
    /// The event as JSON.
    pub open spec fn to_json(self) -> JsonView {
        with_session(
            JsonView::object().put("method"@, JsonView::Str(self.method)).put(
                "params"@,
                self.params,
            ),
            self.session_id,
        )
    }

    /// The event as JSON text.
    pub open spec fn to_text(self) -> Seq<char> {
        json::json_text(self.to_json())
    }
}

impl CdpEvent {
    /// The event as JSON.
    pub fn to_json(&self) -> (r: Json)
        ensures
            r@ == self@.to_json(),
    {
        put_session(
            Json::object().put("method", Json::string(self.method.as_str())).put(
                "params",
                self.params.duplicate(),
            ),
            &self.session_id,
        )
    }

    /// The event as JSON text.
    pub fn to_text(&self) -> (r: String)
        ensures
            r@ == self@.to_text(),
    {
        self.to_json().to_text()
    }
}

/// An answer can be told from its JSON: the number of the request, and that there is a
/// result or an error but not both.
pub proof fn response_reads_back(r: ResponseView)
    requires
        r.result is Some != r.error is Some,
    ensures
        r.to_json().get("id"@) == Some(JsonView::UInt(r.id)),
        r.to_json().get("result"@) == r.result,
        r.to_json().get("error"@) is Some == r.error is Some,
{
    reveal_strlit("id");
    reveal_strlit("result");
    reveal_strlit("error");
    reveal_strlit("sessionId");
    assert("id"@.len() == 2 && "result"@.len() == 6 && "error"@.len() == 5 && "sessionId"@.len()
        == 9);
    let m0: Seq<(Seq<char>, JsonView)> = Seq::empty();
    let m1 = crate::assoc::with(m0, "id"@, JsonView::UInt(r.id));
    let (name, value) = match r.result {
        Some(v) => ("result"@, v),
        None => ("error"@, r.error->0.to_json()),
    };
    let m2 = crate::assoc::with(m1, name, value);
    let ids = "id"@;
    let results = "result"@;
    let errors = "error"@;
    assert(crate::assoc::lookup(m0, ids) is None);
    crate::assoc::with_sets(m0, ids, JsonView::UInt(r.id), ids);
    crate::assoc::with_sets(m0, ids, JsonView::UInt(r.id), results);
    crate::assoc::with_sets(m0, ids, JsonView::UInt(r.id), errors);
    crate::assoc::with_sets(m1, name, value, ids);
    crate::assoc::with_sets(m1, name, value, results);
    crate::assoc::with_sets(m1, name, value, errors);
    if let Some(s) = r.session_id {
        let sv = JsonView::Str(s);
        crate::assoc::with_sets(m2, "sessionId"@, sv, ids);
        crate::assoc::with_sets(m2, "sessionId"@, sv, results);
        crate::assoc::with_sets(m2, "sessionId"@, sv, errors);
    }
}

} // verus!
