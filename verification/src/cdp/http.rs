//! What a connection is for, and what the server says of itself over HTTP.

use vstd::prelude::*;
use vstd::string::*;

use crate::json::{Json, JsonView};
use crate::json;
use crate::text;

verus! {

/// What a connection is for.
#[derive(Debug, Clone, Copy, PartialEq, Eq, Structural)]
pub enum Endpoint {
    Version,
    List,
    Protocol,
    WebSocket,
}

/// What a connection is for, by the text of its first bytes.
pub open spec fn endpoint_of(line: Seq<char>) -> Endpoint {
    if text::has_text(line, "/json/version"@) {
        Endpoint::Version
    } else if text::has_text(line, "/json/list"@) || text::has_text(line, "/json\r\n"@)
        || text::has_text(line, "/json HTTP"@) {
        Endpoint::List
    } else if text::has_text(line, "/json/protocol"@) {
        Endpoint::Protocol
    } else {
        Endpoint::WebSocket
    }
}

/// What a connection is for, by the text of its first bytes.
pub fn find_endpoint(line: &str) -> (r: Endpoint)
    ensures
        r == endpoint_of(line@),
{
    if text::contains(line, "/json/version") {
        Endpoint::Version
    } else if text::contains(line, "/json/list") || text::contains(line, "/json\r\n")
        || text::contains(line, "/json HTTP") {
        Endpoint::List
    } else if text::contains(line, "/json/protocol") {
        Endpoint::Protocol
    } else {
        Endpoint::WebSocket
    }
}

/// What a connection is for, by its first four bytes and by as many as came: a question
/// about the server is a `GET` for one of its JSON paths; anything else is a client.
pub fn handle_connection(head: &[u8], peeked: &[u8]) -> (r: Endpoint)
    ensures
        r == if head@ == seq![71u8, 69u8, 84u8, 32u8] {
            endpoint_of(text::lossy(peeked@))
        } else {
            Endpoint::WebSocket
        },
{
    let get: bool = head.len() == 4 && head[0] == 71 && head[1] == 69 && head[2] == 84 && head[3]
        == 32;
    assert(get ==> head@ =~= seq![71u8, 69u8, 84u8, 32u8]);
    if get {
        find_endpoint(text::from_utf8_lossy(peeked).as_str())
    } else {
        Endpoint::WebSocket
    }
}

/// What the server says of itself.
pub open spec fn endpoint_body(port: u16, endpoint: Seq<char>) -> Seq<char> {
    let p = text::decimal_text(port as nat);
    if endpoint == "version"@ {
        json::json_pretty_text(
            JsonView::object().put("Browser"@, JsonView::Str("Obscura/0.1.0"@)).put(
                "Protocol-Version"@,
                JsonView::Str("1.3"@),
            ).put("User-Agent"@, JsonView::Str("Obscura/0.1.0 (Headless Browser)"@)).put(
                "V8-Version"@,
                JsonView::Str("N/A"@),
            ).put("WebKit-Version"@, JsonView::Str("N/A"@)).put(
                "webSocketDebuggerUrl"@,
                JsonView::Str("ws://127.0.0.1:"@ + p + "/devtools/browser"@),
            ),
        )
    } else if endpoint == "list"@ {
        json::json_pretty_text(
            JsonView::Array(
                seq![
                    JsonView::object().put("description"@, JsonView::Str(""@)).put(
                        "devtoolsFrontendUrl"@,
                        JsonView::Str(""@),
                    ).put("id"@, JsonView::Str("page-1"@)).put("title"@, JsonView::Str(""@)).put(
                        "type"@,
                        JsonView::Str("page"@),
                    ).put("url"@, JsonView::Str("about:blank"@)).put(
                        "webSocketDebuggerUrl"@,
                        JsonView::Str("ws://127.0.0.1:"@ + p + "/devtools/page/page-1"@),
                    ),
                ],
            ),
        )
    } else if endpoint == "protocol"@ {
        json::json_pretty_text(
            JsonView::object().put(
                "version"@,
                JsonView::object().put("major"@, JsonView::Str("1"@)).put(
                    "minor"@,
                    JsonView::Str("3"@),
                ),
            ),
        )
    } else {
        "{}"@
    }
}

/// A body with the head that goes before it, which tells its length in bytes.
pub open spec fn http_response(body: Seq<char>) -> Seq<char> {
    "HTTP/1.1 200 OK\r\nContent-Type: application/json; charset=utf-8\r\nContent-Length: "@
        + text::decimal_text(vstd::utf8::encode_utf8(body).len())
        + "\r\nConnection: close\r\n\r\n"@ + body
}

fn write_endpoint_body(port: u16, endpoint: &str) -> (r: String)
    ensures
        r@ == endpoint_body(port, endpoint@),
{
    let p: String = text::decimal(port as u64);
    if text::same(endpoint, "version") {
        Json::object().put("Browser", Json::string("Obscura/0.1.0")).put(
            "Protocol-Version",
            Json::string("1.3"),
        ).put("User-Agent", Json::string("Obscura/0.1.0 (Headless Browser)")).put(
            "V8-Version",
            Json::string("N/A"),
        ).put("WebKit-Version", Json::string("N/A")).put(
            "webSocketDebuggerUrl",
            Json::Str(
                "ws://127.0.0.1:".to_owned().concat(p.as_str()).concat("/devtools/browser"),
            ),
        ).to_pretty_text()
    } else if text::same(endpoint, "list") {
        let page: Json = Json::object().put("description", Json::string("")).put(
            "devtoolsFrontendUrl",
            Json::string(""),
        ).put("id", Json::string("page-1")).put("title", Json::string("")).put(
            "type",
            Json::string("page"),
        ).put("url", Json::string("about:blank")).put(
            "webSocketDebuggerUrl",
            Json::Str(
                "ws://127.0.0.1:".to_owned().concat(p.as_str()).concat("/devtools/page/page-1"),
            ),
        );
        let ghost v = page@;
        let mut pages: Vec<Json> = Vec::new();
        pages.push(page);
        proof {
            json::array_view(pages);
            assert(json::views(pages@) =~= seq![v]);
        }
        Json::Array(pages).to_pretty_text()
    } else if text::same(endpoint, "protocol") {
        Json::object().put(
            "version",
            Json::object().put("major", Json::string("1")).put("minor", Json::string("3")),
        ).to_pretty_text()
    } else {
        "{}".to_owned()
    }
}

/// The response to a question about the server.
pub fn handle_http_json(port: u16, endpoint: &str) -> (r: String)
    ensures
        r@ == http_response(endpoint_body(port, endpoint@)),
{
    let body: String = write_endpoint_body(port, endpoint);
    let length: usize = body.as_str().as_bytes_vec().len();
    "HTTP/1.1 200 OK\r\nContent-Type: application/json; charset=utf-8\r\nContent-Length: ".to_owned()
        .concat(text::decimal(length as u64).as_str()).concat(
        "\r\nConnection: close\r\n\r\n",
    ).concat(body.as_str())
}

} // verus!
