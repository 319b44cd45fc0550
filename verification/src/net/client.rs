//! The HTTP client that pages are loaded with: what is sent, when a redirect is
//! followed, and what comes of it.

use vstd::prelude::*;
use vstd::string::*;

use crate::assoc::StringMap;
use crate::assoc;
use crate::net::error::{NetErrorView, ObscuraNetError};
use crate::net::headers;
use crate::net::policy;
use crate::net::url::{HostView, UrlHost, UrlRecord, UrlView};
use crate::net::url;
use crate::text;

verus! {

/// The most requests that one fetch sends.
pub const MAX_REQUESTS: usize = 20;

/// The user agent that requests name where no other is set.
pub const DEFAULT_USER_AGENT: &'static str =
    "Mozilla/5.0 (X11; Linux x86_64) AppleWebKit/537.36 (KHTML, like Gecko) Chrome/145.0.0.0 Safari/537.36";

/// What a request is for.
#[derive(Debug, Clone, Copy, PartialEq, Eq, Structural)]
pub enum ResourceType {
    Document,
    Script,
    Stylesheet,
    Image,
    Font,
    Xhr,
    Fetch,
    Other,
}

/// A request that is about to be sent.
pub struct RequestInfo {
    pub url: UrlRecord,
    pub method: String,
    pub headers: StringMap,
    pub resource_type: ResourceType,
}

/// What came of a request.
pub struct Response {
    pub url: UrlRecord,
    pub status: u16,
    pub headers: StringMap,
    pub body: Vec<u8>,
    pub redirected_from: Vec<UrlRecord>,
}

/// What came of a request, as plain data.
pub struct ResponseView {
    pub url: UrlView,
    pub status: u16,
    pub headers: Seq<(Seq<char>, Seq<char>)>,
    pub body: Seq<u8>,
    pub redirected_from: Seq<UrlView>,
}

/// The views of a list of URLs.
pub open spec fn url_views(v: Seq<UrlRecord>) -> Seq<UrlView> {
    v.map_values(|u: UrlRecord| u@)
}

impl View for Response {
    type V = ResponseView;

    open spec fn view(&self) -> ResponseView {
        ResponseView {
            url: self.url@,
            status: self.status,
            headers: self.headers@,
            body: self.body@,
            redirected_from: url_views(self.redirected_from@),
        }
    }
}

impl ResponseView {
    /// The value of the content type header.
    pub open spec fn content_type(self) -> Option<Seq<char>> {
        assoc::lookup(self.headers, "content-type"@)
    }

    /// Whether the content type says that the body is HTML.
    pub open spec fn is_html(self) -> bool {
        match self.content_type() {
            Some(ct) => text::has_text(ct, "text/html"@),
            None => false,
        }
    }
}

/// How the body of a response is turned into text: as HTML, whose head may name the
/// encoding, or not; and the content type, which may name it too.
pub struct TextDecoding {
    pub html: bool,
    pub content_type: Option<String>,
}

impl Response {
    /// How the body is to be decoded.
    pub fn text(&self) -> (r: TextDecoding)
        ensures
            r.html == self@.is_html(),
            text::opt(r.content_type) == self@.content_type(),
    {
        let content_type: Option<String> = match self.content_type() {
            Some(ct) => Some(ct.to_owned()),
            None => None,
        };
        TextDecoding { html: self.is_html(), content_type }
    }

    /// The value of a header, whose name may be in any case.
    pub fn header(&self, name: &str) -> (r: Option<&str>)
        ensures
            text::opt_str(r) == assoc::lookup(self@.headers, text::lowered(name@)),
    {
        self.headers.get(text::to_lowercase(name).as_str())
    }

    /// The value of the content type header.
    pub fn content_type(&self) -> (r: Option<&str>)
        ensures
            text::opt_str(r) == self@.content_type(),
    {
        proof {
            reveal_strlit("content-type");
            assert(text::lower_text("content-type"@) =~= "content-type"@);
        }
        self.header("content-type")
    }

    /// Whether the content type says that the body is HTML.
    pub fn is_html(&self) -> (r: bool)
        ensures
            r == self@.is_html(),
    {
        match self.content_type() {
            Some(ct) => text::contains(ct, "text/html"),
            None => false,
        }
    }
}

/// The extension of a file and the content type that it stands for.
pub open spec fn type_of_extension(ext: Seq<char>) -> Seq<char> {
    if ext == "html"@ || ext == "htm"@ {
        "text/html"@
    } else if ext == "css"@ {
        "text/css"@
    } else if ext == "js"@ || ext == "mjs"@ {
        "application/javascript"@
    } else if ext == "json"@ {
        "application/json"@
    } else if ext == "png"@ {
        "image/png"@
    } else if ext == "jpg"@ || ext == "jpeg"@ {
        "image/jpeg"@
    } else if ext == "gif"@ {
        "image/gif"@
    } else if ext == "svg"@ {
        "image/svg+xml"@
    } else if ext == "webp"@ {
        "image/webp"@
    } else if ext == "ico"@ {
        "image/x-icon"@
    } else {
        "application/octet-stream"@
    }
}

fn content_type_of(ext: &str) -> (r: &'static str)
    ensures
        r@ == type_of_extension(ext@),
{
    if text::same(ext, "html") || text::same(ext, "htm") {
        "text/html"
    } else if text::same(ext, "css") {
        "text/css"
    } else if text::same(ext, "js") || text::same(ext, "mjs") {
        "application/javascript"
    } else if text::same(ext, "json") {
        "application/json"
    } else if text::same(ext, "png") {
        "image/png"
    } else if text::same(ext, "jpg") || text::same(ext, "jpeg") {
        "image/jpeg"
    } else if text::same(ext, "gif") {
        "image/gif"
    } else if text::same(ext, "svg") {
        "image/svg+xml"
    } else if text::same(ext, "webp") {
        "image/webp"
    } else if text::same(ext, "ico") {
        "image/x-icon"
    } else {
        "application/octet-stream"
    }
}

/// What came of reading a file.
pub enum FileRead {
    /// The URL names no path.
    NoPath,
    /// The file could not be read.
    Failed(String),
    Done(Vec<u8>),
}

/// The response that stands for a file: its bytes, under the content type of its extension
/// where it has one.
pub open spec fn file_view(url: UrlView, extension: Option<Seq<char>>, body: Seq<u8>) -> ResponseView {
    ResponseView {
        url,
        status: 200,
        headers: match extension {
            Some(ext) => seq![("content-type"@, type_of_extension(text::lowered(ext)))],
            None => Seq::empty(),
        },
        body,
        redirected_from: Seq::empty(),
    }
}

/// The response that stands for a file with an extension, or without one.
pub fn file_response(url: &UrlRecord, extension: Option<String>, body: Vec<u8>) -> (r: Response)
    ensures
        r@ == file_view(url@, text::opt(extension), body@),
{
    let mut headers: StringMap = StringMap::new();
    if let Some(ext) = &extension {
        headers.insert(
            "content-type",
            content_type_of(text::to_lowercase(ext.as_str()).as_str()),
        );
        assert(headers@ =~= seq![("content-type"@, type_of_extension(text::lowered(ext@)))]);
    }
    let r: Response = Response {
        url: url.duplicate(),
        status: 200,
        headers,
        body,
        redirected_from: Vec::new(),
    };
    assert(r@.redirected_from =~= Seq::empty());
    r
}

/// The response that stands for the file that a URL names, where `file` is what came of reading
/// it. Its content type is that of the extension that the machine finds in the URL.
pub fn fetch_file_url(url: &UrlRecord, file: FileRead) -> (r: Result<Response, ObscuraNetError>)
    ensures
        match file {
            FileRead::NoPath => r is Err && r->Err_0@ == NetErrorView::Network(
                "Invalid file URL"@,
            ),
            FileRead::Failed(e) => r is Err && r->Err_0@ == NetErrorView::Network(
                "Failed to read file: "@ + e@,
            ),
            FileRead::Done(body) => r is Ok && exists|ext: Option<Seq<char>>|
                r->Ok_0@ == #[trigger] file_view(url@, ext, body@) && url::can_be_extension(
                    url@.href,
                    ext,
                ),
        },
{
    match file {
        FileRead::NoPath => Err(ObscuraNetError::Network("Invalid file URL".to_owned())),
        FileRead::Failed(e) => Err(
            ObscuraNetError::Network("Failed to read file: ".to_owned().concat(e.as_str())),
        ),
        FileRead::Done(body) => {
            let extension: Option<String> = url.file_extension();
            let r: Response = file_response(url, extension, body);
            assert(r@ == file_view(url@, text::opt(extension), body@));
            Ok(r)
        },
    }
}

/// What an interceptor does with a request.
pub enum InterceptAction {
    Continue,
    Block,
    Fulfill(Response),
    ModifyHeaders(StringMap),
}

/// The settings and the load of an HTTP client, and the cookie jar that it goes with. The jar
/// is only carried along.
pub struct ObscuraHttpClient<J> {
    proxy_url: Option<String>,
    pub cookie_jar: J,
    pub user_agent: String,
    pub extra_headers: StringMap,
    pub timeout_secs: u64,
    pub block_trackers: bool,
    in_flight: u32,
}

/// The settings, the load and the cookie jar of an HTTP client, as plain data.
pub struct ClientView<J> {
    pub proxy_url: Option<Seq<char>>,
    pub cookie_jar: J,
    pub user_agent: Seq<char>,
    pub extra_headers: Seq<(Seq<char>, Seq<char>)>,
    pub timeout_secs: u64,
    pub block_trackers: bool,
    pub in_flight: u32,
}

impl<J> View for ObscuraHttpClient<J> {
    type V = ClientView<J>;

    closed spec fn view(&self) -> ClientView<J> {
        ClientView {
            proxy_url: text::opt(self.proxy_url),
            cookie_jar: self.cookie_jar,
            user_agent: self.user_agent@,
            extra_headers: self.extra_headers@,
            timeout_secs: self.timeout_secs,
            block_trackers: self.block_trackers,
            in_flight: self.in_flight,
        }
    }
}

impl<J> ClientView<J> {
    /// A client as it is made.
    pub open spec fn fresh(cookie_jar: J, proxy_url: Option<Seq<char>>) -> ClientView<J> {
        ClientView {
            proxy_url,
            cookie_jar,
            user_agent: DEFAULT_USER_AGENT@,
            extra_headers: Seq::empty(),
            timeout_secs: 30,
            block_trackers: false,
            in_flight: 0,
        }
    }
}

impl<J: Default> ObscuraHttpClient<J> {
    /// A client without a proxy, with a cookie jar as one is made.
    pub fn new() -> (r: ObscuraHttpClient<J>)
        ensures
            r@ == ClientView::fresh(r@.cookie_jar, None),
            call_ensures(J::default, (), r@.cookie_jar),
    {
        ObscuraHttpClient::with_cookie_jar(J::default())
    }
}

impl<J> ObscuraHttpClient<J> {
    /// A client without a proxy that goes with a cookie jar.
    pub fn with_cookie_jar(cookie_jar: J) -> (r: ObscuraHttpClient<J>)
        ensures
            r@ == ClientView::fresh(cookie_jar, None),
    {
        ObscuraHttpClient::with_options(cookie_jar, None)
    }

    /// A client that goes with a cookie jar and, where there is one, through a proxy.
    pub fn with_options(cookie_jar: J, proxy_url: Option<&str>) -> (r: ObscuraHttpClient<J>)
        ensures
            r@ == ClientView::fresh(cookie_jar, text::opt_str(proxy_url)),
    {
        ObscuraHttpClient {
            proxy_url: match proxy_url {
                Some(p) => Some(p.to_owned()),
                None => None,
            },
            cookie_jar,
            user_agent: DEFAULT_USER_AGENT.to_owned(),
            extra_headers: StringMap::new(),
            timeout_secs: 30,
            block_trackers: false,
            in_flight: 0,
        }
    }

    /// The proxy that the client goes through.
    pub fn proxy_url(&self) -> (r: Option<&str>)
        ensures
            text::opt_str(r) == self@.proxy_url,
    {
        match &self.proxy_url {
            Some(p) => Some(p.as_str()),
            None => None,
        }
    }

    /// Sets the user agent that requests name.
    pub fn set_user_agent(&mut self, ua: &str)
        ensures
            final(self)@ == (ClientView { user_agent: ua@, ..old(self)@ }),
    {
        self.user_agent = ua.to_owned();
    }

    /// Sets the headers that every request carries besides its own.
    pub fn set_extra_headers(&mut self, headers: StringMap)
        ensures
            final(self)@ == (ClientView { extra_headers: headers@, ..old(self)@ }),
    {
        self.extra_headers = headers;
    }

    /// How many requests are on their way.
    pub fn active_requests(&self) -> (r: u32)
        ensures
            r == self@.in_flight,
    {
        self.in_flight
    }

    /// Whether no request is on its way.
    pub fn is_network_idle(&self) -> (r: bool)
        ensures
            r == (self@.in_flight == 0),
    {
        self.active_requests() == 0
    }

    /// Counts a request that is sent. The count wraps around.
    pub fn request_sent(&mut self)
        ensures
            final(self)@ == (ClientView {
                in_flight: one_more(old(self)@.in_flight),
                ..old(self)@
            }),
    {
        self.in_flight = self.in_flight.wrapping_add(1);
    }

    /// Counts a request that was answered or failed. The count wraps around.
    pub fn request_ended(&mut self)
        ensures
            final(self)@ == (ClientView {
                in_flight: one_less(old(self)@.in_flight),
                ..old(self)@
            }),
    {
        self.in_flight = self.in_flight.wrapping_sub(1);
    }
}

impl<J: Default> Default for ObscuraHttpClient<J> {
    fn default() -> (r: ObscuraHttpClient<J>)
        ensures
            r@ == ClientView::fresh(r@.cookie_jar, None),
            call_ensures(J::default, (), r@.cookie_jar),
    {
        ObscuraHttpClient::new()
    }
}

/// A count of requests with one more. It wraps around.
pub open spec fn one_more(n: u32) -> u32 {
    ((n + 1) % 0x1_0000_0000) as u32
}

/// A count of requests with one fewer. It wraps around.
pub open spec fn one_less(n: u32) -> u32 {
    ((n + 0xffff_ffff) % 0x1_0000_0000) as u32
}

/// A request that is sent and ended leaves the count of requests as it was.
pub proof fn sent_and_ended_cancel(n: u32)
    ensures
        one_less(one_more(n)) == n,
{
}

/// The headers of a page load, before cookies and the caller's own.
pub open spec fn browser_headers(user_agent: Seq<char>) -> Seq<(Seq<char>, Seq<char>)> {
    let ua = if headers::header_value(user_agent) {
        user_agent
    } else {
        DEFAULT_USER_AGENT@
    };
    let h = assoc::with(Seq::empty(), "user-agent"@, ua);
    let h = assoc::with(
        h,
        "accept"@,
        "text/html,application/xhtml+xml,application/xml;q=0.9,image/avif,image/webp,image/apng,*/*;q=0.8,application/signed-exchange;v=b3;q=0.7"@,
    );
    let h = assoc::with(h, "accept-language"@, "en-US,en;q=0.9"@);
    let h = assoc::with(
        h,
        "sec-ch-ua"@,
        "\"Chromium\";v=\"145\", \"Not;A=Brand\";v=\"24\", \"Google Chrome\";v=\"145\""@,
    );
    let h = assoc::with(h, "sec-ch-ua-mobile"@, "?0"@);
    let h = assoc::with(h, "sec-ch-ua-platform"@, "\"Linux\""@);
    let h = assoc::with(h, "sec-fetch-dest"@, "document"@);
    let h = assoc::with(h, "sec-fetch-mode"@, "navigate"@);
    let h = assoc::with(h, "sec-fetch-site"@, "none"@);
    let h = assoc::with(h, "sec-fetch-user"@, "?1"@);
    assoc::with(h, "upgrade-insecure-requests"@, "1"@)
}

fn put_browser_headers(user_agent: &str) -> (r: StringMap)
    ensures
        r@ == browser_headers(user_agent@),
{
    let mut h: StringMap = StringMap::new();
    if headers::valid_header_value(user_agent) {
        h.insert("user-agent", user_agent);
    } else {
        h.insert("user-agent", DEFAULT_USER_AGENT);
    }
    h.insert(
        "accept",
        "text/html,application/xhtml+xml,application/xml;q=0.9,image/avif,image/webp,image/apng,*/*;q=0.8,application/signed-exchange;v=b3;q=0.7",
    );
    h.insert("accept-language", "en-US,en;q=0.9");
    h.insert(
        "sec-ch-ua",
        "\"Chromium\";v=\"145\", \"Not;A=Brand\";v=\"24\", \"Google Chrome\";v=\"145\"",
    );
    h.insert("sec-ch-ua-mobile", "?0");
    h.insert("sec-ch-ua-platform", "\"Linux\"");
    h.insert("sec-fetch-dest", "document");
    h.insert("sec-fetch-mode", "navigate");
    h.insert("sec-fetch-site", "none");
    h.insert("sec-fetch-user", "?1");
    h.insert("upgrade-insecure-requests", "1");
    h
}

/// The pieces that may stand in a header value.
pub open spec fn sendable(v: Seq<Seq<char>>) -> Seq<Seq<char>>
    decreases v.len(),
{
    if v.len() == 0 {
        v
    } else if headers::header_value(v.last()) {
        sendable(v.drop_last()).push(v.last())
    } else {
        sendable(v.drop_last())
    }
}

/// What is sent of the cookies: all of them, or, where some hold what a header may
/// not, the others; nothing where none is left.
pub open spec fn cookie_value(cookies: Seq<char>) -> Option<Seq<char>> {
    if cookies.len() == 0 {
        None
    } else if headers::header_value(cookies) {
        Some(cookies)
    } else {
        let left = text::joined(sendable(text::pieces(cookies, "; "@)), "; "@);
        if left.len() > 0 && headers::header_value(left) {
            Some(left)
        } else {
            None
        }
    }
}

fn keep_sendable(v: &Vec<String>) -> (r: Vec<String>)
    ensures
        text::texts(r@) == sendable(text::texts(v@)),
{
    let mut out: Vec<String> = Vec::new();
    let mut i: usize = 0;
    while i < v.len()
        invariant
            i <= v.len(),
            text::texts(out@) == sendable(text::texts(v@).subrange(0, i as int)),
        decreases v.len() - i,
    {
        assert(text::texts(v@).subrange(0, i + 1).drop_last() =~= text::texts(v@).subrange(
            0,
            i as int,
        ));
        if headers::valid_header_value(v[i].as_str()) {
            let ghost before = out@;
            let piece: String = v[i].clone();
            out.push(piece);
            assert(text::texts(out@) =~= text::texts(before).push(piece@));
        }
        i += 1;
    }
    assert(text::texts(v@).subrange(0, i as int) =~= text::texts(v@));
    out
}

fn cookie_to_send(cookies: &str) -> (r: Option<String>)
    ensures
        text::opt(r) == cookie_value(cookies@),
{
    if cookies.is_empty() {
        None
    } else if headers::valid_header_value(cookies) {
        Some(cookies.to_owned())
    } else {
        proof {
            reveal_strlit("; ");
        }
        let left: String = text::join(&keep_sendable(&text::split(cookies, "; ")), "; ");
        if !left.as_str().is_empty() && headers::valid_header_value(left.as_str()) {
            Some(left)
        } else {
            None
        }
    }
}

/// Headers with every extra header set that may be sent.
pub open spec fn with_extras(
    h: Seq<(Seq<char>, Seq<char>)>,
    extras: Seq<(Seq<char>, Seq<char>)>,
) -> Seq<(Seq<char>, Seq<char>)>
    decreases extras.len(),
{
    if extras.len() == 0 {
        h
    } else {
        let rest = with_extras(h, extras.drop_last());
        let (k, v) = extras.last();
        match headers::header_name(k) {
            Some(name) => if headers::header_value(v) {
                assoc::with(rest, name, v)
            } else {
                rest
            },
            None => rest,
        }
    }
}

/// The headers of a page load.
pub open spec fn request_headers(
    user_agent: Seq<char>,
    cookies: Seq<char>,
    extras: Seq<(Seq<char>, Seq<char>)>,
) -> Seq<(Seq<char>, Seq<char>)> {
    let h = browser_headers(user_agent);
    with_extras(
        match cookie_value(cookies) {
            Some(c) => assoc::with(h, "cookie"@, c),
            None => h,
        },
        extras,
    )
}

fn put_request_headers(user_agent: &str, cookies: &str, extras: &StringMap) -> (r: StringMap)
    ensures
        r@ == request_headers(user_agent@, cookies@, extras@),
{
    let mut h: StringMap = put_browser_headers(user_agent);
    if let Some(c) = cookie_to_send(cookies) {
        h.insert("cookie", c.as_str());
    }
    let ghost base = h@;
    let mut i: usize = 0;
    while i < extras.entries.len()
        invariant
            i <= extras.entries.len(),
            h@ == with_extras(base, extras@.subrange(0, i as int)),
        decreases extras.entries.len() - i,
    {
        assert(extras@.subrange(0, i + 1).drop_last() =~= extras@.subrange(0, i as int));
        let name: Option<String> = headers::parse_header_name(extras.entries[i].0.as_str());
        if let Some(n) = name {
            if headers::valid_header_value(extras.entries[i].1.as_str()) {
                h.insert(n.as_str(), extras.entries[i].1.as_str());
            }
        }
        i += 1;
    }
    assert(extras@.subrange(0, i as int) =~= extras@);
    h
}

/// A fetch under way: where it is, what it sends there and where it has been.
pub struct PageFetch {
    pub method: String,
    pub url: UrlRecord,
    pub body: Option<Vec<u8>>,
    pub redirects: Vec<UrlRecord>,
    pub requests: usize,
    pub allow_private: bool,
}

/// A fetch under way, as plain data.
pub struct FetchView {
    pub method: Seq<char>,
    pub url: UrlView,
    pub body: Option<Seq<u8>>,
    pub redirects: Seq<UrlView>,
    pub requests: usize,
    pub allow_private: bool,
}

/// The view of optional bytes.
pub open spec fn opt_bytes(b: Option<Vec<u8>>) -> Option<Seq<u8>> {
    match b {
        Some(v) => Some(v@),
        None => None,
    }
}

impl View for PageFetch {
    type V = FetchView;

    open spec fn view(&self) -> FetchView {
        FetchView {
            method: self.method@,
            url: self.url@,
            body: opt_bytes(self.body),
            redirects: url_views(self.redirects@),
            requests: self.requests,
            allow_private: self.allow_private,
        }
    }
}

/// The header that names the target of a redirect.
pub enum LocationHeader {
    Absent,
    Unreadable,
    Text(String),
}

/// The header that names the target of a redirect, as plain data.
pub enum LocationView {
    Absent,
    Unreadable,
    Text(Seq<char>),
}

impl View for LocationHeader {
    type V = LocationView;

    open spec fn view(&self) -> LocationView {
        match self {
            LocationHeader::Absent => LocationView::Absent,
            LocationHeader::Unreadable => LocationView::Unreadable,
            LocationHeader::Text(s) => LocationView::Text(s@),
        }
    }
}

/// The header that names the target of a redirect, in the head of a response.
pub open spec fn location_in(h: Seq<(Seq<char>, Option<Seq<char>>)>) -> LocationView {
    match headers::first_value(h, "location"@) {
        None => LocationView::Absent,
        Some(None) => LocationView::Unreadable,
        Some(Some(t)) => LocationView::Text(t),
    }
}

/// The header that names the target of a redirect, in the head of a response.
pub fn find_location(h: &Vec<(String, Option<String>)>) -> (r: LocationHeader)
    ensures
        r@ == location_in(headers::received(h@)),
{
    match headers::find_first(h, "location") {
        None => LocationHeader::Absent,
        Some(None) => LocationHeader::Unreadable,
        Some(Some(t)) => LocationHeader::Text(t.clone()),
    }
}

/// The cookies that a response sets, in order.
pub fn find_cookies(h: &Vec<(String, Option<String>)>) -> (r: Vec<String>)
    ensures
        text::texts(r@) == headers::texts_named(headers::received(h@), "set-cookie"@),
{
    headers::find_texts(h, "set-cookie")
}

/// Whether a status tells the client to go elsewhere.
pub open spec fn is_redirect_status(status: u16) -> bool {
    300 <= status < 400
}

/// Whether a redirect turns the request into a `GET` without a body.
pub open spec fn drops_body(status: u16) -> bool {
    status == 301 || status == 302 || status == 303
}

impl FetchView {
    /// Whether the policy allows where the fetch is and where it has been, and the
    /// requests that were made account for the redirects.
    pub open spec fn sound(self) -> bool {
        &&& policy::navigation_verdict(self.url, self.allow_private) is Ok
        &&& forall|i: int|
            0 <= i < self.redirects.len() ==> policy::navigation_verdict(
                #[trigger] self.redirects[i],
                self.allow_private,
            ) is Ok
        &&& self.redirects.len() <= self.requests <= MAX_REQUESTS
    }

    /// The fetch after it went on to another URL.
    pub open spec fn moved(self, status: u16, next: UrlView) -> FetchView {
        FetchView {
            url: next,
            redirects: self.redirects.push(self.url),
            method: if drops_body(status) {
                "GET"@
            } else {
                self.method
            },
            body: if drops_body(status) {
                None
            } else {
                self.body
            },
            ..self
        }
    }

    /// What a response makes of the fetch: an error, nothing, or where it goes on to.
    pub open spec fn answered(self, status: u16, location: LocationView) -> Result<
        Option<FetchView>,
        NetErrorView,
    > {
        if !is_redirect_status(status) {
            Ok(None)
        } else {
            match location {
                LocationView::Absent => Ok(None),
                LocationView::Unreadable => Err(
                    NetErrorView::Network("Invalid redirect Location header"@),
                ),
                LocationView::Text(t) => {
                    let target = url::url_resolved(self.url.href, t);
                    let host = match target {
                        Ok(next) => url::url_host(next.href),
                        Err(_) => None,
                    };
                    match self.landed(status, target, host) {
                        Ok(f) => Ok(Some(f)),
                        Err(e) => Err(e),
                    }
                },
            }
        }
    }

    /// What a redirect makes of the fetch, where `target` is what it leads to and `host` the
    /// host of that: an error, or where it goes on to.
    pub open spec fn landed(
        self,
        status: u16,
        target: Result<UrlView, Seq<char>>,
        host: Option<HostView>,
    ) -> Result<FetchView, NetErrorView> {
        match target {
            Err(e) => Err(NetErrorView::Network("Invalid redirect URL: "@ + e)),
            Ok(next) => match policy::navigation_verdict_for(
                next.scheme,
                host,
                self.allow_private,
            ) {
                Err(e) => Err(NetErrorView::Network(e)),
                Ok(()) => Ok(self.moved(status, next)),
            },
        }
    }
}

/// How a fetch starts: with a file to read, with an answer already, or with requests.
pub enum FetchStart {
    File(UrlRecord),
    Answer(Response),
    Requests(PageFetch),
}

/// A request with everything that is sent.
pub struct Outgoing {
    pub method: String,
    pub url: UrlRecord,
    pub headers: Vec<(String, String)>,
    pub body: Option<Vec<u8>>,
}

/// A copy of bytes.
pub fn copy_bytes(v: &Vec<u8>) -> (r: Vec<u8>)
    ensures
        r@ == v@,
{
    let r: Vec<u8> = v.clone();
    assert(r@ =~= v@);
    r
}

impl<J> ObscuraHttpClient<J> {
    /// Starts a `GET` for a URL.
    pub fn fetch(&self, url: &UrlRecord, allow_private: bool, is_tracker: bool) -> (r: Result<
        FetchStart,
        ObscuraNetError,
    >)
        ensures
            self.starts(r, "GET"@, url@, None, allow_private, is_tracker),
    {
        self.fetch_with_method("GET", url, None, allow_private, is_tracker)
    }

    /// Starts a `POST` of a form.
    pub fn post_form(
        &self,
        url: &UrlRecord,
        body: &str,
        allow_private: bool,
        is_tracker: bool,
    ) -> (r: Result<FetchStart, ObscuraNetError>)
        ensures
            self.starts(
                r,
                "POST"@,
                url@,
                Some(vstd::utf8::encode_utf8(body@)),
                allow_private,
                is_tracker,
            ),
    {
        self.fetch_with_method("POST", url, Some(body.as_bytes_vec()), allow_private, is_tracker)
    }

    /// How a fetch of `url` with `method` and `body` starts.
    pub open spec fn starts(
        &self,
        r: Result<FetchStart, ObscuraNetError>,
        method: Seq<char>,
        url: UrlView,
        body: Option<Seq<u8>>,
        allow_private: bool,
        is_tracker: bool,
    ) -> bool {
        self.starts_at(r, method, url, url::url_host(url.href), body, allow_private, is_tracker)
    }

    /// How a fetch of `url`, whose host is `host`, with `method` and `body` starts.
    pub open spec fn starts_at(
        &self,
        r: Result<FetchStart, ObscuraNetError>,
        method: Seq<char>,
        url: UrlView,
        host: Option<HostView>,
        body: Option<Seq<u8>>,
        allow_private: bool,
        is_tracker: bool,
    ) -> bool {
        match policy::navigation_verdict_for(url.scheme, host, allow_private) {
            Err(e) => r is Err && r->Err_0@ == NetErrorView::Network(e),
            Ok(()) => if url.scheme == "file"@ {
                r is Ok && r->Ok_0 is File && r->Ok_0->File_0@ == url
            } else if self@.block_trackers && url.hostname is Some && is_tracker {
                r is Ok && r->Ok_0 is Answer && r->Ok_0->Answer_0@ == (ResponseView {
                    url,
                    status: 0,
                    headers: Seq::empty(),
                    body: Seq::empty(),
                    redirected_from: Seq::empty(),
                })
            } else {
                r is Ok && r->Ok_0 is Requests && r->Ok_0->Requests_0@ == (FetchView {
                    method,
                    url,
                    body,
                    redirects: Seq::empty(),
                    requests: 0,
                    allow_private,
                })
            },
        }
    }

    /// Starts a fetch. `is_tracker` is what the block list says of the URL's host.
    pub fn fetch_with_method(
        &self,
        initial_method: &str,
        url: &UrlRecord,
        initial_body: Option<Vec<u8>>,
        allow_private: bool,
        is_tracker: bool,
    ) -> (r: Result<FetchStart, ObscuraNetError>)
        ensures
            self.starts(
                r,
                initial_method@,
                url@,
                opt_bytes(initial_body),
                allow_private,
                is_tracker,
            ),
    {
        self.start_at(initial_method, url, &url.host(), initial_body, allow_private, is_tracker)
    }

    /// Starts a fetch of a URL whose host is `host`. `is_tracker` is what the block list says
    /// of it.
    pub fn start_at(
        &self,
        initial_method: &str,
        url: &UrlRecord,
        host: &Option<UrlHost>,
        initial_body: Option<Vec<u8>>,
        allow_private: bool,
        is_tracker: bool,
    ) -> (r: Result<FetchStart, ObscuraNetError>)
        ensures
            self.starts_at(
                r,
                initial_method@,
                url@,
                url::host_view(*host),
                opt_bytes(initial_body),
                allow_private,
                is_tracker,
            ),
    {
        match policy::check_navigation(url.scheme.as_str(), host, allow_private) {
            Ok(()) => {},
            Err(e) => {
                return Err(e);
            },
        }
        if text::same(url.scheme.as_str(), "file") {
            return Ok(FetchStart::File(url.duplicate()));
        }
        if self.block_trackers && url.hostname.is_some() && is_tracker {
            let answer: Response = Response {
                url: url.duplicate(),
                status: 0,
                headers: StringMap::new(),
                body: Vec::new(),
                redirected_from: Vec::new(),
            };
            assert(answer@.redirected_from =~= Seq::empty());
            return Ok(FetchStart::Answer(answer));
        }
        let run: PageFetch = PageFetch {
            method: initial_method.to_owned(),
            url: url.duplicate(),
            body: initial_body,
            redirects: Vec::new(),
            requests: 0,
            allow_private,
        };
        assert(run@.redirects =~= Seq::empty());
        Ok(FetchStart::Requests(run))
    }
}

impl PageFetch {
    /// Counts one more request, or gives up where there were too many, and tells what
    /// is about to be sent.
    pub fn begin_request<J>(&mut self, client: &ObscuraHttpClient<J>) -> (r: Result<
        RequestInfo,
        ObscuraNetError,
    >)
        ensures
            old(self)@.requests >= MAX_REQUESTS ==> final(self)@ == old(self)@ && r is Err
                && r->Err_0@ == NetErrorView::TooManyRedirects(old(self)@.url.href),
            old(self)@.requests < MAX_REQUESTS ==> {
                &&& final(self)@ == (FetchView {
                    requests: (old(self)@.requests + 1) as usize,
                    ..old(self)@
                })
                &&& r is Ok
                &&& r->Ok_0.url@ == old(self)@.url
                &&& r->Ok_0.method@ == old(self)@.method
                &&& r->Ok_0.headers@ == client@.extra_headers
                &&& r->Ok_0.resource_type == ResourceType::Document
            },
    {
        if self.requests >= MAX_REQUESTS {
            return Err(ObscuraNetError::TooManyRedirects(self.url.href.clone()));
        }
        self.requests = self.requests + 1;
        Ok(
            RequestInfo {
                url: self.url.duplicate(),
                method: self.method.clone(),
                headers: client.extra_headers.duplicate(),
                resource_type: ResourceType::Document,
            },
        )
    }

    /// What an interceptor's action makes of the fetch: an answer, or nothing and
    /// perhaps more headers.
    pub fn on_intercept<J>(&self, client: &mut ObscuraHttpClient<J>, action: InterceptAction) -> (r:
        Option<Result<Response, ObscuraNetError>>)
        ensures
            match action {
                InterceptAction::Continue => r is None && final(client)@ == old(client)@,
                InterceptAction::Block => {
                    &&& final(client)@ == old(client)@
                    &&& r is Some && r->0 is Err
                    &&& r->0->Err_0@ == NetErrorView::Blocked(self@.url.href)
                },
                InterceptAction::Fulfill(response) => {
                    &&& final(client)@ == old(client)@
                    &&& r is Some && r->0 is Ok && r->0->Ok_0@ == response@
                },
                InterceptAction::ModifyHeaders(headers) => {
                    &&& r is None
                    &&& final(client)@ == (ClientView {
                        extra_headers: assoc::with_all(old(client)@.extra_headers, headers@),
                        ..old(client)@
                    })
                },
            },
    {
        match action {
            InterceptAction::Continue => None,
            InterceptAction::Block => Some(Err(ObscuraNetError::Blocked(self.url.href.clone()))),
            InterceptAction::Fulfill(response) => Some(Ok(response)),
            InterceptAction::ModifyHeaders(headers) => {
                let mut extra: StringMap = client.extra_headers.duplicate();
                extra.extend(&headers);
                client.set_extra_headers(extra);
                None
            },
        }
    }

    /// The request to send, which counts from now on, where `cookies` is what the cookie jar
    /// has for the URL.
    pub fn outgoing<J>(&self, client: &mut ObscuraHttpClient<J>, cookies: &str) -> (r: Outgoing)
        ensures
            final(client)@ == (ClientView {
                in_flight: one_more(old(client)@.in_flight),
                ..old(client)@
            }),
            r.method@ == self@.method,
            r.url@ == self@.url,
            opt_bytes(r.body) == self@.body,
            assoc::entry_views(r.headers@) == {
                let h = request_headers(
                    old(client)@.user_agent,
                    cookies@,
                    old(client)@.extra_headers,
                );
                if self@.body is Some && self@.method == "POST"@ {
                    h.push(("content-type"@, "application/x-www-form-urlencoded"@))
                } else {
                    h
                }
            },
    {
        let built: StringMap = put_request_headers(
            client.user_agent.as_str(),
            cookies,
            &client.extra_headers,
        );
        let mut headers: Vec<(String, String)> = built.entries;
        if self.body.is_some() && text::same(self.method.as_str(), "POST") {
            let ghost before = headers@;
            let e: (String, String) = (
                "content-type".to_owned(),
                "application/x-www-form-urlencoded".to_owned(),
            );
            headers.push(e);
            assert(assoc::entry_views(headers@) =~= assoc::entry_views(before).push(
                (e.0@, e.1@),
            ));
        }
        let body: Option<Vec<u8>> = match &self.body {
            Some(b) => Some(copy_bytes(b)),
            None => None,
        };
        client.request_sent();
        Outgoing { method: self.method.clone(), url: self.url.duplicate(), headers, body }
    }

    /// Takes the head of a response, which ends the request: goes on to where a redirect leads,
    /// if the policy allows it, and says whether it did.
    pub fn on_response<J>(
        &mut self,
        client: &mut ObscuraHttpClient<J>,
        status: u16,
        location: LocationHeader,
    ) -> (r: Result<bool, ObscuraNetError>)
        ensures
            final(client)@ == (ClientView {
                in_flight: one_less(old(client)@.in_flight),
                ..old(client)@
            }),
            match old(self)@.answered(status, location@) {
                Err(e) => r is Err && r->Err_0@ == e && final(self)@ == old(self)@,
                Ok(None) => r is Ok && !r->Ok_0 && final(self)@ == old(self)@,
                Ok(Some(next)) => r is Ok && r->Ok_0 && final(self)@ == next,
            },
    {
        client.request_ended();
        if status < 300 || status >= 400 {
            return Ok(false);
        }
        let target: String = match location {
            LocationHeader::Absent => {
                return Ok(false);
            },
            LocationHeader::Unreadable => {
                return Err(
                    ObscuraNetError::Network("Invalid redirect Location header".to_owned()),
                );
            },
            LocationHeader::Text(t) => t,
        };
        let resolved: Result<UrlRecord, String> = UrlRecord::resolve(
            self.url.href.as_str(),
            target.as_str(),
        );
        let host: Option<UrlHost> = match &resolved {
            Ok(next) => next.host(),
            Err(_) => None,
        };
        match self.land(status, resolved, &host) {
            Ok(()) => Ok(true),
            Err(e) => Err(e),
        }
    }

    /// Goes on to where a redirect leads, if the policy allows it, where `target` is what it
    /// leads to and `host` the host of that.
    pub fn land(&mut self, status: u16, target: Result<UrlRecord, String>, host: &Option<UrlHost>) -> (r:
        Result<(), ObscuraNetError>)
        ensures
            match old(self)@.landed(status, url::parse_view(target), url::host_view(*host)) {
                Err(e) => r is Err && r->Err_0@ == e && final(self)@ == old(self)@,
                Ok(next) => r is Ok && final(self)@ == next,
            },
    {
        let next: UrlRecord = match target {
            Ok(u) => u,
            Err(e) => {
                return Err(
                    ObscuraNetError::Network(
                        "Invalid redirect URL: ".to_owned().concat(e.as_str()),
                    ),
                );
            },
        };
        match policy::check_navigation(next.scheme.as_str(), host, self.allow_private) {
            Ok(()) => {},
            Err(e) => {
                return Err(e);
            },
        }
        let from: UrlRecord = self.url.duplicate();
        self.redirects.push(from);
        assert(url_views(self.redirects@) =~= url_views(old(self).redirects@).push(from@));
        self.url = next;
        if status == 301 || status == 302 || status == 303 {
            self.method = "GET".to_owned();
            self.body = None;
        }
        Ok(())
    }

    /// The error where a request could not be sent, which ends it.
    pub fn send_failed<J>(&self, client: &mut ObscuraHttpClient<J>, reason: &str) -> (r:
        ObscuraNetError)
        ensures
            final(client)@ == (ClientView {
                in_flight: one_less(old(client)@.in_flight),
                ..old(client)@
            }),
            r@ == NetErrorView::Network(self@.url.href + ": "@ + reason@),
    {
        client.request_ended();
        ObscuraNetError::Network(
            self.url.href.as_str().to_owned().concat(": ").concat(reason),
        )
    }

    /// The error where the body of a response could not be read.
    pub fn body_failed(&self, reason: &str) -> (r: ObscuraNetError)
        ensures
            r@ == NetErrorView::Network("Failed to read body: "@ + reason@),
    {
        ObscuraNetError::Network("Failed to read body: ".to_owned().concat(reason))
    }

    /// The response that the fetch ends with.
    pub fn finish(self, status: u16, headers: &Vec<(String, Option<String>)>, body: Vec<u8>) -> (r:
        Response)
        ensures
            r@ == (ResponseView {
                url: self@.url,
                status,
                headers: headers::by_name(headers::lower_names(headers::received(headers@))),
                body: body@,
                redirected_from: self@.redirects,
            }),
    {
        Response {
            url: self.url,
            status,
            headers: headers::index_by_lower_name(headers),
            body,
            redirected_from: self.redirects,
        }
    }
}

/// A fetch starts, asks and goes on only where the policy allows it: it is sound from
/// the start, and a response leaves it sound, whatever it says.
pub proof fn redirects_stay_sound(f: FetchView, status: u16, location: LocationView)
    requires
        f.sound(),
        f.redirects.len() < f.requests,
    ensures
        f.answered(status, location) matches Ok(Some(next)) ==> next.sound(),
{
    if let Ok(Some(next)) = f.answered(status, location) {
        assert forall|i: int| 0 <= i < next.redirects.len() implies policy::navigation_verdict(
            #[trigger] next.redirects[i],
            next.allow_private,
        ) is Ok by {
            if i < f.redirects.len() {
                assert(next.redirects[i] == f.redirects[i]);
            }
        }
    }
}

/// The URLs that a fetch asks for, one after the other, where `answers` are the heads
/// of the responses that it gets.
pub open spec fn asked_for(f: FetchView, answers: Seq<(u16, LocationView)>) -> Seq<UrlView>
    decreases answers.len(),
{
    if f.requests >= MAX_REQUESTS {
        Seq::empty()
    } else if answers.len() == 0 {
        seq![f.url]
    } else {
        let g = FetchView { requests: (f.requests + 1) as usize, ..f };
        match g.answered(answers[0].0, answers[0].1) {
            Ok(Some(next)) => seq![f.url] + asked_for(next, answers.skip(1)),
            _ => seq![f.url],
        }
    }
}

/// Whatever the servers answer, a fetch asks for at most twenty URLs, and the policy
/// allows every one of them.
pub proof fn fetch_asks_only_for_allowed(f: FetchView, answers: Seq<(u16, LocationView)>)
    requires
        f.sound(),
        f.redirects.len() == f.requests,
    ensures
        asked_for(f, answers).len() <= MAX_REQUESTS - f.requests,
        forall|i: int|
            0 <= i < asked_for(f, answers).len() ==> policy::navigation_verdict(
                #[trigger] asked_for(f, answers)[i],
                f.allow_private,
            ) is Ok,
    decreases answers.len(),
{
    if f.requests < MAX_REQUESTS && answers.len() > 0 {
        let g = FetchView { requests: (f.requests + 1) as usize, ..f };
        redirects_stay_sound(g, answers[0].0, answers[0].1);
        if let Ok(Some(next)) = g.answered(answers[0].0, answers[0].1) {
            let rest = asked_for(next, answers.skip(1));
            fetch_asks_only_for_allowed(next, answers.skip(1));
            assert forall|i: int| 0 <= i < asked_for(f, answers).len() implies policy::navigation_verdict(
                #[trigger] asked_for(f, answers)[i],
                f.allow_private,
            ) is Ok by {
                if i > 0 {
                    assert(asked_for(f, answers)[i] == rest[i - 1]);
                }
            }
        }
    }
}

/// What comes of one turn of a fetch: an interceptor ends it before anything is sent, the
/// request cannot be sent, or a response comes.
pub enum Turn {
    Intercepted,
    SendFailed,
    Answered(u16, LocationView),
}

/// How many requests are on their way after a fetch, where `n` were before it and `turns` is
/// what comes of each turn: a request counts from when it is sent until it is answered or has
/// failed. The fetch ends where there are too many requests, at a turn that sends nothing or
/// fails, at a response that refuses a redirect or is none, and while its body is read nothing
/// is counted any more.
pub open spec fn in_flight_after(f: FetchView, n: u32, turns: Seq<Turn>) -> u32
    decreases turns.len(),
{
    if f.requests >= MAX_REQUESTS || turns.len() == 0 {
        n
    } else {
        let g = FetchView { requests: (f.requests + 1) as usize, ..f };
        match turns[0] {
            Turn::Intercepted => n,
            Turn::SendFailed => one_less(one_more(n)),
            Turn::Answered(status, location) => match g.answered(status, location) {
                Ok(Some(next)) => in_flight_after(next, one_less(one_more(n)), turns.skip(1)),
                _ => one_less(one_more(n)),
            },
        }
    }
}

/// A whole fetch leaves the count of requests on their way as it was, whatever ends it, so that
/// a client that was idle before is idle again.
pub proof fn fetch_ends_what_it_sends(f: FetchView, n: u32, turns: Seq<Turn>)
    ensures
        in_flight_after(f, n, turns) == n,
    decreases turns.len(),
{
    sent_and_ended_cancel(n);
    if f.requests < MAX_REQUESTS && turns.len() > 0 {
        let g = FetchView { requests: (f.requests + 1) as usize, ..f };
        if let Turn::Answered(status, location) = turns[0] {
            if let Ok(Some(next)) = g.answered(status, location) {
                fetch_ends_what_it_sends(next, n, turns.skip(1));
            }
        }
    }
}

/// A redirect that is not one of the three that drop the body keeps method and body,
/// and the three leave a `GET` without a body.
pub proof fn redirect_method(f: FetchView, status: u16, location: LocationView)
    ensures
        f.answered(status, location) matches Ok(Some(next)) ==> {
            &&& drops_body(status) ==> next.method == "GET"@ && next.body is None
            &&& !drops_body(status) ==> next.method == f.method && next.body == f.body
            &&& next.redirects == f.redirects.push(f.url)
        },
{
}

proof fn joined_is_sendable(v: Seq<Seq<char>>)
    requires
        forall|i: int| 0 <= i < v.len() ==> headers::header_value(#[trigger] v[i]),
    ensures
        headers::header_value(text::joined(v, "; "@)),
    decreases v.len(),
{
    reveal_strlit("; ");
    if v.len() > 1 {
        let init = v.drop_last();
        assert forall|i: int| 0 <= i < init.len() implies headers::header_value(
            #[trigger] init[i],
        ) by {
            assert(init[i] == v[i]);
        }
        joined_is_sendable(init);
        assert(headers::header_value(v[v.len() - 1]));
        let a = text::joined(init, "; "@);
        let b = a + "; "@;
        let c = b + v.last();
        assert forall|i: int| 0 <= i < c.len() implies (#[trigger] c[i]) == '\t' || c[i] >= ' '
            && c[i] != '\x7f' by {
            if i < a.len() {
                assert(c[i] == a[i]);
            } else if i < b.len() {
                assert(c[i] == "; "@[i - a.len()]);
            } else {
                assert(c[i] == v.last()[i - b.len()]);
            }
        }
    } else if v.len() == 1 {
        assert(headers::header_value(v[0]));
    }
}

proof fn sendable_keeps(v: Seq<Seq<char>>)
    ensures
        forall|i: int|
            0 <= i < sendable(v).len() ==> headers::header_value(#[trigger] sendable(v)[i]),
        forall|i: int|
            0 <= i < v.len() && headers::header_value(#[trigger] v[i]) ==> sendable(v).contains(
                v[i],
            ),
    decreases v.len(),
{
    if v.len() > 0 {
        let init = v.drop_last();
        sendable_keeps(init);
        let w = sendable(v);
        assert forall|i: int| 0 <= i < v.len() && headers::header_value(
            #[trigger] v[i],
        ) implies w.contains(v[i]) by {
            if i < init.len() {
                assert(init[i] == v[i]);
                let k = choose|k: int| 0 <= k < sendable(init).len() && sendable(init)[k] == v[i];
                assert(w[k] == v[i]);
            } else {
                assert(w[w.len() - 1] == v[i]);
            }
        }
    }
}

proof fn joined_at_least(v: Seq<Seq<char>>, i: int)
    requires
        0 <= i < v.len(),
    ensures
        text::joined(v, "; "@).len() >= v[i].len(),
    decreases v.len(),
{
    if v.len() > 1 && i < v.len() - 1 {
        joined_at_least(v.drop_last(), i);
        assert(v.drop_last()[i] == v[i]);
    }
}

/// A cookie that no header may carry does not keep the others from being sent: each of them
/// is among what is sent.
pub proof fn good_cookies_are_sent(cookies: Seq<char>, i: int)
    requires
        !headers::header_value(cookies),
        0 <= i < text::pieces(cookies, "; "@).len(),
        headers::header_value(text::pieces(cookies, "; "@)[i]),
        text::pieces(cookies, "; "@)[i].len() > 0,
    ensures
        cookie_value(cookies) == Some(
            text::joined(sendable(text::pieces(cookies, "; "@)), "; "@),
        ),
        sendable(text::pieces(cookies, "; "@)).contains(text::pieces(cookies, "; "@)[i]),
{
    let all = text::pieces(cookies, "; "@);
    let left = sendable(all);
    sendable_keeps(all);
    joined_is_sendable(left);
    let k = choose|k: int| 0 <= k < left.len() && left[k] == all[i];
    joined_at_least(left, k);
}

/// Whether every value in a list of headers may be sent.
pub open spec fn all_sendable(h: Seq<(Seq<char>, Seq<char>)>) -> bool {
    forall|i: int| 0 <= i < h.len() ==> headers::header_value((#[trigger] h[i]).1)
}

proof fn with_sendable(h: Seq<(Seq<char>, Seq<char>)>, name: Seq<char>, value: Seq<char>)
    requires
        all_sendable(h),
        headers::header_value(value),
    ensures
        all_sendable(assoc::with(h, name, value)),
{
    let w = assoc::with(h, name, value);
    assoc::place_is_last(h, name);
    assert forall|i: int| 0 <= i < w.len() implies headers::header_value(
        (#[trigger] w[i]).1,
    ) by {
        if i < h.len() {
            assert(w[i] == h[i] || w[i] == (name, value));
        }
    }
}

proof fn browser_headers_sendable(user_agent: Seq<char>)
    ensures
        all_sendable(browser_headers(user_agent)),
{
    reveal_strlit(
        "Mozilla/5.0 (X11; Linux x86_64) AppleWebKit/537.36 (KHTML, like Gecko) Chrome/145.0.0.0 Safari/537.36",
    );
    reveal_strlit(
        "text/html,application/xhtml+xml,application/xml;q=0.9,image/avif,image/webp,image/apng,*/*;q=0.8,application/signed-exchange;v=b3;q=0.7",
    );
    reveal_strlit("en-US,en;q=0.9");
    reveal_strlit(
        "\"Chromium\";v=\"145\", \"Not;A=Brand\";v=\"24\", \"Google Chrome\";v=\"145\"",
    );
    reveal_strlit("?0");
    reveal_strlit("\"Linux\"");
    reveal_strlit("document");
    reveal_strlit("navigate");
    reveal_strlit("none");
    reveal_strlit("?1");
    reveal_strlit("1");
    let ua = if headers::header_value(user_agent) {
        user_agent
    } else {
        DEFAULT_USER_AGENT@
    };
    let h0: Seq<(Seq<char>, Seq<char>)> = Seq::empty();
    with_sendable(h0, "user-agent"@, ua);
    let h1 = assoc::with(h0, "user-agent"@, ua);
    let accept =
        "text/html,application/xhtml+xml,application/xml;q=0.9,image/avif,image/webp,image/apng,*/*;q=0.8,application/signed-exchange;v=b3;q=0.7"@;
    with_sendable(h1, "accept"@, accept);
    let h2 = assoc::with(h1, "accept"@, accept);
    with_sendable(h2, "accept-language"@, "en-US,en;q=0.9"@);
    let h3 = assoc::with(h2, "accept-language"@, "en-US,en;q=0.9"@);
    let brands =
        "\"Chromium\";v=\"145\", \"Not;A=Brand\";v=\"24\", \"Google Chrome\";v=\"145\""@;
    with_sendable(h3, "sec-ch-ua"@, brands);
    let h4 = assoc::with(h3, "sec-ch-ua"@, brands);
    with_sendable(h4, "sec-ch-ua-mobile"@, "?0"@);
    let h5 = assoc::with(h4, "sec-ch-ua-mobile"@, "?0"@);
    with_sendable(h5, "sec-ch-ua-platform"@, "\"Linux\""@);
    let h6 = assoc::with(h5, "sec-ch-ua-platform"@, "\"Linux\""@);
    with_sendable(h6, "sec-fetch-dest"@, "document"@);
    let h7 = assoc::with(h6, "sec-fetch-dest"@, "document"@);
    with_sendable(h7, "sec-fetch-mode"@, "navigate"@);
    let h8 = assoc::with(h7, "sec-fetch-mode"@, "navigate"@);
    with_sendable(h8, "sec-fetch-site"@, "none"@);
    let h9 = assoc::with(h8, "sec-fetch-site"@, "none"@);
    with_sendable(h9, "sec-fetch-user"@, "?1"@);
    let h10 = assoc::with(h9, "sec-fetch-user"@, "?1"@);
    with_sendable(h10, "upgrade-insecure-requests"@, "1"@);
}

proof fn extras_sendable(
    h: Seq<(Seq<char>, Seq<char>)>,
    extras: Seq<(Seq<char>, Seq<char>)>,
)
    requires
        all_sendable(h),
    ensures
        all_sendable(with_extras(h, extras)),
    decreases extras.len(),
{
    if extras.len() > 0 {
        extras_sendable(h, extras.drop_last());
        let rest = with_extras(h, extras.drop_last());
        let (k, v) = extras.last();
        if let Some(name) = headers::header_name(k) {
            if headers::header_value(v) {
                with_sendable(rest, name, v);
            }
        }
    }
}

/// Whatever the user agent, the cookies and the extra headers are, no header is sent that
/// holds what a header may not.
pub proof fn requests_are_sendable(
    user_agent: Seq<char>,
    cookies: Seq<char>,
    extras: Seq<(Seq<char>, Seq<char>)>,
)
    ensures
        all_sendable(request_headers(user_agent, cookies, extras)),
{
    let h = browser_headers(user_agent);
    browser_headers_sendable(user_agent);
    let base = match cookie_value(cookies) {
        Some(c) => assoc::with(h, "cookie"@, c),
        None => h,
    };
    if let Some(c) = cookie_value(cookies) {
        with_sendable(h, "cookie"@, c);
    }
    extras_sendable(base, extras);
}

} // verus!
