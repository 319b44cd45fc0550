//! A navigation whose requests its client decides about.

use vstd::prelude::*;
use vstd::string::*;

use crate::assoc::StringMap;
use crate::cdp::dispatch::{CdpContext, ContextView, Page, PageView};
use crate::cdp::dispatch;
use crate::cdp::types::{CdpEvent, CdpRequest, CdpResponse, EventView, RequestView, ResponseView};
use crate::cdp::types;
use crate::js::fetch;
use crate::js::state::InterceptedRequest;
use crate::json::{Json, JsonView};
use crate::json;
use crate::text;

verus! {

/// Whether a character is a hexadecimal digit in lower case.
pub open spec fn hex_digit(c: char) -> bool {
    '0' <= c <= '9' || 'a' <= c <= 'f'
}

/// Whether a text is a random identifier: groups of eight, four, four, four and twelve
/// hexadecimal digits with hyphens between them, the third of which starts with a 4.
pub open spec fn identifier(s: Seq<char>) -> bool {
    &&& s.len() == 36
    &&& forall|i: int|
        0 <= i < 36 ==> if i == 8 || i == 13 || i == 18 || i == 23 {
            #[trigger] s[i] == '-'
        } else {
            hex_digit(s[i])
        }
    &&& s[14] == '4'
}

/// Calls `uuid::Uuid::new_v4` and writes the identifier out. Which one comes is left to chance.
#[verifier::external_body]
fn random_id() -> (r: String)
    ensures
        identifier(r@),
{
    uuid::Uuid::new_v4().to_string()
}

/// A new name for what loads a document.
pub fn new_loader_id() -> (r: String)
    ensures
        text::has_prefix(r@, "loader-"@),
        identifier(r@.skip("loader-"@.len() as int)),
{
    let id: String = random_id();
    let r: String = "loader-".to_owned().concat(id.as_str());
    assert(r@.subrange(0, "loader-"@.len() as int) =~= "loader-"@);
    assert(r@.skip("loader-"@.len() as int) =~= id@);
    r
}

/// How much of a page must have loaded before a navigation is over.
#[derive(Debug, Clone, Copy, PartialEq, Eq, Structural)]
pub enum WaitUntil {
    DomContentLoaded,
    Load,
    NetworkIdle2,
    NetworkIdle0,
}

/// How strict a condition is.
pub open spec fn strictness(w: WaitUntil) -> int {
    match w {
        WaitUntil::DomContentLoaded => 0,
        WaitUntil::Load => 1,
        WaitUntil::NetworkIdle2 => 2,
        WaitUntil::NetworkIdle0 => 3,
    }
}

fn strictness_of(w: WaitUntil) -> (r: u8)
    ensures
        r == strictness(w),
{
    match w {
        WaitUntil::DomContentLoaded => 0,
        WaitUntil::Load => 1,
        WaitUntil::NetworkIdle2 => 2,
        WaitUntil::NetworkIdle0 => 3,
    }
}

/// The strictest of some conditions, or that the page has loaded where there are none.
pub fn strictest(v: &Vec<WaitUntil>) -> (r: WaitUntil)
    ensures
        v@.len() == 0 ==> r == WaitUntil::Load,
        v@.len() > 0 ==> v@.contains(r) && forall|i: int|
            0 <= i < v@.len() ==> strictness(#[trigger] v@[i]) <= strictness(r),
{
    if v.len() == 0 {
        return WaitUntil::Load;
    }
    let mut best: WaitUntil = v[0];
    let mut i: usize = 1;
    assert(v@[0] == best);
    while i < v.len()
        invariant
            1 <= i <= v.len(),
            v@.contains(best),
            forall|j: int| 0 <= j < i ==> strictness(#[trigger] v@[j]) <= strictness(best),
        decreases v.len() - i,
    {
        if strictness_of(v[i]) >= strictness_of(best) {
            best = v[i];
            assert(v@[i as int] == best);
        }
        i += 1;
    }
    best
}

/// The strings in a list.
pub open spec fn strings_in(v: Seq<JsonView>) -> Seq<Seq<char>>
    decreases v.len(),
{
    if v.len() == 0 {
        Seq::empty()
    } else {
        match v.last() {
            JsonView::Str(s) => strings_in(v.drop_last()).push(s),
            _ => strings_in(v.drop_last()),
        }
    }
}

/// The conditions that a client names: one, or a list of them.
pub open spec fn wait_names_in(params: JsonView) -> Seq<Seq<char>> {
    match params.get("waitUntil"@) {
        Some(JsonView::Str(s)) => seq![s],
        Some(JsonView::Array(v)) => strings_in(v),
        _ => Seq::empty(),
    }
}

fn read_wait_names(params: &Json) -> (r: Vec<String>)
    ensures
        text::texts(r@) == wait_names_in(params@),
{
    let mut out: Vec<String> = Vec::new();
    assert(text::texts(out@) =~= Seq::empty());
    let w: &Json = match params.get("waitUntil") {
        Some(w) => w,
        None => {
            return out;
        },
    };
    if let Some(s) = w.as_str() {
        let name: String = s.to_owned();
        out.push(name);
        assert(text::texts(out@) =~= seq![name@]);
        return out;
    }
    if let Some(v) = w.as_array() {
        let ghost all = json::views(v@);
        let mut i: usize = 0;
        while i < v.len()
            invariant
                i <= v.len(),
                all == json::views(v@),
                text::texts(out@) == strings_in(all.subrange(0, i as int)),
            decreases v.len() - i,
        {
            assert(all.subrange(0, i + 1).drop_last() =~= all.subrange(0, i as int));
            assert(all[i as int] == v[i as int]@);
            if let Some(s) = v[i].as_str() {
                let ghost so_far = out@;
                let name: String = s.to_owned();
                out.push(name);
                assert(text::texts(out@) =~= text::texts(so_far).push(name@));
            }
            i += 1;
        }
        assert(all.subrange(0, i as int) =~= all);
    }
    out
}

/// A navigation that waits for its client's decisions: who asked for it, the page that it
/// is on, the pages whose engines were put to sleep for it, and what it needs.
pub struct Navigation {
    pub id: u64,
    pub session_id: Option<String>,
    pub page: Page,
    pub suspended: Vec<String>,
    pub url: String,
    pub wait_names: Vec<String>,
    pub preload_scripts: Vec<String>,
    pub asks: bool,
    pub loader_id: String,
}

/// A navigation that waits for its client's decisions, as plain data.
pub struct NavigationView {
    pub id: u64,
    pub session_id: Option<Seq<char>>,
    pub page: PageView,
    pub suspended: Seq<Seq<char>>,
    pub url: Seq<char>,
    pub wait_names: Seq<Seq<char>>,
    pub preload_scripts: Seq<Seq<char>>,
    pub asks: bool,
    pub loader_id: Seq<char>,
}

impl View for Navigation {
    type V = NavigationView;

    open spec fn view(&self) -> NavigationView {
        NavigationView {
            id: self.id,
            session_id: text::opt(self.session_id),
            page: self.page@,
            suspended: text::texts(self.suspended@),
            url: self.url@,
            wait_names: text::texts(self.wait_names@),
            preload_scripts: text::texts(self.preload_scripts@),
            asks: self.asks,
            loader_id: self.loader_id@,
        }
    }
}

/// How a navigation with decisions starts.
pub enum InterceptStart {
    /// The message is no request.
    Nothing,
    /// There is no such page: the message is dispatched like any other.
    Process,
    /// The page is taken out and navigates.
    Navigate(Navigation),
}

impl RequestView {
    /// The navigation that this request starts, if its session has a page.
    pub open spec fn navigation(self, c: ContextView, loader_id: Seq<char>) -> Option<
        (ContextView, NavigationView),
    > {
        match c.session_page(self.session_id) {
            None => None,
            Some(i) => {
                let others = c.pages.remove(i);
                Some(
                    (
                        ContextView { pages: dispatch::all_asleep(others), ..c },
                        NavigationView {
                            id: self.id,
                            session_id: self.session_id,
                            page: c.pages[i],
                            suspended: dispatch::live_names(others),
                            url: self.params.get_str_or("url"@, ""@),
                            wait_names: wait_names_in(self.params),
                            preload_scripts: dispatch::sources(c.preload_scripts),
                            asks: c.has_intercept_tx,
                            loader_id,
                        },
                    ),
                )
            },
        }
    }
}

/// Starts the navigation that a request asks for, if its session has a page. The page is
/// taken out, and the engines of all others are put to sleep.
pub fn start_navigation(ctx: &mut CdpContext, req: CdpRequest, loader_id: String) -> (r: Option<
    Navigation,
>)
    ensures
        match req@.navigation(old(ctx)@, loader_id@) {
            None => r is None && final(ctx)@ == old(ctx)@,
            Some((c, n)) => r is Some && r->0@ == n && final(ctx)@ == c,
        },
{
    let page_id: String = match ctx.session_page_name(&req.session_id) {
        Some(id) => id,
        None => {
            return None;
        },
    };
    let page: Page = match ctx.take_page(page_id.as_str()) {
        Some(p) => p,
        None => {
            return None;
        },
    };
    let suspended: Vec<String> = ctx.suspend_all();
    Some(
        Navigation {
            id: req.id,
            page,
            suspended,
            url: req.params.get_str_or("url", ""),
            wait_names: read_wait_names(&req.params),
            preload_scripts: ctx.preload_sources(),
            asks: ctx.can_ask(),
            loader_id,
            session_id: req.session_id,
        },
    )
}

/// Starts the navigation that a message asks for.
pub fn process_with_interception(ctx: &mut CdpContext, t: &str, loader_id: String) -> (r:
    InterceptStart)
    ensures
        match types::parsed_request(t@) {
            None => r is Nothing && final(ctx)@ == old(ctx)@,
            Some(q) => match q.navigation(old(ctx)@, loader_id@) {
                None => r is Process && final(ctx)@ == old(ctx)@,
                Some((c, n)) => r is Navigate && r->Navigate_0@ == n && final(ctx)@ == c,
            },
        },
{
    match CdpRequest::parse(t) {
        None => InterceptStart::Nothing,
        Some(req) => match start_navigation(ctx, req, loader_id) {
            None => InterceptStart::Process,
            Some(n) => InterceptStart::Navigate(n),
        },
    }
}

/// While a navigation waits, no other page has an engine.
pub proof fn navigation_has_the_only_engine(q: RequestView, c: ContextView, loader_id: Seq<char>)
    ensures
        q.navigation(c, loader_id) matches Some((after, n)) ==> {
            &&& forall|i: int| 0 <= i < after.pages.len() ==> !(#[trigger] after.pages[i]).has_js
            &&& forall|i: int|
                0 <= i < after.pages.len() ==> exists|j: int|
                    0 <= j < c.pages.len() && (#[trigger] after.pages[i]).id == (
                    #[trigger] c.pages[j]).id
            &&& after.pages.len() + 1 == c.pages.len()
            &&& c.pages.contains(n.page)
        },
{
    if let Some((after, n)) = q.navigation(c, loader_id) {
        let i = c.session_page(q.session_id)->0;
        dispatch::page_index_is_first(c.pages, c.session_page_name(q.session_id)->0);
        assert(c.pages[i] == n.page);
        assert forall|k: int| 0 <= k < after.pages.len() implies exists|j: int|
            0 <= j < c.pages.len() && (#[trigger] after.pages[k]).id == (
            #[trigger] c.pages[j]).id by {
            let j = if k < i {
                k
            } else {
                k + 1
            };
            assert(after.pages[k].id == c.pages[j].id);
        }
    }
}

/// A request of a page as its client is told about it.
pub open spec fn request_json(q: fetch::RequestView) -> JsonView {
    JsonView::object().put("url"@, JsonView::Str(q.url)).put(
        "method"@,
        JsonView::Str(q.method),
    ).put("headers"@, fetch::headers_json(q.headers)).put(
        "initialPriority"@,
        JsonView::Str("High"@),
    ).put("referrerPolicy"@, JsonView::Str("strict-origin-when-cross-origin"@))
}

fn write_request(q: &InterceptedRequest) -> (r: Json)
    ensures
        r@ == request_json(q@),
{
    Json::object().put("url", Json::string(q.url.as_str())).put(
        "method",
        Json::string(q.method.as_str()),
    ).put("headers", fetch::headers_to_json(&q.headers)).put(
        "initialPriority",
        Json::string("High"),
    ).put("referrerPolicy", Json::string("strict-origin-when-cross-origin"))
}

impl NavigationView {
    /// An event of this navigation: the session stands in it even where there is none.
    pub open spec fn raw_event(self, method: Seq<char>, params: JsonView) -> JsonView {
        JsonView::object().put("method"@, JsonView::Str(method)).put("params"@, params).put(
            "sessionId"@,
            json::opt_str_view(self.session_id),
        )
    }

    /// The event that a request is about to be sent.
    pub open spec fn will_be_sent(
        self,
        q: fetch::RequestView,
        timestamp: JsonView,
        wall_time: JsonView,
    ) -> JsonView {
        self.raw_event(
            "Network.requestWillBeSent"@,
            JsonView::object().put("requestId"@, JsonView::Str(q.request_id)).put(
                "loaderId"@,
                JsonView::Str(""@),
            ).put("documentURL"@, JsonView::Str(""@)).put("request"@, request_json(q)).put(
                "timestamp"@,
                timestamp,
            ).put("wallTime"@, wall_time).put(
                "initiator"@,
                JsonView::object().put("type"@, JsonView::Str("script"@)),
            ).put("type"@, JsonView::Str(q.resource_type)).put(
                "frameId"@,
                JsonView::Str(self.page.frame_id),
            ),
        )
    }

    /// The event that a request waits for a decision.
    pub open spec fn request_paused(self, q: fetch::RequestView) -> JsonView {
        self.raw_event(
            "Fetch.requestPaused"@,
            JsonView::object().put("requestId"@, JsonView::Str(q.request_id)).put(
                "request"@,
                request_json(q),
            ).put("frameId"@, JsonView::Str(self.page.frame_id)).put(
                "resourceType"@,
                JsonView::Str(q.resource_type),
            ).put("networkId"@, JsonView::Str(q.request_id)).put(
                "responseErrorReason"@,
                JsonView::Null,
            ).put("responseStatusCode"@, JsonView::Null).put("responseHeaders"@, JsonView::Null),
        )
    }
}

impl Navigation {
    fn raw_event(&self, method: &str, params: Json) -> (r: Json)
        ensures
            r@ == self@.raw_event(method@, params@),
    {
        Json::object().put("method", Json::string(method)).put("params", params).put(
            "sessionId",
            Json::opt_string(&self.session_id),
        )
    }

    /// Takes a request of the page that waits for a decision from now on, and gives the two
    /// events that tell the client of it, where `timestamp` and `wall_time` are what the
    /// clock says.
    pub fn on_intercepted(
        &self,
        paused: &mut Vec<String>,
        q: &InterceptedRequest,
        timestamp: Json,
        wall_time: Json,
    ) -> (r: (String, String))
        ensures
            r.0@ == json::json_text(self@.will_be_sent(q@, timestamp@, wall_time@)),
            r.1@ == json::json_text(self@.request_paused(q@)),
            text::texts(final(paused)@) == text::texts_with(text::texts(old(paused)@), q@.request_id),
    {
        let sent: Json = self.raw_event(
            "Network.requestWillBeSent",
            Json::object().put("requestId", Json::string(q.request_id.as_str())).put(
                "loaderId",
                Json::string(""),
            ).put("documentURL", Json::string("")).put("request", write_request(q)).put(
                "timestamp",
                timestamp,
            ).put("wallTime", wall_time).put(
                "initiator",
                Json::object().put("type", Json::string("script")),
            ).put("type", Json::string(q.resource_type.as_str())).put(
                "frameId",
                Json::string(self.page.frame_id.as_str()),
            ),
        );
        let waits: Json = self.raw_event(
            "Fetch.requestPaused",
            Json::object().put("requestId", Json::string(q.request_id.as_str())).put(
                "request",
                write_request(q),
            ).put("frameId", Json::string(self.page.frame_id.as_str())).put(
                "resourceType",
                Json::string(q.resource_type.as_str()),
            ).put("networkId", Json::string(q.request_id.as_str())).put(
                "responseErrorReason",
                Json::Null,
            ).put("responseStatusCode", Json::Null).put("responseHeaders", Json::Null),
        );
        if !text::is_among(paused, q.request_id.as_str()) {
            let id: String = q.request_id.clone();
            paused.push(id);
            assert(text::texts(paused@) =~= text::texts(old(paused)@).push(id@));
        }
        (sent.to_text(), waits.to_text())
    }
}

/// A request that was sent while a page loaded, and its response. The times are as the
/// clock gave them.
pub struct NetworkEvent {
    pub request_id: String,
    pub url: String,
    pub method: String,
    pub headers: StringMap,
    pub resource_type: String,
    pub timestamp: Json,
    pub status: u16,
    pub response_headers: StringMap,
    pub body_size: u64,
}

/// A request that was sent while a page loaded, and its response, as plain data.
pub struct NetworkView {
    pub request_id: Seq<char>,
    pub url: Seq<char>,
    pub method: Seq<char>,
    pub headers: Seq<(Seq<char>, Seq<char>)>,
    pub resource_type: Seq<char>,
    pub timestamp: JsonView,
    pub status: u16,
    pub response_headers: Seq<(Seq<char>, Seq<char>)>,
    pub body_size: u64,
}

impl View for NetworkEvent {
    type V = NetworkView;

    open spec fn view(&self) -> NetworkView {
        NetworkView {
            request_id: self.request_id@,
            url: self.url@,
            method: self.method@,
            headers: self.headers@,
            resource_type: self.resource_type@,
            timestamp: self.timestamp@,
            status: self.status,
            response_headers: self.response_headers@,
            body_size: self.body_size,
        }
    }
}

/// The views of a list of requests that were sent.
pub open spec fn network_views(v: Seq<NetworkEvent>) -> Seq<NetworkView> {
    v.map_values(|e: NetworkEvent| e@)
}

/// What came of a navigation: whether it failed, where the page is now, the requests that
/// were sent, whether the network fell silent, and what the clock says.
pub struct Arrival {
    pub outcome: Result<(), String>,
    pub page_url: String,
    pub network: Vec<NetworkEvent>,
    pub network_idle: bool,
    pub timestamp: Json,
}

/// What came of a navigation, as plain data.
pub struct ArrivalView {
    pub outcome: Result<(), Seq<char>>,
    pub page_url: Seq<char>,
    pub network: Seq<NetworkView>,
    pub network_idle: bool,
    pub timestamp: JsonView,
}

impl View for Arrival {
    type V = ArrivalView;

    open spec fn view(&self) -> ArrivalView {
        ArrivalView {
            outcome: match self.outcome {
                Ok(()) => Ok(()),
                Err(e) => Err(e@),
            },
            page_url: self.page_url@,
            network: network_views(self.network@),
            network_idle: self.network_idle,
            timestamp: self.timestamp@,
        }
    }
}

impl NavigationView {
    /// The text of an event of this navigation.
    pub open spec fn event(self, method: Seq<char>, params: JsonView) -> Seq<char> {
        (EventView { method, params, session_id: self.session_id }).to_text()
    }

    /// The text of the event that loading reached a stage.
    pub open spec fn lifecycle(self, name: Seq<char>, timestamp: JsonView) -> Seq<char> {
        self.event(
            "Page.lifecycleEvent"@,
            JsonView::object().put("frameId"@, JsonView::Str(self.page.frame_id)).put(
                "loaderId"@,
                JsonView::Str(self.loader_id),
            ).put("name"@, JsonView::Str(name)).put("timestamp"@, timestamp),
        )
    }

    /// The answer to the request for the navigation.
    pub open spec fn response(self, outcome: Result<(), Seq<char>>) -> ResponseView {
        match outcome {
            Ok(()) => ResponseView::success(
                self.id,
                JsonView::object().put("frameId"@, JsonView::Str(self.page.frame_id)).put(
                    "loaderId"@,
                    JsonView::Str(self.loader_id),
                ),
                self.session_id,
            ),
            Err(e) => ResponseView::failure(self.id, types::SERVER_ERROR, e, self.session_id),
        }
    }

    /// The frame after the navigation.
    pub open spec fn frame(self, page_url: Seq<char>) -> JsonView {
        JsonView::object().put(
            "frame"@,
            JsonView::object().put("id"@, JsonView::Str(self.page.frame_id)).put(
                "loaderId"@,
                JsonView::Str(self.loader_id),
            ).put("url"@, JsonView::Str(page_url)).put(
                "domainAndRegistry"@,
                JsonView::Str(""@),
            ).put("securityOrigin"@, JsonView::Str(page_url)).put(
                "mimeType"@,
                JsonView::Str("text/html"@),
            ).put(
                "adFrameStatus"@,
                JsonView::object().put("adFrameType"@, JsonView::Str("none"@)),
            ),
        ).put("type"@, JsonView::Str("Navigation"@))
    }

    /// The context that scripts run in after the navigation.
    pub open spec fn script_context(self, page_url: Seq<char>) -> JsonView {
        JsonView::object().put(
            "context"@,
            JsonView::object().put("id"@, JsonView::UInt(2)).put(
                "origin"@,
                JsonView::Str(page_url),
            ).put("name"@, JsonView::Str(""@)).put(
                "uniqueId"@,
                JsonView::Str("ctx-nav-"@ + self.page.id),
            ).put(
                "auxData"@,
                JsonView::object().put("isDefault"@, JsonView::Bool(true)).put(
                    "type"@,
                    JsonView::Str("default"@),
                ).put("frameId"@, JsonView::Str(self.page.frame_id)),
            ),
        )
    }

    /// The parameters of the event that a request was sent.
    pub open spec fn sent_params(self, page_url: Seq<char>, e: NetworkView) -> JsonView {
        JsonView::object().put("requestId"@, JsonView::Str(e.request_id)).put(
            "loaderId"@,
            JsonView::Str(self.loader_id),
        ).put("documentURL"@, JsonView::Str(page_url)).put(
            "request"@,
            JsonView::object().put("url"@, JsonView::Str(e.url)).put(
                "method"@,
                JsonView::Str(e.method),
            ).put("headers"@, fetch::headers_json(e.headers)),
        ).put("timestamp"@, e.timestamp).put("wallTime"@, e.timestamp).put(
            "initiator"@,
            JsonView::object().put("type"@, JsonView::Str("other"@)),
        ).put("type"@, JsonView::Str(e.resource_type)).put(
            "frameId"@,
            JsonView::Str(self.page.frame_id),
        )
    }

    /// The parameters of the event that a response came.
    pub open spec fn received_params(self, e: NetworkView) -> JsonView {
        JsonView::object().put("requestId"@, JsonView::Str(e.request_id)).put(
            "loaderId"@,
            JsonView::Str(self.loader_id),
        ).put("timestamp"@, e.timestamp).put("type"@, JsonView::Str(e.resource_type)).put(
            "response"@,
            JsonView::object().put("url"@, JsonView::Str(e.url)).put(
                "status"@,
                JsonView::UInt(e.status as u64),
            ).put("statusText"@, JsonView::Str(""@)).put(
                "headers"@,
                fetch::headers_json(e.response_headers),
            ).put("mimeType"@, JsonView::Str(""@)),
        ).put("frameId"@, JsonView::Str(self.page.frame_id))
    }

    /// The parameters of the event that a response was read.
    pub open spec fn finished_params(self, e: NetworkView) -> JsonView {
        JsonView::object().put("requestId"@, JsonView::Str(e.request_id)).put(
            "timestamp"@,
            e.timestamp,
        ).put("encodedDataLength"@, JsonView::UInt(e.body_size))
    }

    /// What is sent before, and then what tells of the requests that were sent: three events
    /// for each.
    pub open spec fn with_network(
        self,
        sent: Seq<Seq<char>>,
        page_url: Seq<char>,
        v: Seq<NetworkView>,
    ) -> Seq<Seq<char>>
        decreases v.len(),
    {
        if v.len() == 0 {
            sent
        } else {
            let e = v.last();
            self.with_network(sent, page_url, v.drop_last()).push(
                self.event("Network.requestWillBeSent"@, self.sent_params(page_url, e)),
            ).push(self.event("Network.responseReceived"@, self.received_params(e))).push(
                self.event("Network.loadingFinished"@, self.finished_params(e)),
            )
        }
    }

    /// What the client is told at the end of the navigation, in this order: the answer, that
    /// the document changed, the requests that were sent, and how loading went on.
    pub open spec fn farewell(self, a: ArrivalView) -> Seq<Seq<char>> {
        let ts = a.timestamp;
        let clock = JsonView::object().put("timestamp"@, ts);
        let start = Seq::<Seq<char>>::empty().push(types::response_text(self.response(a.outcome))).push(
            self.lifecycle("init"@, ts),
        ).push(self.event("Runtime.executionContextsCleared"@, JsonView::object())).push(
            self.event("Page.frameNavigated"@, self.frame(a.page_url)),
        ).push(
            self.event("Runtime.executionContextCreated"@, self.script_context(a.page_url)),
        ).push(self.lifecycle("commit"@, ts));
        let loaded = self.with_network(start, a.page_url, a.network).push(
            self.lifecycle("DOMContentLoaded"@, ts),
        ).push(self.event("Page.domContentEventFired"@, clock)).push(
            self.lifecycle("load"@, ts),
        ).push(self.event("Page.loadEventFired"@, clock));
        let silent = if a.network_idle {
            loaded.push(self.lifecycle("networkIdle"@, ts))
        } else {
            loaded
        };
        silent.push(
            self.event(
                "Page.frameStoppedLoading"@,
                JsonView::object().put("frameId"@, JsonView::Str(self.page.frame_id)),
            ),
        )
    }
}

impl Navigation {
    fn tell(&self, out: &mut Vec<String>, method: &str, params: Json)
        ensures
            text::texts(final(out)@) == text::texts(old(out)@).push(
                self@.event(method@, params@),
            ),
    {
        text::push_text(
            out,
            CdpEvent {
                method: method.to_owned(),
                params,
                session_id: text::clone_opt(&self.session_id),
            }.to_text(),
        );
    }

    fn tell_lifecycle(&self, out: &mut Vec<String>, name: &str, timestamp: &Json)
        ensures
            text::texts(final(out)@) == text::texts(old(out)@).push(
                self@.lifecycle(name@, timestamp@),
            ),
    {
        self.tell(
            out,
            "Page.lifecycleEvent",
            Json::object().put("frameId", Json::string(self.page.frame_id.as_str())).put(
                "loaderId",
                Json::string(self.loader_id.as_str()),
            ).put("name", Json::string(name)).put("timestamp", timestamp.duplicate()),
        );
    }

    fn response(&self, outcome: &Result<(), String>) -> (r: CdpResponse)
        ensures
            r@ == self@.response(
                match *outcome {
                    Ok(()) => Ok(()),
                    Err(e) => Err(e@),
                },
            ),
    {
        match outcome {
            Ok(()) => CdpResponse::success(
                self.id,
                Json::object().put("frameId", Json::string(self.page.frame_id.as_str())).put(
                    "loaderId",
                    Json::string(self.loader_id.as_str()),
                ),
                text::clone_opt(&self.session_id),
            ),
            Err(e) => CdpResponse::error(
                self.id,
                types::SERVER_ERROR,
                e.clone(),
                text::clone_opt(&self.session_id),
            ),
        }
    }

    fn frame(&self, page_url: &str) -> (r: Json)
        ensures
            r@ == self@.frame(page_url@),
    {
        Json::object().put(
            "frame",
            Json::object().put("id", Json::string(self.page.frame_id.as_str())).put(
                "loaderId",
                Json::string(self.loader_id.as_str()),
            ).put("url", Json::string(page_url)).put("domainAndRegistry", Json::string("")).put(
                "securityOrigin",
                Json::string(page_url),
            ).put("mimeType", Json::string("text/html")).put(
                "adFrameStatus",
                Json::object().put("adFrameType", Json::string("none")),
            ),
        ).put("type", Json::string("Navigation"))
    }

    fn script_context(&self, page_url: &str) -> (r: Json)
        ensures
            r@ == self@.script_context(page_url@),
    {
        Json::object().put(
            "context",
            Json::object().put("id", Json::UInt(2)).put("origin", Json::string(page_url)).put(
                "name",
                Json::string(""),
            ).put(
                "uniqueId",
                Json::Str("ctx-nav-".to_owned().concat(self.page.id.as_str())),
            ).put(
                "auxData",
                Json::object().put("isDefault", Json::Bool(true)).put(
                    "type",
                    Json::string("default"),
                ).put("frameId", Json::string(self.page.frame_id.as_str())),
            ),
        )
    }

    fn tell_network(&self, out: &mut Vec<String>, page_url: &str, v: &Vec<NetworkEvent>)
        ensures
            text::texts(final(out)@) == self@.with_network(
                text::texts(old(out)@),
                page_url@,
                network_views(v@),
            ),
    {
        let ghost sent = text::texts(out@);
        let ghost all = network_views(v@);
        let mut i: usize = 0;
        while i < v.len()
            invariant
                i <= v.len(),
                all == network_views(v@),
                text::texts(out@) == self@.with_network(
                    sent,
                    page_url@,
                    all.subrange(0, i as int),
                ),
            decreases v.len() - i,
        {
            assert(all.subrange(0, i + 1).drop_last() =~= all.subrange(0, i as int));
            let e: &NetworkEvent = &v[i];
            assert(all[i as int] == e@);
            self.tell(
                out,
                "Network.requestWillBeSent",
                Json::object().put("requestId", Json::string(e.request_id.as_str())).put(
                    "loaderId",
                    Json::string(self.loader_id.as_str()),
                ).put("documentURL", Json::string(page_url)).put(
                    "request",
                    Json::object().put("url", Json::string(e.url.as_str())).put(
                        "method",
                        Json::string(e.method.as_str()),
                    ).put("headers", fetch::headers_to_json(&e.headers)),
                ).put("timestamp", e.timestamp.duplicate()).put(
                    "wallTime",
                    e.timestamp.duplicate(),
                ).put("initiator", Json::object().put("type", Json::string("other"))).put(
                    "type",
                    Json::string(e.resource_type.as_str()),
                ).put("frameId", Json::string(self.page.frame_id.as_str())),
            );
            self.tell(
                out,
                "Network.responseReceived",
                Json::object().put("requestId", Json::string(e.request_id.as_str())).put(
                    "loaderId",
                    Json::string(self.loader_id.as_str()),
                ).put("timestamp", e.timestamp.duplicate()).put(
                    "type",
                    Json::string(e.resource_type.as_str()),
                ).put(
                    "response",
                    Json::object().put("url", Json::string(e.url.as_str())).put(
                        "status",
                        Json::UInt(e.status as u64),
                    ).put("statusText", Json::string("")).put(
                        "headers",
                        fetch::headers_to_json(&e.response_headers),
                    ).put("mimeType", Json::string("")),
                ).put("frameId", Json::string(self.page.frame_id.as_str())),
            );
            self.tell(
                out,
                "Network.loadingFinished",
                Json::object().put("requestId", Json::string(e.request_id.as_str())).put(
                    "timestamp",
                    e.timestamp.duplicate(),
                ).put("encodedDataLength", Json::UInt(e.body_size)),
            );
            i += 1;
        }
        assert(all.subrange(0, i as int) =~= all);
    }

    fn farewell(&self, a: &Arrival) -> (r: Vec<String>)
        ensures
            text::texts(r@) == self@.farewell(a@),
    {
        let mut out: Vec<String> = Vec::new();
        assert(text::texts(out@) =~= Seq::<Seq<char>>::empty());
        let url: &str = a.page_url.as_str();
        text::push_text(&mut out, self.response(&a.outcome).to_text());
        self.tell_lifecycle(&mut out, "init", &a.timestamp);
        self.tell(&mut out, "Runtime.executionContextsCleared", Json::object());
        self.tell(&mut out, "Page.frameNavigated", self.frame(url));
        self.tell(&mut out, "Runtime.executionContextCreated", self.script_context(url));
        self.tell_lifecycle(&mut out, "commit", &a.timestamp);
        self.tell_network(&mut out, url, &a.network);
        self.tell_lifecycle(&mut out, "DOMContentLoaded", &a.timestamp);
        self.tell(
            &mut out,
            "Page.domContentEventFired",
            Json::object().put("timestamp", a.timestamp.duplicate()),
        );
        self.tell_lifecycle(&mut out, "load", &a.timestamp);
        self.tell(
            &mut out,
            "Page.loadEventFired",
            Json::object().put("timestamp", a.timestamp.duplicate()),
        );
        if a.network_idle {
            self.tell_lifecycle(&mut out, "networkIdle", &a.timestamp);
        }
        self.tell(
            &mut out,
            "Page.frameStoppedLoading",
            Json::object().put("frameId", Json::string(self.page.frame_id.as_str())),
        );
        out
    }

    /// Ends the navigation: the page comes back, behind the others, and the client is told.
    pub fn finish(self, ctx: &mut CdpContext, page_has_js: bool, a: &Arrival) -> (r: Vec<String>)
        ensures
            text::texts(r@) == self@.farewell(a@),
            final(ctx)@ == (ContextView {
                pages: old(ctx)@.pages.push(PageView { has_js: page_has_js, ..self@.page }),
                ..old(ctx)@
            }),
    {
        let out: Vec<String> = self.farewell(a);
        ctx.return_page(
            Page { id: self.page.id, frame_id: self.page.frame_id, has_js: page_has_js },
        );
        out
    }
}

/// A navigation leaves the pages well-formed, while it waits and when its page comes back,
/// and at the end at most one page has an engine.
pub proof fn navigation_keeps_pages(
    q: RequestView,
    c: ContextView,
    loader_id: Seq<char>,
    page_has_js: bool,
)
    requires
        c.well_formed(),
    ensures
        q.navigation(c, loader_id) matches Some((waiting, n)) ==> {
            let pages = waiting.pages.push(PageView { has_js: page_has_js, ..n.page });
            &&& waiting.well_formed()
            &&& (ContextView { pages, ..waiting }).well_formed()
            &&& dispatch::one_live_at_most(pages)
        },
{
    if let Some((waiting, n)) = q.navigation(c, loader_id) {
        let i = c.session_page(q.session_id)->0;
        dispatch::page_index_is_first(c.pages, c.session_page_name(q.session_id)->0);
        let pages = waiting.pages.push(PageView { has_js: page_has_js, ..n.page });
        let last = pages.len() - 1;
        let at = |k: int|
            if k == last {
                i
            } else if k < i {
                k
            } else {
                k + 1
            };
        assert forall|k: int| 0 <= k < pages.len() implies (#[trigger] pages[k]).id == c.pages[at(
            k,
        )].id && 0 <= at(k) < c.pages.len() by {}
        assert forall|k: int| 0 <= k < pages.len() implies dispatch::given_out(
            (#[trigger] pages[k]).id,
            c.page_counter,
        ) by {
            assert(dispatch::given_out(c.pages[at(k)].id, c.page_counter));
        }
        assert forall|k: int, l: int| 0 <= k < l < pages.len() implies (#[trigger] pages[k]).id != (
        #[trigger] pages[l]).id by {
            let a = at(k);
            let b = at(l);
            assert(a != b);
            if a < b {
                assert(c.pages[a].id != c.pages[b].id);
            } else {
                assert(c.pages[b].id != c.pages[a].id);
            }
        }
        assert forall|k: int| 0 <= k < waiting.pages.len() implies waiting.pages[k] == #[trigger] pages[k] by {}
        assert forall|k: int| 0 <= k < waiting.pages.len() implies dispatch::given_out(
            (#[trigger] waiting.pages[k]).id,
            c.page_counter,
        ) by {
            assert(waiting.pages[k] == pages[k]);
        }
        assert forall|k: int, l: int| 0 <= k < l < waiting.pages.len() implies (
        #[trigger] waiting.pages[k]).id != (#[trigger] waiting.pages[l]).id by {
            assert(waiting.pages[k] == pages[k] && waiting.pages[l] == pages[l]);
        }
    }
}

} // verus!
