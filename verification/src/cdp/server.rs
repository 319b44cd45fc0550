//! The server: what becomes of each message, also while a navigation waits for its
//! client's decisions.

use vstd::prelude::*;
use vstd::string::*;

use crate::assoc::StringMap;
use crate::assoc;
use crate::base64;
use crate::cdp::dispatch::{CdpContext, ContextView, Page, PageView};
use crate::cdp::dispatch;
use crate::cdp::types::{CdpRequest, CdpResponse, RequestView, ResponseView};
use crate::cdp::types;
use crate::js::fetch;
use crate::js::state::{InterceptResolution, ResolutionView};
use crate::json::{Json, JsonView};
use crate::json;
use crate::text;

verus! {

/// The most messages that wait for a navigation to end.
pub const MAX_DEFERRED_MESSAGES: usize = 256;

/// The headers that a client gives a response: the members of a list that have a name and a
/// value, each name with its last value.
pub open spec fn header_pairs(v: Seq<JsonView>) -> Seq<(Seq<char>, Seq<char>)>
    decreases v.len(),
{
    if v.len() == 0 {
        Seq::empty()
    } else {
        let rest = header_pairs(v.drop_last());
        match (v.last().get_str("name"@), v.last().get_str("value"@)) {
            (Some(n), Some(x)) => assoc::with(rest, n, x),
            _ => rest,
        }
    }
}

/// The headers that a client gives a response.
pub open spec fn response_headers(params: JsonView) -> Seq<(Seq<char>, Seq<char>)> {
    match params.get("responseHeaders"@) {
        Some(h) => match h.as_array() {
            Some(v) => header_pairs(v),
            None => Seq::empty(),
        },
        None => Seq::empty(),
    }
}

/// What a client decides about a request that waits, if its method is such a decision.
pub open spec fn decision(method: Seq<char>, params: JsonView) -> Option<ResolutionView> {
    if method == "Fetch.continueRequest"@ {
        Some(ResolutionView::Continue { url: None, method: None, headers: None, body: None })
    } else if method == "Fetch.fulfillRequest"@ {
        Some(
            ResolutionView::Fulfill {
                status: (params.get_u64_or("responseCode"@, 200) % 65536) as u16,
                headers: response_headers(params),
                body: text::lossy(base64::decoded(params.get_str_or("body"@, ""@))),
            },
        )
    } else if method == "Fetch.failRequest"@ {
        Some(ResolutionView::Fail { reason: params.get_str_or("errorReason"@, "Failed"@) })
    } else {
        None
    }
}

/// The end of a request's wait: which request, what was decided, if anything, and what the
/// client that decided is told.
pub struct FetchResolution {
    pub request_id: String,
    pub resolution: Option<InterceptResolution>,
    pub reply: Option<String>,
}

/// The end of a request's wait, as plain data.
pub struct FetchResolutionView {
    pub request_id: Seq<char>,
    pub resolution: Option<ResolutionView>,
    pub reply: Option<Seq<char>>,
}

impl View for FetchResolution {
    type V = FetchResolutionView;

    open spec fn view(&self) -> FetchResolutionView {
        FetchResolutionView {
            request_id: self.request_id@,
            resolution: match self.resolution {
                Some(r) => Some(r@),
                None => None,
            },
            reply: text::opt(self.reply),
        }
    }
}

/// The view of an optional end of a wait.
pub open spec fn opt_resolution(r: Option<FetchResolution>) -> Option<FetchResolutionView> {
    match r {
        Some(x) => Some(x@),
        None => None,
    }
}

impl RequestView {
    /// The request of a page that this request is about.
    pub open spec fn fetch_request_id(self) -> Seq<char> {
        self.params.get_str_or("requestId"@, ""@)
    }

    /// What this request makes of the requests that wait: it ends the wait of the one that
    /// it names, and decides about it where its method is such a decision.
    pub open spec fn resolves(self, paused: Seq<Seq<char>>) -> Option<FetchResolutionView> {
        if paused.contains(self.fetch_request_id()) {
            let d = decision(self.method, self.params);
            Some(
                FetchResolutionView {
                    request_id: self.fetch_request_id(),
                    resolution: d,
                    reply: match d {
                        Some(_) => Some(types::response_text(self.success(JsonView::object()))),
                        None => None,
                    },
                },
            )
        } else {
            None
        }
    }
}

fn collect_headers(params: &Json) -> (r: StringMap)
    ensures
        r@ == response_headers(params@),
{
    let v: &Vec<Json> = match params.get("responseHeaders") {
        Some(h) => match h.as_array() {
            Some(v) => v,
            None => {
                return StringMap::new();
            },
        },
        None => {
            return StringMap::new();
        },
    };
    let ghost all = json::views(v@);
    let mut out: StringMap = StringMap::new();
    let mut i: usize = 0;
    while i < v.len()
        invariant
            i <= v.len(),
            all == json::views(v@),
            out@ == header_pairs(all.subrange(0, i as int)),
        decreases v.len() - i,
    {
        assert(all.subrange(0, i + 1).drop_last() =~= all.subrange(0, i as int));
        assert(all[i as int] == v[i as int]@);
        match (v[i].get_str("name"), v[i].get_str("value")) {
            (Some(n), Some(x)) => {
                out.insert(n, x);
            },
            _ => {},
        }
        i += 1;
    }
    assert(all.subrange(0, i as int) =~= all);
    out
}

fn low_16_bits(n: u64) -> (r: u16)
    ensures
        r == n % 65536,
{
    let r: u16 = n as u16;
    assert(n as u16 == n % 65536) by (bit_vector);
    r
}

fn decide(method: &str, params: &Json) -> (r: Option<InterceptResolution>)
    ensures
        decision(method@, params@) == match r {
            Some(x) => Some(x@),
            None => None,
        },
{
    if text::same(method, "Fetch.continueRequest") {
        Some(InterceptResolution::Continue { url: None, method: None, headers: None, body: None })
    } else if text::same(method, "Fetch.fulfillRequest") {
        let status: u16 = low_16_bits(params.get_u64_or("responseCode", 200));
        let headers: StringMap = collect_headers(params);
        let body: String = base64::decode_base64(params.get_str_or("body", "").as_str());
        Some(InterceptResolution::Fulfill { status, headers, body })
    } else if text::same(method, "Fetch.failRequest") {
        Some(InterceptResolution::Fail { reason: params.get_str_or("errorReason", "Failed") })
    } else {
        None
    }
}

/// Ends the wait of the request that a client's request names, if it waits, and gives what
/// was decided.
pub fn resolve_fetch(req: &CdpRequest, paused: &mut Vec<String>) -> (r: Option<FetchResolution>)
    ensures
        opt_resolution(r) == req@.resolves(text::texts(old(paused)@)),
        text::texts(final(paused)@) == text::texts_without(
            text::texts(old(paused)@),
            req@.fetch_request_id(),
        ),
{
    let request_id: String = req.params.get_str_or("requestId", "");
    let waits: bool = text::is_among(paused, request_id.as_str());
    text::take_out(paused, request_id.as_str());
    if !waits {
        return None;
    }
    let resolution: Option<InterceptResolution> = decide(req.method.as_str(), &req.params);
    let reply: Option<String> = if resolution.is_some() {
        Some(
            CdpResponse::success(
                req.id,
                Json::object(),
                text::clone_opt(&req.session_id),
            ).to_text(),
        )
    } else {
        None
    };
    Some(FetchResolution { request_id, resolution, reply })
}

/// Takes a text as a client's decision about a request that waits.
pub fn handle_fetch_resolution(t: &str, paused: &mut Vec<String>) -> (r: Option<FetchResolution>)
    ensures
        match types::parsed_request(t@) {
            Some(q) => {
                &&& opt_resolution(r) == q.resolves(text::texts(old(paused)@))
                &&& text::texts(final(paused)@) == text::texts_without(
                    text::texts(old(paused)@),
                    q.fetch_request_id(),
                )
            },
            None => r is None && final(paused)@ == old(paused)@,
        },
{
    match CdpRequest::parse(t) {
        Some(req) => resolve_fetch(&req, paused),
        None => None,
    }
}

/// A message to the server, with the number of the client that sent it.
pub enum ServerMessage {
    Cdp { text: String, client: u64 },
    NewConnection { client: u64 },
}

/// A message to the server, as plain data.
pub enum MessageView {
    Cdp { text: Seq<char>, client: u64 },
    NewConnection { client: u64 },
}

impl View for ServerMessage {
    type V = MessageView;

    open spec fn view(&self) -> MessageView {
        match self {
            ServerMessage::Cdp { text, client } => MessageView::Cdp {
                text: text@,
                client: *client,
            },
            ServerMessage::NewConnection { client } => MessageView::NewConnection {
                client: *client,
            },
        }
    }
}

/// The views of a list of messages.
pub open spec fn message_views(v: Seq<ServerMessage>) -> Seq<MessageView> {
    v.map_values(|m: ServerMessage| m@)
}

/// What a client is told when it connects.
pub open spec fn greeting() -> JsonView {
    JsonView::object().put("__init"@, JsonView::Bool(true))
}

/// What a client is told that connects while a navigation waits: also which page and session
/// were made for it.
pub open spec fn greeting_with_page(page_id: Seq<char>, session_id: Seq<char>) -> JsonView {
    greeting().put("pageId"@, JsonView::Str(page_id)).put("sessionId"@, JsonView::Str(session_id))
}

/// Whether a message is about a navigation.
pub open spec fn is_navigation(t: Seq<char>) -> bool {
    text::has_text(t, "Page.navigate"@)
}

/// Whether a message may be a decision about a request.
pub open spec fn is_decision(t: Seq<char>) -> bool {
    ||| text::has_text(t, "Fetch.continueRequest"@)
    ||| text::has_text(t, "Fetch.fulfillRequest"@)
    ||| text::has_text(t, "Fetch.failRequest"@)
}

/// What the server is to do with a message.
pub enum Route {
    /// Tell the client this.
    Send(String),
    /// Navigate, and let the client decide about the requests on the way.
    Intercept,
    /// Dispatch it, after the end of a request's wait.
    Process(Option<FetchResolution>),
}

/// The state of the server: what it knows of pages, the messages that had to wait, and the
/// requests that wait for a decision, by name.
pub struct CdpProcessor {
    pub ctx: CdpContext,
    pub deferred: Vec<ServerMessage>,
    pub paused: Vec<String>,
}

/// The state of the server, as plain data.
pub struct ProcessorView {
    pub ctx: ContextView,
    pub deferred: Seq<MessageView>,
    pub paused: Seq<Seq<char>>,
}

impl View for CdpProcessor {
    type V = ProcessorView;

    open spec fn view(&self) -> ProcessorView {
        ProcessorView {
            ctx: self.ctx@,
            deferred: message_views(self.deferred@),
            paused: text::texts(self.paused@),
        }
    }
}

/// What is done with a message that comes while a navigation waits.
pub enum Meanwhile {
    /// Tell the client this, which may be nothing.
    Send(Option<String>),
    /// Pass on the end of a request's wait.
    Resolve(Option<FetchResolution>),
    /// It waits for the navigation to end.
    Deferred,
}

/// What is done with a message that comes while a navigation waits, as plain data.
pub enum MeanwhileView {
    Send(Option<Seq<char>>),
    Resolve(Option<FetchResolutionView>),
    Deferred,
}

impl View for Meanwhile {
    type V = MeanwhileView;

    open spec fn view(&self) -> MeanwhileView {
        match self {
            Meanwhile::Send(t) => MeanwhileView::Send(text::opt(*t)),
            Meanwhile::Resolve(r) => MeanwhileView::Resolve(opt_resolution(*r)),
            Meanwhile::Deferred => MeanwhileView::Deferred,
        }
    }
}

/// What a client is told whose message cannot wait any more: nothing where it is no request.
pub open spec fn busy_text(q: Option<RequestView>) -> Option<Seq<char>> {
    match q {
        Some(q) => Some(
            types::response_text(
                q.failure(
                    types::SERVER_ERROR,
                    "Server busy: navigation in progress, try again later"@,
                ),
            ),
        ),
        None => None,
    }
}

impl ProcessorView {
    /// The server with the wait of a request ended that a client's request names.
    pub open spec fn after_decision(self, q: Option<RequestView>) -> ProcessorView {
        match q {
            Some(q) => ProcessorView {
                paused: text::texts_without(self.paused, q.fetch_request_id()),
                ..self
            },
            None => self,
        }
    }

    /// The end of a request's wait that a client's request brings.
    pub open spec fn decided(self, q: Option<RequestView>) -> Option<
        FetchResolutionView,
    > {
        match q {
            Some(q) => q.resolves(self.paused),
            None => None,
        }
    }

    /// What becomes of a client's message while a navigation waits, where `q` is the request
    /// that it is read as.
    pub open spec fn meanwhile_with(
        self,
        t: Seq<char>,
        client: u64,
        q: Option<RequestView>,
    ) -> (ProcessorView, MeanwhileView) {
        if is_decision(t) {
            (self.after_decision(q), MeanwhileView::Resolve(self.decided(q)))
        } else if self.deferred.len() >= MAX_DEFERRED_MESSAGES {
            (self, MeanwhileView::Send(busy_text(q)))
        } else {
            (
                ProcessorView {
                    deferred: self.deferred.push(MessageView::Cdp { text: t, client }),
                    ..self
                },
                MeanwhileView::Deferred,
            )
        }
    }

    /// What becomes of a client's message while a navigation waits.
    pub open spec fn meanwhile(self, t: Seq<char>, client: u64) -> (ProcessorView, MeanwhileView) {
        self.meanwhile_with(t, client, types::parsed_request(t))
    }
}

fn decides(t: &str) -> (r: bool)
    ensures
        r == is_decision(t@),
{
    text::contains(t, "Fetch.continueRequest") || text::contains(t, "Fetch.fulfillRequest")
        || text::contains(t, "Fetch.failRequest")
}

/// What a client is told whose message cannot wait any more, given what the message is read
/// as: nothing where it is no request.
pub fn busy_reply(parsed: Option<CdpRequest>) -> (r: Option<String>)
    ensures
        text::opt(r) == busy_text(types::opt_request(parsed)),
{
    match parsed {
        Some(q) => Some(
            CdpResponse::error(
                q.id,
                types::SERVER_ERROR,
                "Server busy: navigation in progress, try again later".to_owned(),
                q.session_id,
            ).to_text(),
        ),
        None => None,
    }
}

impl CdpProcessor {
    /// A server without pages, whose pages can ask about requests.
    pub fn new(
        proxy: Option<String>,
        stealth: bool,
        user_agent: Option<String>,
        storage_dir: Option<String>,
    ) -> (r: CdpProcessor)
        ensures
            r@ == (ProcessorView {
                ctx: ContextView {
                    has_intercept_tx: true,
                    ..ContextView::fresh(
                        dispatch::default_options(
                            text::opt(proxy),
                            stealth,
                            text::opt(user_agent),
                            text::opt(storage_dir),
                            false,
                        ),
                    )
                },
                deferred: Seq::empty(),
                paused: Seq::empty(),
            }),
    {
        let mut ctx: CdpContext = CdpContext::new_with_storage(
            proxy,
            stealth,
            user_agent,
            storage_dir,
        );
        ctx.let_ask();
        let r: CdpProcessor = CdpProcessor { ctx, deferred: Vec::new(), paused: Vec::new() };
        assert(r@.deferred =~= Seq::empty());
        assert(r@.paused =~= Seq::empty());
        r
    }

    /// The message that has waited longest, if any waits: it goes before new ones.
    pub fn next_deferred(&mut self) -> (r: Option<ServerMessage>)
        ensures
            old(self)@.deferred.len() == 0 ==> r is None && final(self)@ == old(self)@,
            old(self)@.deferred.len() > 0 ==> {
                &&& r is Some
                &&& r->0@ == old(self)@.deferred[0]
                &&& final(self)@ == (ProcessorView {
                    deferred: old(self)@.deferred.skip(1),
                    ..old(self)@
                })
            },
    {
        if self.deferred.len() == 0 {
            return None;
        }
        let m: ServerMessage = self.deferred.remove(0);
        assert(self@.deferred =~= old(self)@.deferred.skip(1));
        Some(m)
    }

    /// Says what is to be done with a message when no navigation waits.
    pub fn route(&mut self, message: &ServerMessage) -> (r: Route)
        ensures
            match message@ {
                MessageView::NewConnection { .. } => {
                    &&& r is Send
                    &&& r->Send_0@ == json::json_text(greeting())
                    &&& final(self)@ == old(self)@
                },
                MessageView::Cdp { text: t, .. } => if is_navigation(t)
                    && old(self)@.ctx.fetch_intercept_enabled {
                    r is Intercept && final(self)@ == old(self)@
                } else if text::has_text(t, "Fetch."@) {
                    &&& r is Process
                    &&& opt_resolution(r->Process_0) == old(self)@.decided(types::parsed_request(t))
                    &&& final(self)@ == old(self)@.after_decision(types::parsed_request(t))
                } else {
                    r is Process && r->Process_0 is None && final(self)@ == old(self)@
                },
            },
    {
        match message {
            ServerMessage::NewConnection { .. } => Route::Send(
                Json::object().put("__init", Json::Bool(true)).to_text(),
            ),
            ServerMessage::Cdp { text: t, .. } => {
                if text::contains(t.as_str(), "Page.navigate") && self.ctx.intercepts() {
                    Route::Intercept
                } else if text::contains(t.as_str(), "Fetch.") {
                    Route::Process(handle_fetch_resolution(t.as_str(), &mut self.paused))
                } else {
                    Route::Process(None)
                }
            },
        }
    }

    /// Says what is to be done with a message while a navigation waits: a decision about a
    /// request is passed on; anything else waits, unless too much waits already.
    pub fn on_message(&mut self, message: ServerMessage) -> (r: Meanwhile)
        requires
            message@ is NewConnection ==> old(self)@.ctx.page_counter < u32::MAX,
        ensures
            match message@ {
                MessageView::NewConnection { .. } => {
                    let page_id = dispatch::page_name((old(self)@.ctx.page_counter + 1) as nat);
                    let session_id = page_id + "-session"@;
                    &&& r@ == MeanwhileView::Send(
                        Some(json::json_text(greeting_with_page(page_id, session_id))),
                    )
                    &&& final(self)@ == (ProcessorView {
                        ctx: ContextView {
                            page_counter: (old(self)@.ctx.page_counter + 1) as u32,
                            pages: old(self)@.ctx.pages.push(
                                PageView { id: page_id, frame_id: Seq::empty(), has_js: false },
                            ),
                            sessions: assoc::with(old(self)@.ctx.sessions, session_id, page_id),
                            ..old(self)@.ctx
                        },
                        ..old(self)@
                    })
                },
                MessageView::Cdp { text: t, client } => (final(self)@, r@) == old(self)@.meanwhile(
                    t,
                    client,
                ),
            },
    {
        match message {
            ServerMessage::NewConnection { client: _ } => {
                let (page_id, session_id) = self.ctx.create_page_with_session();
                Meanwhile::Send(
                    Some(
                        Json::object().put("__init", Json::Bool(true)).put(
                            "pageId",
                            Json::Str(page_id),
                        ).put("sessionId", Json::Str(session_id)).to_text(),
                    ),
                )
            },
            ServerMessage::Cdp { text: t, client } => {
                let parsed: Option<CdpRequest> = CdpRequest::parse(t.as_str());
                self.resolve_or_wait(t, client, parsed)
            },
        }
    }

    /// Says what is to be done with a client's message while a navigation waits, where
    /// `parsed` is the request that it is read as.
    pub fn resolve_or_wait(
        &mut self,
        t: String,
        client: u64,
        parsed: Option<CdpRequest>,
    ) -> (r: Meanwhile)
        ensures
            (final(self)@, r@) == old(self)@.meanwhile_with(
                t@,
                client,
                types::opt_request(parsed),
            ),
    {
        if decides(t.as_str()) {
            match parsed {
                Some(q) => Meanwhile::Resolve(resolve_fetch(&q, &mut self.paused)),
                None => Meanwhile::Resolve(None),
            }
        } else if self.deferred.len() >= MAX_DEFERRED_MESSAGES {
            Meanwhile::Send(busy_reply(parsed))
        } else {
            let m: ServerMessage = ServerMessage::Cdp { text: t, client };
            let ghost v = m@;
            self.deferred.push(m);
            assert(self@.deferred =~= old(self)@.deferred.push(v));
            Meanwhile::Deferred
        }
    }
}

/// What waits never outgrows its limit, whatever message comes.
pub proof fn waiting_is_bounded(p: ProcessorView, t: Seq<char>, client: u64)
    requires
        p.deferred.len() <= MAX_DEFERRED_MESSAGES,
    ensures
        p.meanwhile(t, client).0.deferred.len() <= MAX_DEFERRED_MESSAGES,
{
}

/// No request that comes while a navigation waits is lost: it is taken as a decision, or waits
/// behind those that came before it, or its client is told that the server is busy. Only a
/// text that is no request is passed over in silence where there is no room.
pub proof fn no_message_is_lost(p: ProcessorView, t: Seq<char>, client: u64)
    ensures
        ({
            let (after, what) = p.meanwhile(t, client);
            &&& what is Resolve ==> is_decision(t) && after.deferred == p.deferred
            &&& what is Deferred ==> after.deferred == p.deferred.push(
                MessageView::Cdp { text: t, client },
            )
            &&& what is Send ==> p.deferred.len() >= MAX_DEFERRED_MESSAGES && after == p
                && what->Send_0 == busy_text(types::parsed_request(t))
            &&& what == MeanwhileView::Send(None) ==> types::parsed_request(t) is None
        }),
{
}

/// What waits after a run of messages, none of which is a decision.
pub open spec fn waiting_after(p: ProcessorView, ms: Seq<(Seq<char>, u64)>) -> ProcessorView
    decreases ms.len(),
{
    if ms.len() == 0 {
        p
    } else {
        let before = waiting_after(p, ms.drop_last());
        before.meanwhile(ms.last().0, ms.last().1).0
    }
}

/// Messages that wait keep the order in which they came: as long as there is room, what
/// waits after a run of messages is what waited before and then the run.
pub proof fn waiting_keeps_order(p: ProcessorView, ms: Seq<(Seq<char>, u64)>)
    requires
        p.deferred.len() + ms.len() <= MAX_DEFERRED_MESSAGES,
        forall|i: int| 0 <= i < ms.len() ==> !is_decision((#[trigger] ms[i]).0),
    ensures
        waiting_after(p, ms).deferred == p.deferred + ms.map_values(
            |m: (Seq<char>, u64)| MessageView::Cdp { text: m.0, client: m.1 },
        ),
    decreases ms.len(),
{
    let message = |m: (Seq<char>, u64)| MessageView::Cdp { text: m.0, client: m.1 };
    if ms.len() == 0 {
        assert(waiting_after(p, ms).deferred =~= p.deferred + ms.map_values(message));
    } else {
        let init = ms.drop_last();
        assert forall|i: int| 0 <= i < init.len() implies !is_decision(
            (#[trigger] init[i]).0,
        ) by {
            assert(init[i] == ms[i]);
        }
        waiting_keeps_order(p, init);
        assert(!is_decision(ms[ms.len() - 1].0));
        assert(waiting_after(p, ms).deferred =~= p.deferred + ms.map_values(message));
    }
}

/// The request that a message is, if it is one: any other message is passed over.
pub fn process_cdp_message(t: &str) -> (r: Option<CdpRequest>)
    ensures
        match types::parsed_request(t@) {
            Some(q) => r is Some && r->0@ == q,
            None => r is None,
        },
{
    match CdpRequest::parse(t) {
        Some(q) => Some(q),
        None => None,
    }
}

/// What a client is told when its request was dispatched: the events that came of it, in
/// their order, and only then the answer.
pub fn message_replies(ctx: &mut CdpContext, response: &CdpResponse) -> (r: Vec<String>)
    ensures
        text::texts(r@) == dispatch::event_texts(old(ctx)@.pending_events).push(
            types::response_text(response@),
        ),
        final(ctx)@ == (ContextView { pending_events: Seq::empty(), ..old(ctx)@ }),
{
    let mut out: Vec<String> = ctx.drain_events();
    text::push_text(&mut out, response.to_text());
    out
}

/// The page whose scripts may have asked for another document: the one that the session is
/// for.
pub fn check_pending_navigation(ctx: &CdpContext, session_id: &Option<String>) -> (r: Option<
    String,
>)
    ensures
        text::opt(r) == dispatch::name_at(
            ctx@.pages,
            ctx@.session_page(text::opt(*session_id)),
        ),
{
    match ctx.get_session_page(session_id) {
        Some(p) => Some(p.id.clone()),
        None => None,
    }
}

/// The request that stands for a navigation that a script asked for.
pub open spec fn script_navigation(
    session_id: Option<Seq<char>>,
    url: Seq<char>,
    method: Seq<char>,
    body: Seq<char>,
) -> RequestView {
    RequestView {
        id: 0,
        method: "Page.navigate"@,
        params: JsonView::object().put("url"@, JsonView::Str(url)).put(
            "__method"@,
            JsonView::Str(method),
        ).put("__body"@, JsonView::Str(body)),
        session_id,
    }
}

/// The request that stands for a navigation that a script asked for.
pub fn navigation_request(
    session_id: &Option<String>,
    url: &str,
    method: &str,
    body: &str,
) -> (r: CdpRequest)
    ensures
        r@ == script_navigation(text::opt(*session_id), url@, method@, body@),
{
    CdpRequest {
        id: 0,
        method: "Page.navigate".to_owned(),
        params: Json::object().put("url", Json::string(url)).put(
            "__method",
            Json::string(method),
        ).put("__body", Json::string(body)),
        session_id: text::clone_opt(session_id),
    }
}

/// Whether a method does nothing and is answered at once.
pub open spec fn idle_method(m: Seq<char>) -> bool {
    ||| m == "Network.enable"@
    ||| m == "Network.setCacheDisabled"@
    ||| m == "Network.setRequestInterception"@
    ||| m == "Page.enable"@
    ||| m == "Page.setLifecycleEventsEnabled"@
    ||| m == "Page.setInterceptFileChooserDialog"@
    ||| m == "Runtime.runIfWaitingForDebugger"@
    ||| m == "Runtime.discardConsoleEntries"@
    ||| m == "Performance.enable"@
    ||| m == "Log.enable"@
    ||| m == "Security.enable"@
    ||| m == "Emulation.setDeviceMetricsOverride"@
    ||| m == "Emulation.setTouchEmulationEnabled"@
    ||| m == "CSS.enable"@
    ||| m == "Accessibility.enable"@
    ||| m == "ServiceWorker.enable"@
    ||| m == "Inspector.enable"@
    ||| m == "Debugger.enable"@
    ||| m == "Profiler.enable"@
    ||| m == "HeapProfiler.enable"@
    ||| m == "Overlay.enable"@
    ||| m == "Storage.enable"@
    ||| m == "Target.setAutoAttach"@
    ||| m == "Browser.setDownloadBehavior"@
    ||| m == "Browser.getWindowBounds"@
}

/// What the browser is.
pub open spec fn version_result() -> JsonView {
    JsonView::object().put("protocolVersion"@, JsonView::Str("1.3"@)).put(
        "product"@,
        JsonView::Str("Obscura/0.1.0"@),
    ).put("revision"@, JsonView::Str("0"@)).put("userAgent"@, JsonView::Str("Obscura/0.1.0"@)).put(
        "jsVersion"@,
        JsonView::Str("V8"@),
    )
}

/// The browser contexts that there are.
pub open spec fn contexts_result() -> JsonView {
    JsonView::object().put(
        "browserContextIds"@,
        JsonView::Array(seq![JsonView::Str("default"@)]),
    )
}

/// The result of a method that is answered at once, without waiting in line.
pub open spec fn fast_result(m: Seq<char>) -> Option<JsonView> {
    if idle_method(m) {
        Some(JsonView::object())
    } else if m == "Browser.getVersion"@ {
        Some(version_result())
    } else if m == "Target.getBrowserContexts"@ {
        Some(contexts_result())
    } else {
        None
    }
}

fn is_idle_method(m: &str) -> (r: bool)
    ensures
        r == idle_method(m@),
{
    text::same(m, "Network.enable") || text::same(m, "Network.setCacheDisabled") || text::same(
        m,
        "Network.setRequestInterception",
    ) || text::same(m, "Page.enable") || text::same(m, "Page.setLifecycleEventsEnabled")
        || text::same(m, "Page.setInterceptFileChooserDialog") || text::same(
        m,
        "Runtime.runIfWaitingForDebugger",
    ) || text::same(m, "Runtime.discardConsoleEntries") || text::same(m, "Performance.enable")
        || text::same(m, "Log.enable") || text::same(m, "Security.enable") || text::same(
        m,
        "Emulation.setDeviceMetricsOverride",
    ) || text::same(m, "Emulation.setTouchEmulationEnabled") || text::same(m, "CSS.enable")
        || text::same(m, "Accessibility.enable") || text::same(m, "ServiceWorker.enable")
        || text::same(m, "Inspector.enable") || text::same(m, "Debugger.enable") || text::same(
        m,
        "Profiler.enable",
    ) || text::same(m, "HeapProfiler.enable") || text::same(m, "Overlay.enable") || text::same(
        m,
        "Storage.enable",
    ) || text::same(m, "Target.setAutoAttach") || text::same(m, "Browser.setDownloadBehavior")
        || text::same(m, "Browser.getWindowBounds")
}

fn fast_value(m: &str) -> (r: Option<Json>)
    ensures
        fetch::opt_json(r) == fast_result(m@),
{
    if is_idle_method(m) {
        Some(Json::object())
    } else if text::same(m, "Browser.getVersion") {
        Some(
            Json::object().put("protocolVersion", Json::string("1.3")).put(
                "product",
                Json::string("Obscura/0.1.0"),
            ).put("revision", Json::string("0")).put(
                "userAgent",
                Json::string("Obscura/0.1.0"),
            ).put("jsVersion", Json::string("V8")),
        )
    } else if text::same(m, "Target.getBrowserContexts") {
        let mut ids: Vec<Json> = Vec::new();
        ids.push(Json::string("default"));
        proof {
            json::array_view(ids);
            assert(json::views(ids@) =~= seq![JsonView::Str("default"@)]);
        }
        Some(Json::object().put("browserContextIds", Json::Array(ids)))
    } else {
        None
    }
}

/// The answer to a request that is answered at once.
pub fn fast_answer(req: &CdpRequest) -> (r: Option<CdpResponse>)
    ensures
        match fast_result(req@.method) {
            Some(v) => r is Some && r->0@ == req@.success(v),
            None => r is None,
        },
{
    match fast_value(req.method.as_str()) {
        Some(v) => Some(CdpResponse::success(req.id, v, text::clone_opt(&req.session_id))),
        None => None,
    }
}

/// The answer to a message that is a request which is answered at once.
pub fn fast_path_response(t: &str) -> (r: Option<String>)
    ensures
        text::opt(r) == fast_path(types::parsed_request(t@)),
{
    match CdpRequest::parse(t) {
        Some(req) => match fast_answer(&req) {
            Some(response) => Some(response.to_text()),
            None => None,
        },
        None => None,
    }
}

/// The text of the answer to a request that is answered at once.
pub open spec fn fast_path(q: Option<RequestView>) -> Option<Seq<char>> {
    match q {
        Some(q) => match fast_result(q.method) {
            Some(v) => Some(types::response_text(q.success(v))),
            None => None,
        },
        None => None,
    }
}

/// What the server does with a text that a client sends.
pub enum ClientAction {
    /// Close the connection, after telling the client this, which may be nothing.
    Close(Option<String>),
    /// Tell the client this.
    Reply(String),
    /// Put it in line.
    Forward,
}

/// What the server does with a text that a client sends, as plain data.
pub enum ClientActionView {
    Close(Option<Seq<char>>),
    Reply(Seq<char>),
    Forward,
}

impl View for ClientAction {
    type V = ClientActionView;

    open spec fn view(&self) -> ClientActionView {
        match self {
            ClientAction::Close(t) => ClientActionView::Close(text::opt(*t)),
            ClientAction::Reply(t) => ClientActionView::Reply(t@),
            ClientAction::Forward => ClientActionView::Forward,
        }
    }
}

/// What a client is told that closes the browser.
pub open spec fn close_reply(q: RequestView) -> Seq<char> {
    types::response_text(ResponseView::success(q.id, JsonView::object(), None))
}

/// What the server does with a text that a client sends, where `q` is the request that it is
/// read as.
pub open spec fn client_action(t: Seq<char>, q: Option<RequestView>) -> ClientActionView {
    if text::has_text(t, "\"Browser.close\""@) {
        ClientActionView::Close(
            match q {
                Some(q) => Some(close_reply(q)),
                None => None,
            },
        )
    } else {
        match fast_path(q) {
            Some(r) => ClientActionView::Reply(r),
            None => ClientActionView::Forward,
        }
    }
}

/// Says what to do with a text that a client sends.
pub fn on_client_text(t: &str) -> (r: ClientAction)
    ensures
        r@ == client_action(t@, types::parsed_request(t@)),
{
    answer_client(t, CdpRequest::parse(t))
}

/// Says what to do with a text that a client sends, where `parsed` is the request that it is
/// read as.
pub fn answer_client(t: &str, parsed: Option<CdpRequest>) -> (r: ClientAction)
    ensures
        r@ == client_action(t@, types::opt_request(parsed)),
{
    if text::contains(t, "\"Browser.close\"") {
        return match parsed {
            Some(q) => ClientAction::Close(
                Some(CdpResponse::success(q.id, Json::object(), None).to_text()),
            ),
            None => ClientAction::Close(None),
        };
    }
    match parsed {
        Some(q) => match fast_answer(&q) {
            Some(response) => ClientAction::Reply(response.to_text()),
            None => ClientAction::Forward,
        },
        None => ClientAction::Forward,
    }
}

/// Whether a text for a client is kept from it: the greeting is.
pub fn is_hidden(t: &str) -> (r: bool)
    ensures
        r == text::has_text(t@, "\"__init\""@),
{
    text::contains(t, "\"__init\"")
}

} // verus!
