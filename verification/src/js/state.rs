//! What the engine keeps for the scripts of a page.

use vstd::prelude::*;
use vstd::string::*;

use crate::assoc::StringMap;
use crate::js::dom::{DomTree, DomView};
use crate::net::client::{ClientView, ObscuraHttpClient};
use crate::net::client;
use crate::net::url::{UrlRecord, UrlView};
use crate::net::url;
use crate::text;

verus! {

/// What the one who intercepts a request decides.
#[allow(inconsistent_fields)]
pub enum InterceptResolution {
    Continue {
        url: Option<String>,
        method: Option<String>,
        headers: Option<StringMap>,
        body: Option<String>,
    },
    Fulfill { status: u16, headers: StringMap, body: String },
    Fail { reason: String },
}

/// What the one who intercepts a request decides, as plain data.
#[allow(inconsistent_fields)]
pub enum ResolutionView {
    Continue {
        url: Option<Seq<char>>,
        method: Option<Seq<char>>,
        headers: Option<Seq<(Seq<char>, Seq<char>)>>,
        body: Option<Seq<char>>,
    },
    Fulfill { status: u16, headers: Seq<(Seq<char>, Seq<char>)>, body: Seq<char> },
    Fail { reason: Seq<char> },
}

impl View for InterceptResolution {
    type V = ResolutionView;

    open spec fn view(&self) -> ResolutionView {
        match self {
            InterceptResolution::Continue { url, method, headers, body } => ResolutionView::Continue {
                url: text::opt(*url),
                method: text::opt(*method),
                headers: match headers {
                    Some(h) => Some(h@),
                    None => None,
                },
                body: text::opt(*body),
            },
            InterceptResolution::Fulfill { status, headers, body } => ResolutionView::Fulfill {
                status: *status,
                headers: headers@,
                body: body@,
            },
            InterceptResolution::Fail { reason } => ResolutionView::Fail { reason: reason@ },
        }
    }
}

/// A request of a page that waits for a decision.
pub struct InterceptedRequest {
    pub request_id: String,
    pub url: String,
    pub method: String,
    pub headers: StringMap,
    pub resource_type: String,
}

/// What the engine keeps for the scripts of a page. `has_cookie_jar` and
/// `has_intercept_tx` say whether there is a cookie jar, and someone who is asked about
/// requests. The HTTP client stands here without its cookie jar.
pub struct ObscuraState {
    pub dom: Option<DomTree>,
    pub url: String,
    pub encoding: String,
    pub title: String,
    pub blocked_urls: Vec<String>,
    pub has_cookie_jar: bool,
    pub http_client: Option<ObscuraHttpClient<()>>,
    pub pending_navigation: Option<(String, String, String)>,
    pub has_intercept_tx: bool,
    pub intercept_counter: u64,
    pub intercept_enabled: bool,
    pub pending_binding_calls: Vec<(String, String)>,
}

/// What the engine keeps for the scripts of a page, as plain data.
pub struct StateView {
    pub dom: Option<DomView>,
    pub url: Seq<char>,
    pub encoding: Seq<char>,
    pub title: Seq<char>,
    pub blocked_urls: Seq<Seq<char>>,
    pub has_cookie_jar: bool,
    pub http_client: Option<ClientView<()>>,
    pub pending_navigation: Option<(Seq<char>, Seq<char>, Seq<char>)>,
    pub has_intercept_tx: bool,
    pub intercept_counter: u64,
    pub intercept_enabled: bool,
    pub pending_binding_calls: Seq<(Seq<char>, Seq<char>)>,
}

/// The view of an optional navigation.
pub open spec fn navigation_view(n: Option<(String, String, String)>) -> Option<
    (Seq<char>, Seq<char>, Seq<char>),
> {
    match n {
        Some((u, m, b)) => Some((u@, m@, b@)),
        None => None,
    }
}

impl View for ObscuraState {
    type V = StateView;

    open spec fn view(&self) -> StateView {
        StateView {
            dom: match self.dom {
                Some(d) => Some(d@),
                None => None,
            },
            url: self.url@,
            encoding: self.encoding@,
            title: self.title@,
            blocked_urls: text::texts(self.blocked_urls@),
            has_cookie_jar: self.has_cookie_jar,
            http_client: match self.http_client {
                Some(c) => Some(c@),
                None => None,
            },
            pending_navigation: navigation_view(self.pending_navigation),
            has_intercept_tx: self.has_intercept_tx,
            intercept_counter: self.intercept_counter,
            intercept_enabled: self.intercept_enabled,
            pending_binding_calls: crate::assoc::entry_views(self.pending_binding_calls@),
        }
    }
}

impl StateView {
    /// The state of a page that nothing was loaded into.
    pub open spec fn fresh() -> StateView {
        StateView {
            dom: None,
            url: "about:blank"@,
            encoding: "UTF-8"@,
            title: Seq::empty(),
            blocked_urls: Seq::empty(),
            has_cookie_jar: false,
            http_client: None,
            pending_navigation: None,
            has_intercept_tx: false,
            intercept_counter: 0,
            intercept_enabled: false,
            pending_binding_calls: Seq::empty(),
        }
    }

    /// The state where one more request is on its way, if there is a client that counts.
    pub open spec fn with_sent(self) -> StateView {
        StateView {
            http_client: match self.http_client {
                Some(c) => Some(ClientView { in_flight: client::one_more(c.in_flight), ..c }),
                None => None,
            },
            ..self
        }
    }

    /// The state where one request less is on its way, if there is a client that counts.
    pub open spec fn with_ended(self) -> StateView {
        StateView {
            http_client: match self.http_client {
                Some(c) => Some(ClientView { in_flight: client::one_less(c.in_flight), ..c }),
                None => None,
            },
            ..self
        }
    }

    /// The URL whose cookies the page's scripts see and set, where there are cookies.
    pub open spec fn cookie_url(self) -> Option<UrlView> {
        if self.has_cookie_jar {
            match url::url_parsed(self.url) {
                Ok(u) => Some(u),
                Err(_) => None,
            }
        } else {
            None
        }
    }
}

impl ObscuraState {
    /// The state of a page that nothing was loaded into.
    pub fn new() -> (r: ObscuraState)
        ensures
            r@ == StateView::fresh(),
    {
        let r: ObscuraState = ObscuraState {
            dom: None,
            url: "about:blank".to_owned(),
            encoding: "UTF-8".to_owned(),
            title: String::new(),
            blocked_urls: Vec::new(),
            has_cookie_jar: false,
            http_client: None,
            pending_navigation: None,
            has_intercept_tx: false,
            intercept_counter: 0,
            intercept_enabled: false,
            pending_binding_calls: Vec::new(),
        };
        assert(r@.blocked_urls =~= Seq::empty());
        assert(r@.pending_binding_calls =~= Seq::empty());
        r
    }

    /// The proxy that scripts' requests go through: the one that the page is loaded through.
    pub fn fetch_proxy(&self) -> (r: Option<&str>)
        ensures
            text::opt_str(r) == match self@.http_client {
                Some(c) => c.proxy_url,
                None => None,
            },
    {
        match &self.http_client {
            Some(c) => c.proxy_url(),
            None => None,
        }
    }

    pub(crate) fn request_sent(&mut self)
        ensures
            final(self)@ == old(self)@.with_sent(),
    {
        if let Some(c) = &mut self.http_client {
            c.request_sent();
        }
    }

    pub(crate) fn request_ended(&mut self)
        ensures
            final(self)@ == old(self)@.with_ended(),
    {
        if let Some(c) = &mut self.http_client {
            c.request_ended();
        }
    }

    fn cookie_url(&self) -> (r: Option<UrlRecord>)
        ensures
            url::record_view(r) == self@.cookie_url(),
    {
        if !self.has_cookie_jar {
            return None;
        }
        match UrlRecord::parse(self.url.as_str()) {
            Ok(u) => Some(u),
            Err(_) => None,
        }
    }

    /// The URL whose cookies a script may read; without one it reads none.
    pub fn op_get_cookies(&self) -> (r: Option<UrlRecord>)
        ensures
            url::record_view(r) == self@.cookie_url(),
    {
        self.cookie_url()
    }

    /// The URL that a script's cookie is set for; without one it is not set.
    pub fn op_set_cookie(&self) -> (r: Option<UrlRecord>)
        ensures
            url::record_view(r) == self@.cookie_url(),
    {
        self.cookie_url()
    }

    /// A script goes to another URL.
    pub fn op_navigate(&mut self, url: &str, method: &str, body: &str)
        ensures
            final(self)@ == (StateView {
                url: url@,
                pending_navigation: Some((url@, method@, body@)),
                ..old(self)@
            }),
    {
        self.url = url.to_owned();
        self.pending_navigation = Some((url.to_owned(), method.to_owned(), body.to_owned()));
    }

    /// A script calls a function that the client exposed.
    pub fn op_binding_called(&mut self, name: &str, payload: &str)
        ensures
            final(self)@ == (StateView {
                pending_binding_calls: old(self)@.pending_binding_calls.push((name@, payload@)),
                ..old(self)@
            }),
    {
        let e: (String, String) = (name.to_owned(), payload.to_owned());
        self.pending_binding_calls.push(e);
        assert(self@.pending_binding_calls =~= old(self)@.pending_binding_calls.push(
            (e.0@, e.1@),
        ));
    }
}

} // verus!
