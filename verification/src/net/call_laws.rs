//! What the functions for page loads give back, whatever they are called with.

use vstd::prelude::*;
use vstd::string::*;

use crate::assoc::{self, StringMap};
use crate::net::client::{
    self, FetchStart, FileRead, InterceptAction, LocationHeader, ObscuraHttpClient, Outgoing,
    PageFetch, RequestInfo, ResourceType, Response,
};
use crate::net::error::{NetErrorView, ObscuraNetError};
use crate::net::headers;
use crate::net::laws;
use crate::net::policy;
use crate::net::url::{self, UrlHost, UrlRecord};
use crate::text;

verus! {

/// A redirect of a page load that is followed leads to its target: after 301, 302 and 303 as a
/// `GET` without a body, and otherwise with method and body as before. One that is not followed
/// leaves the load as it was.
pub proof fn loads_follow_redirects(
    f: &mut PageFetch,
    status: u16,
    target: Result<UrlRecord, String>,
    host: &Option<UrlHost>,
    r: Result<(), ObscuraNetError>,
)
    requires
        call_ensures(PageFetch::land, (f, status, target, host), r),
    ensures
        target is Err ==> r is Err,
        target is Ok ==> (r is Ok <==> policy::navigation_verdict_for(
            target->Ok_0.scheme@,
            url::host_view(*host),
            old(f).allow_private,
        ) is Ok),
        r is Err ==> final(f)@ == old(f)@,
        r is Ok ==> {
            &&& final(f).url@ == target->Ok_0@
            &&& final(f).redirects@.len() == old(f).redirects@.len() + 1
            &&& final(f).redirects@.last()@ == old(f).url@
            &&& final(f).requests == old(f).requests
            &&& final(f).allow_private == old(f).allow_private
            &&& status == 301 || status == 302 || status == 303 ==> final(f).method@ == "GET"@
                && final(f).body is None
            &&& status != 301 && status != 302 && status != 303 ==> final(f).method@ == old(
                f,
            ).method@ && client::opt_bytes(final(f).body) == client::opt_bytes(old(f).body)
        },
{
    let h = url::host_view(*host);
    if target is Ok {
        let next = target->Ok_0@;
        if policy::navigation_verdict_for(next.scheme, h, old(f).allow_private) is Ok {
            laws::redirects_choose_the_method(old(f)@, status, next, h);
            assert(client::url_views(final(f).redirects@).len() == final(f).redirects@.len());
            assert(client::url_views(old(f).redirects@).len() == old(f).redirects@.len());
        }
    }
}

/// The head of a response ends a request, and leads elsewhere only with a status from 300 to 399
/// and a location.
pub proof fn loads_take_responses<J>(
    f: &mut PageFetch,
    c: &mut ObscuraHttpClient<J>,
    status: u16,
    location: LocationHeader,
    r: Result<bool, ObscuraNetError>,
)
    requires
        call_ensures(PageFetch::on_response::<J>, (f, c, status, location), r),
    ensures
        status < 300 || status > 399 || location is Absent ==> r == Ok::<bool, ObscuraNetError>(
            false,
        ) && final(f)@ == old(f)@,
        300 <= status <= 399 && location is Unreadable ==> r is Err,
        r is Err ==> final(f)@ == old(f)@,
        r == Ok::<bool, ObscuraNetError>(true) ==> {
            &&& 300 <= status <= 399 && location is Text
            &&& url::url_resolved(old(f).url.href@, location->Text_0@) matches Ok(u)
            &&& final(f).url@ == u
            &&& status == 301 || status == 302 || status == 303 ==> final(f).method@ == "GET"@
                && final(f).body is None
            &&& status != 301 && status != 302 && status != 303 ==> final(f).method@ == old(
                f,
            ).method@ && client::opt_bytes(final(f).body) == client::opt_bytes(old(f).body)
        },
        old(c)@.in_flight > 0 ==> final(c)@.in_flight == old(c)@.in_flight - 1,
        final(c)@.extra_headers == old(c)@.extra_headers && final(c)@.user_agent == old(
            c,
        )@.user_agent,
{
    laws::counts_go_by_one(old(c)@.in_flight);
    if location is Text {
        laws::responses_lead_elsewhere(old(f)@, status, location->Text_0@);
        if let Ok(u) = url::url_resolved(old(f).url.href@, location->Text_0@) {
            let h = url::url_host(u.href);
            if policy::navigation_verdict_for(u.scheme, h, old(f).allow_private) is Ok {
                laws::redirects_choose_the_method(old(f)@, status, u, h);
            } else {
                laws::redirects_elsewhere_fail(old(f)@, status, u, h, Seq::empty());
            }
        }
    } else {
        laws::responses_lead_elsewhere(old(f)@, status, Seq::empty());
    }
}

/// A request of a page load is counted and told as what it is, for a document; after twenty the load
/// gives up, with the URL that it had got to.
pub proof fn loads_count_requests<J>(
    f: &mut PageFetch,
    c: &ObscuraHttpClient<J>,
    r: Result<RequestInfo, ObscuraNetError>,
)
    requires
        call_ensures(PageFetch::begin_request::<J>, (f, c), r),
    ensures
        old(f).requests >= 20 ==> final(f)@ == old(f)@ && r is Err && r->Err_0@
            == NetErrorView::TooManyRedirects(old(f).url.href@),
        old(f).requests < 20 ==> {
            &&& r is Ok
            &&& r->Ok_0.url@ == old(f).url@ && r->Ok_0.method@ == old(f).method@
            &&& r->Ok_0.headers@ == c@.extra_headers
            &&& r->Ok_0.resource_type == ResourceType::Document
            &&& final(f).requests == old(f).requests + 1
            &&& final(f).url@ == old(f).url@ && final(f).method@ == old(f).method@
            &&& client::opt_bytes(final(f).body) == client::opt_bytes(old(f).body)
        },
{
}

/// An interceptor may let a request go on, block it, answer it, or add headers to this and all later
/// requests.
pub proof fn interceptors_act<J>(
    f: &PageFetch,
    c: &mut ObscuraHttpClient<J>,
    action: InterceptAction,
    r: Option<Result<Response, ObscuraNetError>>,
    name: Seq<char>,
)
    requires
        call_ensures(PageFetch::on_intercept::<J>, (f, c, action), r),
    ensures
        action is Continue ==> r is None && final(c)@ == old(c)@,
        action is Block ==> r is Some && r->0 is Err && r->0->Err_0@ == NetErrorView::Blocked(
            f.url.href@,
        ),
        (action matches InterceptAction::Fulfill(a) ==> r is Some && r->0 is Ok && r->0->Ok_0@
            == a@),
        (action matches InterceptAction::ModifyHeaders(h) ==> r is None && (assoc::distinct(
            old(c)@.extra_headers,
        ) && h@.len() == 1 ==> assoc::lookup(final(c)@.extra_headers, h@[0].0) == Some(h@[0].1)
            && (name != h@[0].0 ==> assoc::lookup(final(c)@.extra_headers, name) == assoc::lookup(
            old(c)@.extra_headers,
            name,
        )))),
        final(c)@.in_flight == old(c)@.in_flight && final(c)@.user_agent == old(c)@.user_agent,
{
    if let InterceptAction::ModifyHeaders(h) = action {
        let e = old(c)@.extra_headers;
        if assoc::distinct(e) && h@.len() == 1 {
            assoc::with_all_lookup(e, h@, h@[0].0);
            assoc::with_all_lookup(e, h@, name);
            assoc::place_is_last(h@, h@[0].0);
            assoc::place_is_last(h@, name);
        }
    }
}

/// The request that is sent for a page load is the one on its way, with the headers of a browser,
/// its cookies and the extra headers, and as a form where it posts a body.
pub proof fn loads_are_sent<J>(
    f: &PageFetch,
    c: &mut ObscuraHttpClient<J>,
    cookies: &str,
    r: Outgoing,
)
    requires
        call_ensures(PageFetch::outgoing::<J>, (f, c, cookies), r),
    ensures
        r.method@ == f.method@ && r.url@ == f.url@,
        client::opt_bytes(r.body) == client::opt_bytes(f.body),
        ({
            let h = client::request_headers(old(c)@.user_agent, cookies@, old(c)@.extra_headers);
            let sent = assoc::entry_views(r.headers@);
            &&& f.body is Some && f.method@ == "POST"@ ==> sent.len() == h.len() + 1
                && sent.drop_last() == h && sent.last() == (
                "content-type"@,
                "application/x-www-form-urlencoded"@,
            )
            &&& f.body is None || f.method@ != "POST"@ ==> sent == h
        }),
        old(c)@.in_flight < u32::MAX ==> final(c)@.in_flight == old(c)@.in_flight + 1,
{
    laws::counts_go_by_one(old(c)@.in_flight);
    let h = client::request_headers(old(c)@.user_agent, cookies@, old(c)@.extra_headers);
    assert(h.push(("content-type"@, "application/x-www-form-urlencoded"@)).drop_last() =~= h);
}

/// What is told of page loads that failed: the URL and the reason, or that the body was not read.
pub proof fn load_failures_are_told<J>(
    f: &PageFetch,
    c: &mut ObscuraHttpClient<J>,
    reason: &str,
    a: ObscuraNetError,
    b: ObscuraNetError,
)
    requires
        call_ensures(PageFetch::send_failed::<J>, (f, c, reason), a),
        call_ensures(PageFetch::body_failed, (f, reason), b),
    ensures
        a@ == NetErrorView::Network(f.url.href@ + ": "@ + reason@),
        b@ == NetErrorView::Network("Failed to read body: "@ + reason@),
        old(c)@.in_flight > 0 ==> final(c)@.in_flight == old(c)@.in_flight - 1,
{
    laws::counts_go_by_one(old(c)@.in_flight);
}

/// A page load ends with the response to its last request: its status and its body, where it was
/// got from and by way of what, and its headers by their names in lower case, the last of each name.
pub proof fn loads_end(
    f: PageFetch,
    status: u16,
    h: &Vec<(String, Option<String>)>,
    body: Vec<u8>,
    r: Response,
)
    requires
        call_ensures(PageFetch::finish, (f, status, h, body), r),
    ensures
        r.status == status && r.url@ == f.url@ && r.body@ == body@,
        r@.redirected_from == f@.redirects,
        h@.len() == 0 ==> r.headers@.len() == 0,
        h@.len() > 0 ==> assoc::lookup(r.headers@, text::lowered(h@.last().0@)) == Some(
            match h@.last().1 {
                Some(t) => t@,
                None => Seq::empty(),
            },
        ),
{
    let low = headers::lower_names(headers::received(h@));
    if h@.len() > 0 {
        assert(low.drop_last().push(low.last()) =~= low);
        laws::last_header_counts(low.drop_last(), low.last().0, low.last().1, Seq::empty());
    } else {
        assert(low =~= Seq::empty());
        laws::last_header_counts(low, Seq::empty(), None, Seq::empty());
    }
}

/// A `GET` of a URL that is no file and is not blocked starts with a request for it, without a body,
/// and a form is posted with the text that it is.
pub proof fn loads_start<J>(
    c: &ObscuraHttpClient<J>,
    u: &UrlRecord,
    body: &str,
    allow_private: bool,
    is_tracker: bool,
    a: Result<FetchStart, ObscuraNetError>,
    b: Result<FetchStart, ObscuraNetError>,
)
    requires
        call_ensures(ObscuraHttpClient::<J>::fetch, (c, u, allow_private, is_tracker), a),
        call_ensures(
            ObscuraHttpClient::<J>::post_form,
            (c, u, body, allow_private, is_tracker),
            b,
        ),
    ensures
        ({
            let v = policy::navigation_verdict(u@, allow_private);
            let quiet = c@.block_trackers && u.hostname is Some && is_tracker;
            &&& v is Err ==> a is Err && b is Err
            &&& v is Ok && u.scheme@ == "file"@ ==> (a matches Ok(FetchStart::File(x)) && x@ == u@)
            &&& v is Ok && u.scheme@ != "file"@ && quiet ==> (a matches Ok(FetchStart::Answer(x))
                && x.status == 0 && x.body@.len() == 0)
            &&& v is Ok && u.scheme@ != "file"@ && !quiet ==> (a matches Ok(
                FetchStart::Requests(x),
            ) && x.method@ == "GET"@ && x.url@ == u@ && x.body is None && x.requests == 0)
            &&& v is Ok && u.scheme@ != "file"@ && !quiet ==> (b matches Ok(
                FetchStart::Requests(x),
            ) && x.method@ == "POST"@ && x.url@ == u@ && x.body is Some && x.body->0@
                == vstd::utf8::encode_utf8(body@) && x.requests == 0)
        }),
{
    let h = url::url_host(u@.href);
    laws::fetches_start::<J>(*c, a, "GET"@, u@, h, None, allow_private, is_tracker);
    let bytes = Some(vstd::utf8::encode_utf8(body@));
    laws::fetches_start::<J>(*c, b, "POST"@, u@, h, bytes, allow_private, is_tracker);
}

/// A client is set to what it is told, and nothing else of it changes.
pub proof fn clients_are_set<J>(c: &mut ObscuraHttpClient<J>, ua: &str)
    requires
        call_ensures(ObscuraHttpClient::<J>::set_user_agent, (c, ua), ()),
    ensures
        final(c)@.user_agent == ua@,
        final(c)@.extra_headers == old(c)@.extra_headers && final(c)@.in_flight == old(
            c,
        )@.in_flight && final(c)@.timeout_secs == old(c)@.timeout_secs,
{
}

/// The extra headers of a client are those that it was told last.
pub proof fn clients_take_headers<J>(c: &mut ObscuraHttpClient<J>, h: StringMap)
    requires
        call_ensures(ObscuraHttpClient::<J>::set_extra_headers, (c, h), ()),
    ensures
        final(c)@.extra_headers == h@,
        final(c)@.user_agent == old(c)@.user_agent && final(c)@.in_flight == old(c)@.in_flight,
{
}

/// The network is idle where no request is on its way.
pub proof fn clients_tell_their_load<J>(c: &ObscuraHttpClient<J>, n: u32, idle: bool)
    requires
        call_ensures(ObscuraHttpClient::<J>::active_requests, (c,), n),
        call_ensures(ObscuraHttpClient::<J>::is_network_idle, (c,), idle),
    ensures
        n == c@.in_flight,
        idle <==> n == 0,
{
}

/// A file that was read is its response, and one that was not is an error that says why.
pub proof fn files_are_loaded(u: &UrlRecord, file: FileRead, r: Result<Response, ObscuraNetError>)
    requires
        call_ensures(client::fetch_file_url, (u, file), r),
    ensures
        file is NoPath ==> r is Err && r->Err_0@ == NetErrorView::Network("Invalid file URL"@),
        (file matches FileRead::Failed(e) ==> r is Err && r->Err_0@ == NetErrorView::Network(
            "Failed to read file: "@ + e@,
        )),
        (file matches FileRead::Done(b) ==> r is Ok && r->Ok_0.status == 200 && r->Ok_0.body@ == b@
            && r->Ok_0.url@ == u@ && r->Ok_0.redirected_from@.len() == 0 && r->Ok_0.headers@.len()
            <= 1),
{
    if let FileRead::Done(b) = file {
        let x = r->Ok_0;
        assert(client::url_views(x.redirected_from@).len() == x.redirected_from@.len());
    }
}

/// A header of a response is found by its name in any case, and a response is HTML where its content
/// type says so.
pub proof fn responses_are_read(x: &Response, name: &str, a: Option<&str>, html: bool)
    requires
        call_ensures(Response::header, (x, name), a),
        call_ensures(Response::is_html, (x,), html),
        vstd::utf8::is_ascii_chars(name@),
    ensures
        match assoc::lookup(x.headers@, text::lower_text(name@)) {
            Some(v) => a is Some && a->0@ == v,
            None => a is None,
        },
        assoc::lookup(x.headers@, "content-type"@) is None ==> !html,
        assoc::lookup(x.headers@, "content-type"@) == Some("text/html"@) ==> html,
{
    let none = Seq::<char>::empty();
    laws::content_types_tell_html(x@, none, none);
    assert(none + "text/html"@ + none =~= "text/html"@);
}

/// The cookies that a response sets are the values of its `set-cookie` headers, in their order, and
/// its location is the value of the first header of that name.
pub proof fn heads_are_read(
    h: &Vec<(String, Option<String>)>,
    cookies: Vec<String>,
    location: LocationHeader,
)
    requires
        call_ensures(client::find_cookies, (h,), cookies),
        call_ensures(client::find_location, (h,), location),
    ensures
        h@.len() == 0 ==> cookies@.len() == 0 && location is Absent,
        h@.len() > 0 && h@.last().0@ == "set-cookie"@ && h@.last().1 is Some ==> cookies@.len() > 0
            && cookies@.last()@ == h@.last().1->0@,
        h@.len() == 1 && h@[0].0@ != "set-cookie"@ ==> cookies@.len() == 0,
        h@.len() > 0 && h@[0].0@ == "location"@ && h@[0].1 is Some ==> (
        location matches LocationHeader::Text(t) && t@ == h@[0].1->0@),
        h@.len() > 0 && h@[0].0@ == "location"@ && h@[0].1 is None ==> location is Unreadable,
        h@.len() == 1 && h@[0].0@ != "location"@ ==> location is Absent,
{
    let v = headers::received(h@);
    let found = text::texts(cookies@);
    assert(found.len() == cookies@.len());
    if h@.len() > 0 {
        assert(v.drop_last().push(v.last()) =~= v);
        laws::headers_of_responses_are_read(
            v.drop_last(),
            "set-cookie"@,
            v.last().0,
            v.last().1,
        );
        assert(seq![v[0]] + v.skip(1) =~= v);
        laws::locations_are_found(v.skip(1), v[0].0, v[0].1);
        if cookies@.len() > 0 {
            assert(found[cookies@.len() - 1] == cookies@[cookies@.len() - 1]@);
        }
        if h@.len() == 1 {
            assert(v.drop_last() =~= Seq::empty());
            assert(v.skip(1) =~= Seq::empty());
        }
    } else {
        assert(v =~= Seq::empty());
        laws::headers_of_responses_are_read(v, "set-cookie"@, Seq::empty(), None);
    }
}

/// A client is made without extra headers and with nothing on its way, for the proxy that is given.
pub proof fn clients_are_made<J>(jar: J, proxy: Option<&str>, c: ObscuraHttpClient<J>, p: Option<&str>)
    requires
        call_ensures(ObscuraHttpClient::<J>::with_options, (jar, proxy), c),
        call_ensures(ObscuraHttpClient::<J>::proxy_url, (&c,), p),
    ensures
        c@.extra_headers.len() == 0 && c@.in_flight == 0 && c@.timeout_secs == 30
            && !c@.block_trackers && c@.cookie_jar == jar,
        proxy is None ==> p is None,
        proxy is Some ==> p is Some && p->0@ == proxy->0@,
{
}

/// Errors are shown with what kind they are.
pub proof fn errors_are_shown(e: &ObscuraNetError, r: String)
    requires
        call_ensures(ObscuraNetError::message, (e,), r),
    ensures
        (e matches ObscuraNetError::Network(s) ==> r@ == "Network error: "@ + s@),
        (e matches ObscuraNetError::TooManyRedirects(s) ==> r@ == "Too many redirects: "@ + s@),
        (e matches ObscuraNetError::Blocked(s) ==> r@ == "Request blocked: "@ + s@),
{
}

/// Whether a script may fetch a URL is decided by its scheme, its host, and what the guard says of
/// its address.
pub proof fn fetches_are_checked(
    u: &UrlRecord,
    allow_private: bool,
    ip_forbidden: bool,
    r: Result<(), String>,
)
    requires
        call_ensures(policy::validate_fetch_url, (u, allow_private, ip_forbidden), r),
    ensures
        u.scheme@ == "file"@ ==> r is Ok,
        (u.scheme@ == "http"@ || u.scheme@ == "https"@) && allow_private ==> r is Ok,
        u.scheme@ != "http"@ && u.scheme@ != "https"@ && u.scheme@ != "file"@ ==> r is Err
            && r->Err_0@ == "Forbidden URL scheme '"@ + u.scheme@
            + "' - only http, https, and file are allowed"@,
        (u.scheme@ == "http"@ || u.scheme@ == "https"@) && !allow_private && ip_forbidden && (
        url::url_host(u.href@) matches Some(url::HostView::Ipv4(a, b, c, d))) ==> r is Err,
        (u.scheme@ == "http"@ || u.scheme@ == "https"@) && !ip_forbidden && (url::url_host(
            u.href@,
        ) matches Some(url::HostView::Ipv4(a, b, c, d))) ==> r is Ok,
{
    let h = url::url_host(u.href@);
    laws::schemes_are_checked(u.scheme@, h, allow_private, ip_forbidden);
    if let Some(url::HostView::Ipv4(a, b, c, d)) = h {
        laws::hosts_are_checked(a, b, c, d, Seq::empty(), Seq::empty(), Seq::empty());
    }
}

/// Whether a URL may be navigated to is decided by its scheme and its host.
pub proof fn navigations_are_checked(
    scheme: &str,
    host: &Option<UrlHost>,
    allow_private: bool,
    r: Result<(), ObscuraNetError>,
)
    requires
        call_ensures(policy::check_navigation, (scheme, host, allow_private), r),
    ensures
        scheme@ == "file"@ ==> r is Ok,
        (scheme@ == "http"@ || scheme@ == "https"@) && allow_private ==> r is Ok,
        (scheme@ == "http"@ || scheme@ == "https"@) && *host is None ==> r is Ok,
        scheme@ != "http"@ && scheme@ != "https"@ && scheme@ != "file"@ ==> r is Err && r->Err_0@
            == NetErrorView::Network(
            "Forbidden URL scheme '"@ + scheme@ + "' - only http, https, and file are allowed"@,
        ),
        (*host matches Some(UrlHost::Ipv4(a, b, c, d)) ==> (scheme@ == "http"@ || scheme@
            == "https"@) && !allow_private && (a == 127 || a == 10 || (a == 192 && b == 168) || (a
            == 172 && 16 <= b <= 31) || (a == 169 && b == 254)) ==> r is Err),
        (*host matches Some(UrlHost::Ipv4(a, b, c, d)) ==> (scheme@ == "http"@ || scheme@
            == "https"@) && a != 127 && a != 10 && a != 192 && a != 172 && a != 169 && a != 255 && a
            != 198 && a != 203 ==> r is Ok),
        (*host matches Some(UrlHost::Domain(d)) ==> (scheme@ == "http"@ || scheme@ == "https"@)
            && !allow_private && d@ == "localhost"@ ==> r is Err),
{
    let h = url::host_view(*host);
    laws::schemes_are_checked(scheme@, h, allow_private, true);
    laws::schemes_are_checked(scheme@, h, allow_private, false);
    laws::navigations_are_judged_by_address(
        arbitrary(),
        scheme@,
        h,
        allow_private,
        true,
    );
    match *host {
        Some(UrlHost::Ipv4(a, b, c, d)) => {
            laws::internal_networks(a, b, c, d);
            laws::hosts_are_checked(a, b, c, d, Seq::empty(), Seq::empty(), Seq::empty());
        },
        Some(UrlHost::Domain(d)) => {
            reveal_strlit("localhost");
            if d@ == "localhost"@ {
                assert(vstd::utf8::is_ascii_chars(d@));
                assert(text::lower_text(d@) =~= d@);
                laws::local_names(d@);
            }
            laws::hosts_are_checked(0, 0, 0, 0, Seq::empty(), Seq::empty(), d@);
        },
        _ => {},
    }
}

/// A client that is made with a jar alone has no proxy, no extra headers and nothing on its way.
pub proof fn clients_keep_their_jar<J>(jar: J, c: ObscuraHttpClient<J>)
    requires
        call_ensures(ObscuraHttpClient::<J>::with_cookie_jar, (jar,), c),
    ensures
        c@.cookie_jar == jar && c@.proxy_url is None && c@.extra_headers.len() == 0
            && c@.in_flight == 0 && c@.timeout_secs == 30 && !c@.block_trackers,
{
}

/// A request that is sent counts one more, up to where the count wraps, and changes nothing else.
pub proof fn clients_count_requests<J>(c: &mut ObscuraHttpClient<J>)
    requires
        call_ensures(ObscuraHttpClient::<J>::request_sent, (c,), ()),
    ensures
        old(c)@.in_flight < u32::MAX ==> final(c)@.in_flight == old(c)@.in_flight + 1,
        old(c)@.in_flight == u32::MAX ==> final(c)@.in_flight == 0,
        final(c)@.user_agent == old(c)@.user_agent && final(c)@.extra_headers == old(
            c,
        )@.extra_headers && final(c)@.proxy_url == old(c)@.proxy_url && final(c)@.block_trackers
            == old(c)@.block_trackers,
{
}

/// A request that has ended counts one less, down to where the count wraps, and changes nothing
/// else.
pub proof fn clients_count_ends<J>(c: &mut ObscuraHttpClient<J>)
    requires
        call_ensures(ObscuraHttpClient::<J>::request_ended, (c,), ()),
    ensures
        old(c)@.in_flight > 0 ==> final(c)@.in_flight == old(c)@.in_flight - 1,
        old(c)@.in_flight == 0 ==> final(c)@.in_flight == u32::MAX,
        final(c)@.user_agent == old(c)@.user_agent && final(c)@.extra_headers == old(
            c,
        )@.extra_headers && final(c)@.proxy_url == old(c)@.proxy_url && final(c)@.block_trackers
            == old(c)@.block_trackers,
{
}

/// A load with a method and a body starts with a request of that method for the URL, with that
/// body.
pub proof fn loads_start_as_asked<J>(
    c: &ObscuraHttpClient<J>,
    method: &str,
    u: &UrlRecord,
    body: Option<Vec<u8>>,
    allow_private: bool,
    is_tracker: bool,
    a: Result<FetchStart, ObscuraNetError>,
)
    requires
        call_ensures(
            ObscuraHttpClient::<J>::fetch_with_method,
            (c, method, u, body, allow_private, is_tracker),
            a,
        ),
    ensures
        ({
            let v = policy::navigation_verdict(u@, allow_private);
            let quiet = c@.block_trackers && u.hostname is Some && is_tracker;
            &&& v is Err ==> a is Err
            &&& v is Ok && u.scheme@ == "file"@ ==> (a matches Ok(FetchStart::File(x)) && x@ == u@)
            &&& v is Ok && u.scheme@ != "file"@ && quiet ==> (a matches Ok(FetchStart::Answer(x))
                && x.status == 0 && x.body@.len() == 0)
            &&& v is Ok && u.scheme@ != "file"@ && !quiet ==> (a matches Ok(
                FetchStart::Requests(x),
            ) && x.method@ == method@ && x.url@ == u@ && (x.body is Some <==> body is Some) && (body
                is Some ==> x.body->0@ == body->0@) && x.requests == 0 && x.allow_private
                == allow_private)
        }),
{
    let h = url::url_host(u@.href);
    laws::fetches_start::<J>(
        *c,
        a,
        method@,
        u@,
        h,
        client::opt_bytes(body),
        allow_private,
        is_tracker,
    );
}

/// A load of a URL whose host is known starts just where that host may be reached.
pub proof fn loads_start_at_hosts<J>(
    c: &ObscuraHttpClient<J>,
    method: &str,
    u: &UrlRecord,
    host: &Option<UrlHost>,
    body: Option<Vec<u8>>,
    is_tracker: bool,
    a: Result<FetchStart, ObscuraNetError>,
)
    requires
        call_ensures(
            ObscuraHttpClient::<J>::start_at,
            (c, method, u, host, body, false, is_tracker),
            a,
        ),
        u.scheme@ == "http"@ || u.scheme@ == "https"@,
        !c@.block_trackers,
    ensures
        (*host matches Some(UrlHost::Ipv4(x, y, z, w)) ==> x == 127 || x == 10 ==> a is Err),
        *host is None ==> (a matches Ok(FetchStart::Requests(x)) && x.method@ == method@ && x.url@
            == u@ && (x.body is Some <==> body is Some) && (body is Some ==> x.body->0@
            == body->0@) && !x.allow_private),
{
    let h = url::host_view(*host);
    reveal_strlit("http");
    reveal_strlit("https");
    reveal_strlit("file");
    assert("http"@[0] == 'h');
    assert("https"@[0] == 'h');
    assert("file"@[0] == 'f');
    laws::schemes_are_checked(u.scheme@, h, false, true);
    laws::schemes_are_checked(u.scheme@, h, false, false);
    laws::navigations_are_judged_by_address(arbitrary(), u.scheme@, h, false, true);
    if let Some(UrlHost::Ipv4(x, y, z, w)) = *host {
        laws::internal_networks(x, y, z, w);
        laws::hosts_are_checked(x, y, z, w, Seq::empty(), Seq::empty(), Seq::empty());
    }
    laws::fetches_start::<J>(*c, a, method@, u@, h, client::opt_bytes(body), false, is_tracker);
}

/// A URL is checked by its scheme and by the host that it names.
pub proof fn urls_are_checked(u: &UrlRecord, allow_private: bool, r: Result<(), ObscuraNetError>)
    requires
        call_ensures(policy::validate_url, (u, allow_private), r),
    ensures
        u.scheme@ == "file"@ ==> r is Ok,
        (u.scheme@ == "http"@ || u.scheme@ == "https"@) && allow_private ==> r is Ok,
        (u.scheme@ == "http"@ || u.scheme@ == "https"@) && url::url_host(u.href@) is None ==> r
            is Ok,
        u.scheme@ != "http"@ && u.scheme@ != "https"@ && u.scheme@ != "file"@ ==> r is Err
            && r->Err_0@ == NetErrorView::Network(
            "Forbidden URL scheme '"@ + u.scheme@ + "' - only http, https, and file are allowed"@,
        ),
        (url::url_host(u.href@) matches Some(url::HostView::Ipv4(a, b, c, d)) ==> (u.scheme@
            == "http"@ || u.scheme@ == "https"@) && !allow_private && (a == 127 || a == 10) ==> r
            is Err),
{
    let h = url::url_host(u.href@);
    laws::schemes_are_checked(u.scheme@, h, allow_private, true);
    laws::schemes_are_checked(u.scheme@, h, allow_private, false);
    laws::navigations_are_judged_by_address(u@, u.scheme@, h, allow_private, true);
    if let Some(url::HostView::Ipv4(a, b, c, d)) = h {
        laws::internal_networks(a, b, c, d);
        laws::hosts_are_checked(a, b, c, d, Seq::empty(), Seq::empty(), Seq::empty());
    }
}

/// A host is checked by what it is and by what is said of its address.
pub proof fn hosts_are_judged(
    scheme: &str,
    host: &Option<UrlHost>,
    allow_private: bool,
    refused: bool,
    r: Result<(), String>,
)
    requires
        call_ensures(policy::check_host, (scheme, host, allow_private, refused), r),
    ensures
        scheme@ == "file"@ ==> r is Ok,
        (scheme@ == "http"@ || scheme@ == "https"@) && (allow_private || *host is None) ==> r is Ok,
        scheme@ != "http"@ && scheme@ != "https"@ && scheme@ != "file"@ ==> r is Err && r->Err_0@
            == "Forbidden URL scheme '"@ + scheme@ + "' - only http, https, and file are allowed"@,
        (*host matches Some(UrlHost::Ipv4(a, b, c, d)) ==> (scheme@ == "http"@ || scheme@
            == "https"@) && !allow_private ==> (r is Err <==> refused)),
{
    let h = url::host_view(*host);
    laws::schemes_are_checked(scheme@, h, allow_private, refused);
    if let Some(UrlHost::Ipv4(a, b, c, d)) = *host {
        laws::hosts_are_checked(a, b, c, d, Seq::empty(), Seq::empty(), Seq::empty());
    }
}

/// A copy of a URL is that URL, and its host is the one that it names.
pub proof fn urls_are_copied(u: &UrlRecord, a: UrlRecord, h: Option<UrlHost>)
    requires
        call_ensures(UrlRecord::duplicate, (u,), a),
        call_ensures(UrlRecord::host, (u,), h),
    ensures
        a.href@ == u.href@ && a.scheme@ == u.scheme@ && a.path@ == u.path@,
        h is None <==> url::url_host(u.href@) is None,
        (h matches Some(UrlHost::Domain(d)) ==> url::url_host(u.href@) == Some(
            url::HostView::Domain(d@),
        )),
        (h matches Some(UrlHost::Ipv4(a, b, c, d)) ==> url::url_host(u.href@) == Some(
            url::HostView::Ipv4(a, b, c, d),
        )),
{
    assert(a@.href == a.href@);
}

} // verus!
