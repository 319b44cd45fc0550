//! What holds of every page load: what is sent, where redirects lead, and what the policy allows.

use vstd::prelude::*;
use vstd::string::*;

use crate::assoc;
use crate::net::client::{
    self, ClientView, FetchStart, FetchView, LocationView, ObscuraHttpClient, ResponseView,
};
use crate::net::error::{NetErrorView, ObscuraNetError};
use crate::net::headers;
use crate::net::policy;
use crate::net::url::{self, HostView, UrlView};
use crate::text;

verus! {

/// A redirect with status 301, 302 or 303 leaves a `GET` without a body; one with any other
/// status leaves method and body as they were. The fetch goes on at the target, and where it was
/// is the last of where it has been.
pub proof fn redirects_choose_the_method(
    f: FetchView,
    status: u16,
    next: UrlView,
    host: Option<HostView>,
)
    requires
        policy::navigation_verdict_for(next.scheme, host, f.allow_private) is Ok,
    ensures
        ({
            &&& f.landed(status, Ok(next), host) matches Ok(g)
            &&& status == 301 || status == 302 || status == 303 ==> g.method == "GET"@
                && g.body is None
            &&& status != 301 && status != 302 && status != 303 ==> g.method == f.method && g.body
                == f.body
            &&& g.url == next
            &&& g.redirects.len() == f.redirects.len() + 1
            &&& g.redirects.last() == f.url
            &&& forall|i: int|
                0 <= i < f.redirects.len() ==> #[trigger] g.redirects[i] == f.redirects[i]
            &&& g.requests == f.requests && g.allow_private == f.allow_private
        }),
{
}

/// A redirect to what is no URL, or to where the policy forbids, is an error that says why.
pub proof fn redirects_elsewhere_fail(
    f: FetchView,
    status: u16,
    next: UrlView,
    host: Option<HostView>,
    e: Seq<char>,
)
    ensures
        f.landed(status, Err(e), host) == Err::<FetchView, NetErrorView>(
            NetErrorView::Network("Invalid redirect URL: "@ + e),
        ),
        policy::navigation_verdict_for(next.scheme, host, f.allow_private) matches Err(why)
            ==> f.landed(status, Ok(next), host) == Err::<FetchView, NetErrorView>(
            NetErrorView::Network(why),
        ),
{
}

/// A response leads elsewhere only where its status is from 300 to 399 and it has a location;
/// then to what the location is as seen from the URL that was asked. A location that cannot be
/// read is an error.
pub proof fn responses_lead_elsewhere(f: FetchView, status: u16, place: Seq<char>)
    ensures
        f.answered(status, LocationView::Absent) == Ok::<Option<FetchView>, NetErrorView>(None),
        status < 300 || status > 399 ==> {
            &&& f.answered(status, LocationView::Text(place)) == Ok::<
                Option<FetchView>,
                NetErrorView,
            >(None)
            &&& f.answered(status, LocationView::Unreadable) == Ok::<
                Option<FetchView>,
                NetErrorView,
            >(None)
        },
        300 <= status <= 399 ==> {
            &&& f.answered(status, LocationView::Unreadable) == Err::<
                Option<FetchView>,
                NetErrorView,
            >(NetErrorView::Network("Invalid redirect Location header"@))
            &&& match url::url_resolved(f.url.href, place) {
                Err(e) => f.answered(status, LocationView::Text(place)) == Err::<
                    Option<FetchView>,
                    NetErrorView,
                >(NetErrorView::Network("Invalid redirect URL: "@ + e)),
                Ok(next) => match f.landed(status, Ok(next), url::url_host(next.href)) {
                    Ok(g) => f.answered(status, LocationView::Text(place)) == Ok::<
                        Option<FetchView>,
                        NetErrorView,
                    >(Some(g)),
                    Err(e) => f.answered(status, LocationView::Text(place)) == Err::<
                        Option<FetchView>,
                        NetErrorView,
                    >(e),
                },
            }
        },
{
}

/// Whatever the servers answer, one fetch sends at most twenty requests, the first of them for
/// the URL that it was started with.
pub proof fn fetches_are_short(f: FetchView, answers: Seq<(u16, LocationView)>)
    ensures
        f.requests <= 20 ==> client::asked_for(f, answers).len() + f.requests <= 20,
        f.requests < 20 ==> client::asked_for(f, answers).len() > 0 && client::asked_for(
            f,
            answers,
        )[0] == f.url,
    decreases answers.len(),
{
    if f.requests < 20 && answers.len() > 0 {
        let g = FetchView { requests: (f.requests + 1) as usize, ..f };
        if let Ok(Some(next)) = g.answered(answers[0].0, answers[0].1) {
            fetches_are_short(next, answers.skip(1));
        }
    }
}

/// A fetch starts where the policy allows: a file is read, a tracker is answered with nothing
/// where trackers are blocked, and anything else is asked for as it was given.
pub proof fn fetches_start<J>(
    c: ObscuraHttpClient<J>,
    r: Result<FetchStart, ObscuraNetError>,
    method: Seq<char>,
    u: UrlView,
    host: Option<HostView>,
    body: Option<Seq<u8>>,
    allow_private: bool,
    is_tracker: bool,
)
    requires
        c.starts_at(r, method, u, host, body, allow_private, is_tracker),
    ensures
        policy::navigation_verdict_for(u.scheme, host, allow_private) matches Err(e) ==> (
        r matches Err(n) && n@ == NetErrorView::Network(e)),
        policy::navigation_verdict_for(u.scheme, host, allow_private) is Ok ==> {
            &&& u.scheme == "file"@ ==> (r matches Ok(FetchStart::File(v)) && v@ == u)
            &&& u.scheme != "file"@ && c@.block_trackers && u.hostname is Some && is_tracker
                ==> (r matches Ok(FetchStart::Answer(a)) && a@.status == 0 && a@.url == u
                && a@.body.len() == 0 && a@.headers.len() == 0 && a@.redirected_from.len() == 0)
            &&& u.scheme != "file"@ && !(c@.block_trackers && u.hostname is Some && is_tracker)
                ==> (r matches Ok(FetchStart::Requests(q)) && q@.method == method && q@.url == u
                && q@.body == body && q@.redirects.len() == 0 && q@.requests == 0
                && q@.allow_private == allow_private)
        },
{
}

/// How a fetch of a URL starts is how it starts with the host of that URL.
pub proof fn fetches_start_at_their_host<J>(
    c: ObscuraHttpClient<J>,
    r: Result<FetchStart, ObscuraNetError>,
    method: Seq<char>,
    u: UrlView,
    body: Option<Seq<u8>>,
    allow_private: bool,
    is_tracker: bool,
)
    ensures
        c.starts(r, method, u, body, allow_private, is_tracker) == c.starts_at(
            r,
            method,
            u,
            url::url_host(u.href),
            body,
            allow_private,
            is_tracker,
        ),
{
}

/// A new client has thirty seconds for a request, names a browser, adds no headers, blocks no
/// trackers and has nothing on its way.
pub proof fn new_clients_are_plain<J>(jar: J, proxy: Option<Seq<char>>)
    ensures
        ({
            let c = ClientView::fresh(jar, proxy);
            &&& c.proxy_url == proxy && c.cookie_jar == jar && c.timeout_secs == 30
            &&& c.extra_headers.len() == 0 && !c.block_trackers && c.in_flight == 0
            &&& c.user_agent
                == "Mozilla/5.0 (X11; Linux x86_64) AppleWebKit/537.36 (KHTML, like Gecko) Chrome/145.0.0.0 Safari/537.36"@
        }),
{
}

/// A count of requests goes up by one for each that is sent and down by one for each that ends.
pub proof fn counts_go_by_one(n: u32)
    ensures
        n < u32::MAX ==> client::one_more(n) == n + 1,
        n > 0 ==> client::one_less(n) == n - 1,
        client::one_more(u32::MAX) == 0,
        client::one_less(0) == u32::MAX,
{
}

proof fn with_sets_one<V>(m: Seq<(Seq<char>, V)>, key: Seq<char>, value: V)
    requires
        assoc::distinct(m),
    ensures
        assoc::distinct(assoc::with(m, key, value)),
        forall|other: Seq<char>|
            #[trigger] assoc::lookup(assoc::with(m, key, value), other) == if other == key {
                Some(value)
            } else {
                assoc::lookup(m, other)
            },
{
    assoc::with_sets(m, key, value, key);
    assert forall|other: Seq<char>|
        #[trigger] assoc::lookup(assoc::with(m, key, value), other) == if other == key {
            Some(value)
        } else {
            assoc::lookup(m, other)
        } by {
        assoc::with_sets(m, key, value, other);
    }
}

/// How some names are spelled: enough to tell them apart.
spec fn header_names_differ_spelled() -> bool {
    &&& "user-agent"@.len() == 10
    &&& "accept"@.len() == 6
    &&& "accept-language"@.len() == 15
    &&& "sec-ch-ua"@.len() == 9
    &&& "sec-ch-ua-mobile"@.len() == 16
    &&& "sec-ch-ua-platform"@.len() == 18
    &&& "sec-fetch-dest"@.len() == 14
    &&& "sec-fetch-mode"@.len() == 14
    &&& "sec-fetch-site"@.len() == 14
    &&& "sec-fetch-user"@.len() == 14
    &&& "upgrade-insecure-requests"@.len() == 25
    &&& "cookie"@.len() == 6
    &&& "accept"@[0] == 'a'
    &&& "cookie"@[0] == 'c'
    &&& "sec-fetch-dest"@[10] == 'd'
    &&& "sec-fetch-mode"@[10] == 'm'
    &&& "sec-fetch-site"@[10] == 's'
    &&& "sec-fetch-user"@[10] == 'u'
}

#[verifier::spinoff_prover]
proof fn header_names_differ()
    ensures
        header_names_differ_spelled(),
{
    reveal_strlit("user-agent");
    reveal_strlit("accept");
    reveal_strlit("accept-language");
    reveal_strlit("sec-ch-ua");
    reveal_strlit("sec-ch-ua-mobile");
    reveal_strlit("sec-ch-ua-platform");
    reveal_strlit("sec-fetch-dest");
    reveal_strlit("sec-fetch-mode");
    reveal_strlit("sec-fetch-site");
    reveal_strlit("sec-fetch-user");
    reveal_strlit("upgrade-insecure-requests");
    reveal_strlit("cookie");
}

#[verifier::spinoff_prover]
#[verifier::rlimit(40)]
proof fn browser_headers_hold(ua: Seq<char>)
    ensures
        ({
            let h = client::browser_headers(ua);
            &&& assoc::distinct(h)
            &&& headers::header_value(ua) ==> assoc::lookup(h, "user-agent"@) == Some(ua)
            &&& !headers::header_value(ua) ==> assoc::lookup(h, "user-agent"@) == Some(
                "Mozilla/5.0 (X11; Linux x86_64) AppleWebKit/537.36 (KHTML, like Gecko) Chrome/145.0.0.0 Safari/537.36"@,
            )
            &&& assoc::lookup(h, "accept"@) == Some(
                "text/html,application/xhtml+xml,application/xml;q=0.9,image/avif,image/webp,image/apng,*/*;q=0.8,application/signed-exchange;v=b3;q=0.7"@,
            )
            &&& assoc::lookup(h, "accept-language"@) == Some("en-US,en;q=0.9"@)
            &&& assoc::lookup(h, "sec-ch-ua"@) == Some(
                "\"Chromium\";v=\"145\", \"Not;A=Brand\";v=\"24\", \"Google Chrome\";v=\"145\""@,
            )
            &&& assoc::lookup(h, "sec-ch-ua-mobile"@) == Some("?0"@)
            &&& assoc::lookup(h, "sec-ch-ua-platform"@) == Some("\"Linux\""@)
            &&& assoc::lookup(h, "sec-fetch-dest"@) == Some("document"@)
            &&& assoc::lookup(h, "sec-fetch-mode"@) == Some("navigate"@)
            &&& assoc::lookup(h, "sec-fetch-site"@) == Some("none"@)
            &&& assoc::lookup(h, "sec-fetch-user"@) == Some("?1"@)
            &&& assoc::lookup(h, "upgrade-insecure-requests"@) == Some("1"@)
            &&& assoc::lookup(h, "cookie"@) is None
        }),
{
    header_names_differ();
    let agent = if headers::header_value(ua) {
        ua
    } else {
        client::DEFAULT_USER_AGENT@
    };
    let h0: Seq<(Seq<char>, Seq<char>)> = Seq::empty();
    assert(assoc::place(h0, "cookie"@) is None);
    with_sets_one(h0, "user-agent"@, agent);
    let h1 = assoc::with(h0, "user-agent"@, agent);
    let accept =
        "text/html,application/xhtml+xml,application/xml;q=0.9,image/avif,image/webp,image/apng,*/*;q=0.8,application/signed-exchange;v=b3;q=0.7"@;
    with_sets_one(h1, "accept"@, accept);
    let h2 = assoc::with(h1, "accept"@, accept);
    with_sets_one(h2, "accept-language"@, "en-US,en;q=0.9"@);
    let h3 = assoc::with(h2, "accept-language"@, "en-US,en;q=0.9"@);
    let brands =
        "\"Chromium\";v=\"145\", \"Not;A=Brand\";v=\"24\", \"Google Chrome\";v=\"145\""@;
    with_sets_one(h3, "sec-ch-ua"@, brands);
    let h4 = assoc::with(h3, "sec-ch-ua"@, brands);
    with_sets_one(h4, "sec-ch-ua-mobile"@, "?0"@);
    let h5 = assoc::with(h4, "sec-ch-ua-mobile"@, "?0"@);
    with_sets_one(h5, "sec-ch-ua-platform"@, "\"Linux\""@);
    let h6 = assoc::with(h5, "sec-ch-ua-platform"@, "\"Linux\""@);
    with_sets_one(h6, "sec-fetch-dest"@, "document"@);
    let h7 = assoc::with(h6, "sec-fetch-dest"@, "document"@);
    with_sets_one(h7, "sec-fetch-mode"@, "navigate"@);
    let h8 = assoc::with(h7, "sec-fetch-mode"@, "navigate"@);
    with_sets_one(h8, "sec-fetch-site"@, "none"@);
    let h9 = assoc::with(h8, "sec-fetch-site"@, "none"@);
    with_sets_one(h9, "sec-fetch-user"@, "?1"@);
    let h10 = assoc::with(h9, "sec-fetch-user"@, "?1"@);
    with_sets_one(h10, "upgrade-insecure-requests"@, "1"@);
}

/// A page load without extra headers sends what a browser sends, each name once: the user agent
/// that is set, or the usual one where that holds what no header may, and the cookies.
pub proof fn page_loads_look_like_a_browser(ua: Seq<char>, cookies: Seq<char>)
    ensures
        ({
            let h = client::request_headers(ua, cookies, Seq::empty());
            &&& assoc::distinct(h)
            &&& headers::header_value(ua) ==> assoc::lookup(h, "user-agent"@) == Some(ua)
            &&& !headers::header_value(ua) ==> assoc::lookup(h, "user-agent"@) == Some(
                "Mozilla/5.0 (X11; Linux x86_64) AppleWebKit/537.36 (KHTML, like Gecko) Chrome/145.0.0.0 Safari/537.36"@,
            )
            &&& assoc::lookup(h, "accept"@) == Some(
                "text/html,application/xhtml+xml,application/xml;q=0.9,image/avif,image/webp,image/apng,*/*;q=0.8,application/signed-exchange;v=b3;q=0.7"@,
            )
            &&& assoc::lookup(h, "accept-language"@) == Some("en-US,en;q=0.9"@)
            &&& assoc::lookup(h, "sec-ch-ua"@) == Some(
                "\"Chromium\";v=\"145\", \"Not;A=Brand\";v=\"24\", \"Google Chrome\";v=\"145\""@,
            )
            &&& assoc::lookup(h, "sec-ch-ua-mobile"@) == Some("?0"@)
            &&& assoc::lookup(h, "sec-ch-ua-platform"@) == Some("\"Linux\""@)
            &&& assoc::lookup(h, "sec-fetch-dest"@) == Some("document"@)
            &&& assoc::lookup(h, "sec-fetch-mode"@) == Some("navigate"@)
            &&& assoc::lookup(h, "sec-fetch-site"@) == Some("none"@)
            &&& assoc::lookup(h, "sec-fetch-user"@) == Some("?1"@)
            &&& assoc::lookup(h, "upgrade-insecure-requests"@) == Some("1"@)
            &&& cookies.len() == 0 ==> assoc::lookup(h, "cookie"@) is None
            &&& cookies.len() > 0 && headers::header_value(cookies) ==> assoc::lookup(
                h,
                "cookie"@,
            ) == Some(cookies)
            &&& cookies.len() > 0 && !headers::header_value(cookies) ==> match assoc::lookup(
                h,
                "cookie"@,
            ) {
                Some(c) => c == text::joined(
                    text::pieces(cookies, "; "@).filter(|p: Seq<char>| headers::header_value(p)),
                    "; "@,
                ),
                None => forall|i: int|
                    0 <= i < text::pieces(cookies, "; "@).len() && headers::header_value(
                        #[trigger] text::pieces(cookies, "; "@)[i],
                    ) ==> text::pieces(cookies, "; "@)[i].len() == 0,
            }
        }),
{
    header_names_differ();
    browser_headers_hold(ua);
    let b = client::browser_headers(ua);
    if let Some(c) = client::cookie_value(cookies) {
        with_sets_one(b, "cookie"@, c);
    }
    let all = text::pieces(cookies, "; "@);
    sendable_is_a_filter(all);
    if cookies.len() > 0 && !headers::header_value(cookies) {
        if client::cookie_value(cookies) is None {
            assert forall|i: int| 0 <= i < all.len() && headers::header_value(
                #[trigger] all[i],
            ) implies all[i].len() == 0 by {
                if all[i].len() > 0 {
                    client::good_cookies_are_sent(cookies, i);
                }
            }
        }
    }
}

proof fn sendable_is_a_filter(v: Seq<Seq<char>>)
    ensures
        client::sendable(v) == v.filter(|p: Seq<char>| headers::header_value(p)),
    decreases v.len(),
{
    reveal(Seq::filter);
    if v.len() > 0 {
        sendable_is_a_filter(v.drop_last());
    }
}

proof fn request_headers_distinct(
    ua: Seq<char>,
    cookies: Seq<char>,
    extras: Seq<(Seq<char>, Seq<char>)>,
)
    ensures
        assoc::distinct(client::request_headers(ua, cookies, extras)),
    decreases extras.len(),
{
    if extras.len() == 0 {
        assert(extras =~= Seq::empty());
        page_loads_look_like_a_browser(ua, cookies);
    } else {
        let rest = client::request_headers(ua, cookies, extras.drop_last());
        request_headers_distinct(ua, cookies, extras.drop_last());
        let (k, v) = extras.last();
        if let Some(name) = headers::header_name(k) {
            with_sets_one(rest, name, v);
        }
    }
}

/// An extra header that may be sent has its value, under its name in lower case, and takes the
/// place of any other of that name; one that may not be sent changes nothing.
pub proof fn extra_headers_are_sent(
    ua: Seq<char>,
    cookies: Seq<char>,
    extras: Seq<(Seq<char>, Seq<char>)>,
    k: Seq<char>,
    v: Seq<char>,
    other: Seq<char>,
)
    ensures
        ({
            let before = client::request_headers(ua, cookies, extras);
            let after = client::request_headers(ua, cookies, extras.push((k, v)));
            let good = headers::token(k) && k.len() <= 65535 && headers::header_value(v);
            &&& good ==> assoc::lookup(after, text::lower_text(k)) == Some(v)
            &&& good && other != text::lower_text(k) ==> assoc::lookup(after, other)
                == assoc::lookup(before, other)
            &&& !good ==> after == before
        }),
{
    let more = extras.push((k, v));
    assert(more.drop_last() =~= extras);
    request_headers_distinct(ua, cookies, extras);
    let rest = client::request_headers(ua, cookies, extras);
    with_sets_one(rest, text::lower_text(k), v);
}

/// What may stand in a header: any characters but control characters, of which only the tab may.
pub proof fn values_hold_no_control_characters(v: Seq<char>, w: Seq<char>, c: char)
    ensures
        headers::header_value(Seq::empty()),
        headers::header_value(v + w) == (headers::header_value(v) && headers::header_value(w)),
        headers::header_value(seq![c]) == (c == '\t' || (c as u32 >= 32 && c as u32 != 127)),
{
    let s = v + w;
    if headers::header_value(s) {
        assert forall|i: int| 0 <= i < v.len() implies (#[trigger] v[i]) == '\t' || v[i] >= ' '
            && v[i] != '\x7f' by {
            assert(s[i] == v[i]);
        }
        assert forall|i: int| 0 <= i < w.len() implies (#[trigger] w[i]) == '\t' || w[i] >= ' '
            && w[i] != '\x7f' by {
            assert(s[v.len() + i] == w[i]);
        }
    }
    if headers::header_value(v) && headers::header_value(w) {
        assert forall|i: int| 0 <= i < s.len() implies (#[trigger] s[i]) == '\t' || s[i] >= ' '
            && s[i] != '\x7f' by {
            if i < v.len() {
                assert(s[i] == v[i]);
            } else {
                assert(s[i] == w[i - v.len()]);
            }
        }
    }
    let one = seq![c];
    assert(one[0] == c);
}

/// A header that a response comes with has the value that it comes with first; the values that it
/// comes with are in order, but for those that cannot be read.
pub proof fn headers_of_responses_are_read(
    h: Seq<(Seq<char>, Option<Seq<char>>)>,
    name: Seq<char>,
    k: Seq<char>,
    v: Option<Seq<char>>,
)
    ensures
        headers::first_value(Seq::empty(), name) is None,
        headers::first_value(seq![(name, v)] + h, name) == Some(v),
        headers::first_text(seq![(name, v)] + h, name) == v,
        k != name ==> headers::first_value(seq![(k, v)] + h, name) == headers::first_value(h, name),
        k != name ==> headers::first_text(seq![(k, v)] + h, name) == headers::first_text(h, name),
        headers::texts_named(Seq::empty(), name).len() == 0,
        headers::texts_named(h.push((name, v)), name) == match v {
            Some(t) => headers::texts_named(h, name).push(t),
            None => headers::texts_named(h, name),
        },
        k != name ==> headers::texts_named(h.push((k, v)), name) == headers::texts_named(h, name),
{
    assert((seq![(name, v)] + h).skip(1) =~= h);
    assert((seq![(k, v)] + h).skip(1) =~= h);
    assert(h.push((name, v)).drop_last() =~= h);
    assert(h.push((k, v)).drop_last() =~= h);
}

proof fn by_name_distinct(h: Seq<(Seq<char>, Option<Seq<char>>)>)
    ensures
        assoc::distinct(headers::by_name(h)),
    decreases h.len(),
{
    if h.len() > 0 {
        by_name_distinct(h.drop_last());
        with_sets_one(
            headers::by_name(h.drop_last()),
            h.last().0,
            match h.last().1 {
                Some(v) => v,
                None => Seq::empty(),
            },
        );
    }
}

/// Of the headers of a response that have the same name, the last one counts; one that cannot be
/// read counts as empty.
pub proof fn last_header_counts(
    h: Seq<(Seq<char>, Option<Seq<char>>)>,
    k: Seq<char>,
    v: Option<Seq<char>>,
    other: Seq<char>,
)
    ensures
        headers::by_name(Seq::empty()).len() == 0,
        assoc::lookup(headers::by_name(h.push((k, v))), k) == Some(
            match v {
                Some(t) => t,
                None => Seq::empty(),
            },
        ),
        other != k ==> assoc::lookup(headers::by_name(h.push((k, v))), other) == assoc::lookup(
            headers::by_name(h),
            other,
        ),
        headers::lower_names(h).len() == h.len(),
        forall|i: int|
            0 <= i < h.len() ==> #[trigger] headers::lower_names(h)[i] == (
                text::lowered(h[i].0),
                h[i].1,
            ),
{
    assert(h.push((k, v)).drop_last() =~= h);
    by_name_distinct(h);
    with_sets_one(
        headers::by_name(h),
        k,
        match v {
            Some(t) => t,
            None => Seq::empty(),
        },
    );
}

/// The target of a redirect is what the first `location` header says.
pub proof fn locations_are_found(
    h: Seq<(Seq<char>, Option<Seq<char>>)>,
    k: Seq<char>,
    v: Option<Seq<char>>,
)
    ensures
        client::location_in(Seq::empty()) is Absent,
        client::location_in(seq![("location"@, v)] + h) == match v {
            Some(t) => LocationView::Text(t),
            None => LocationView::Unreadable,
        },
        k != "location"@ ==> client::location_in(seq![(k, v)] + h) == client::location_in(h),
{
    headers_of_responses_are_read(h, "location"@, k, v);
}

/// A response is HTML where `text/html` stands anywhere in its content type, and nowhere else.
pub proof fn content_types_tell_html(r: ResponseView, a: Seq<char>, b: Seq<char>)
    ensures
        assoc::lookup(r.headers, "content-type"@) is None ==> !r.is_html() && r.content_type() is None,
        assoc::lookup(r.headers, "content-type"@) == Some(a + "text/html"@ + b) ==> r.is_html(),
        r.is_html() ==> {
            &&& assoc::lookup(r.headers, "content-type"@) matches Some(t)
            &&& r.content_type() == Some(t)
            &&& exists|i: int|
                0 <= i <= t.len() - 9 && #[trigger] t.subrange(i, i + 9) == "text/html"@
        },
{
    let p = "text/html"@;
    reveal_strlit("text/html");
    assert(p.len() == 9);
    let t = a + p + b;
    assert(t.subrange(a.len() as int, (a.len() + 9) as int) =~= p);
    assert(text::occurs_at(t, p, a.len() as int));
    if r.is_html() {
        let ct = r.content_type()->0;
        let i = choose|i: int| text::occurs_at(ct, p, i);
        assert(ct.subrange(i, i + 9) == p);
    }
}

/// How some names are spelled: enough to tell them apart.
spec fn extensions_differ_spelled() -> bool {
    &&& "html"@.len() == 4
    &&& "htm"@.len() == 3
    &&& "css"@.len() == 3
    &&& "js"@.len() == 2
    &&& "mjs"@.len() == 3
    &&& "json"@.len() == 4
    &&& "png"@.len() == 3
    &&& "jpg"@.len() == 3
    &&& "jpeg"@.len() == 4
    &&& "gif"@.len() == 3
    &&& "svg"@.len() == 3
    &&& "webp"@.len() == 4
    &&& "ico"@.len() == 3
    &&& "html"@[0] == 'h'
    &&& "json"@[0] == 'j'
    &&& "jpeg"@[0] == 'j'
    &&& "webp"@[0] == 'w'
    &&& "htm"@[0] == 'h'
    &&& "css"@[0] == 'c'
    &&& "mjs"@[0] == 'm'
    &&& "png"@[0] == 'p'
    &&& "jpg"@[0] == 'j'
    &&& "gif"@[0] == 'g'
    &&& "svg"@[0] == 's'
    &&& "ico"@[0] == 'i'
    &&& "json"@[1] == 's'
    &&& "jpeg"@[1] == 'p'
}

#[verifier::spinoff_prover]
proof fn extensions_differ()
    ensures
        extensions_differ_spelled(),
{
    reveal_strlit("html");
    reveal_strlit("htm");
    reveal_strlit("css");
    reveal_strlit("js");
    reveal_strlit("mjs");
    reveal_strlit("json");
    reveal_strlit("png");
    reveal_strlit("jpg");
    reveal_strlit("jpeg");
    reveal_strlit("gif");
    reveal_strlit("svg");
    reveal_strlit("webp");
    reveal_strlit("ico");
}

/// The content type of a file goes by its extension.
pub proof fn extensions_tell_types(other: Seq<char>)
    ensures
        client::type_of_extension("html"@) == "text/html"@,
        client::type_of_extension("htm"@) == "text/html"@,
        client::type_of_extension("css"@) == "text/css"@,
        client::type_of_extension("js"@) == "application/javascript"@,
        client::type_of_extension("mjs"@) == "application/javascript"@,
        client::type_of_extension("json"@) == "application/json"@,
        client::type_of_extension("png"@) == "image/png"@,
        client::type_of_extension("jpg"@) == "image/jpeg"@,
        client::type_of_extension("jpeg"@) == "image/jpeg"@,
        client::type_of_extension("gif"@) == "image/gif"@,
        client::type_of_extension("svg"@) == "image/svg+xml"@,
        client::type_of_extension("webp"@) == "image/webp"@,
        client::type_of_extension("ico"@) == "image/x-icon"@,
        other.len() < 2 || other.len() > 4 ==> client::type_of_extension(other)
            == "application/octet-stream"@,
        !(other == "html"@ || other == "htm"@ || other == "css"@ || other == "js"@ || other
            == "mjs"@ || other == "json"@ || other == "png"@ || other == "jpg"@ || other
            == "jpeg"@ || other == "gif"@ || other == "svg"@ || other == "webp"@ || other
            == "ico"@) ==> client::type_of_extension(other) == "application/octet-stream"@,
{
    extensions_differ();
}

/// A file that was read is a response of status 200 with the bytes of the file, and with the type
/// that its extension, in any case, tells, where it has one.
pub proof fn files_are_responses(u: UrlView, ext: Seq<char>, body: Seq<u8>)
    ensures
        ({
            let r = client::file_view(u, Some(ext), body);
            let bare = client::file_view(u, None, body);
            &&& r.url == u && r.status == 200 && r.body == body && r.redirected_from.len() == 0
            &&& bare.url == u && bare.status == 200 && bare.body == body
                && bare.redirected_from.len() == 0
            &&& r.headers == seq![
                ("content-type"@, client::type_of_extension(text::lowered(ext))),
            ]
            &&& bare.headers.len() == 0
        }),
{
}

/// The schemes that may be loaded are `http`, `https` and `file`; any other is refused by name.
/// Files may always be read, and anything may be loaded where private addresses are allowed.
pub proof fn schemes_are_checked(
    scheme: Seq<char>,
    host: Option<HostView>,
    allow_private: bool,
    ip_refused: bool,
)
    ensures
        scheme != "http"@ && scheme != "https"@ && scheme != "file"@ ==> policy::verdict_for(
            scheme,
            host,
            allow_private,
            ip_refused,
        ) == Err::<(), Seq<char>>(
            "Forbidden URL scheme '"@ + scheme + "' - only http, https, and file are allowed"@,
        ),
        policy::verdict_for("file"@, host, allow_private, ip_refused) is Ok,
        policy::verdict_for("http"@, host, true, ip_refused) is Ok,
        policy::verdict_for("https"@, host, true, ip_refused) is Ok,
        policy::verdict_for("http"@, None, allow_private, ip_refused) is Ok,
        policy::verdict_for("https"@, host, allow_private, ip_refused) == policy::verdict_for(
            "http"@,
            host,
            allow_private,
            ip_refused,
        ),
{
    reveal_strlit("http");
    reveal_strlit("https");
    reveal_strlit("file");
    assert("http"@[0] == 'h');
    assert("file"@[0] == 'f');
    assert("https"@.len() == 5);
}

/// An address is refused, by its text, just where it is said to be forbidden, and a name just
/// where it is a local one.
pub proof fn hosts_are_checked(a: u8, b: u8, c: u8, d: u8, s: Seq<u16>, t: Seq<char>, name: Seq<char>)
    ensures
        policy::verdict_for("http"@, Some(HostView::Ipv4(a, b, c, d)), false, false) is Ok,
        policy::verdict_for("http"@, Some(HostView::Ipv6(s, t)), false, false) is Ok,
        policy::verdict_for("http"@, Some(HostView::Ipv4(a, b, c, d)), false, true) == Err::<
            (),
            Seq<char>,
        >(
            "Access to private/internal IP address "@ + (text::decimal_text(a as nat) + "."@
                + text::decimal_text(b as nat) + "."@ + text::decimal_text(c as nat) + "."@
                + text::decimal_text(d as nat)) + " is not allowed"@,
        ),
        policy::verdict_for("http"@, Some(HostView::Ipv6(s, t)), false, true) == Err::<
            (),
            Seq<char>,
        >("Access to private/internal IPv6 address "@ + t + " is not allowed"@),
        policy::local_name(name) ==> policy::verdict_for(
            "http"@,
            Some(HostView::Domain(name)),
            false,
            false,
        ) == Err::<(), Seq<char>>(
            "Access to localhost domain '"@ + name + "' is not allowed"@,
        ),
        !policy::local_name(name) ==> policy::verdict_for(
            "http"@,
            Some(HostView::Domain(name)),
            false,
            true,
        ) is Ok,
{
    reveal_strlit("http");
    reveal_strlit("file");
    assert("http"@[0] == 'h');
    assert("file"@[0] == 'f');
}

/// A name is local where it is `localhost`, in any case of its letters, or anything under it, or
/// one of the two addresses of the machine itself written out.
pub proof fn local_names(name: Seq<char>)
    requires
        vstd::utf8::is_ascii_chars(name),
    ensures
        policy::local_name(name) <==> {
            ||| text::lower_text(name) == "localhost"@
            ||| name.len() >= 10 && text::lower_text(name).skip(name.len() - 10)
                == ".localhost"@
            ||| name == "127.0.0.1"@
            ||| name == "::1"@
        },
{
    let low = text::lower_text(name);
    reveal_strlit(".localhost");
    reveal_strlit("127.0.0.1");
    reveal_strlit("::1");
    assert(".localhost"@.len() == 10);
    if name.len() >= 10 {
        assert(low.skip(name.len() - 10) =~= low.subrange(low.len() - 10, low.len() as int));
    }
    assert(text::lower_text("127.0.0.1"@) =~= "127.0.0.1"@);
    assert(text::lower_text("::1"@) =~= "::1"@);
    if low == "127.0.0.1"@ {
        assert forall|i: int| 0 <= i < name.len() implies name[i] == "127.0.0.1"@[i] by {
            assert(low[i] == text::lower_char(name[i]));
            assert(low[i] == "127.0.0.1"@[i]);
        }
        assert(name =~= "127.0.0.1"@);
    }
    if low == "::1"@ {
        assert forall|i: int| 0 <= i < name.len() implies name[i] == "::1"@[i] by {
            assert(low[i] == text::lower_char(name[i]));
            assert(low[i] == "::1"@[i]);
        }
        assert(name =~= "::1"@);
    }
}

/// The addresses of version four that are internal, as numbers of 32 bits: 127.0.0.0/8,
/// 10.0.0.0/8, 172.16.0.0/12, 192.168.0.0/16, 169.254.0.0/16, the broadcast address, and the
/// three networks for documentation.
pub proof fn internal_networks(a: u8, b: u8, c: u8, d: u8)
    ensures
        ({
            let n = a * 0x100_0000 + b * 0x1_0000 + c * 0x100 + d;
            policy::internal_host(Some(HostView::Ipv4(a, b, c, d))) <==> {
                ||| 0x7f00_0000 <= n <= 0x7fff_ffff
                ||| 0x0a00_0000 <= n <= 0x0aff_ffff
                ||| 0xac10_0000 <= n <= 0xac1f_ffff
                ||| 0xc0a8_0000 <= n <= 0xc0a8_ffff
                ||| 0xa9fe_0000 <= n <= 0xa9fe_ffff
                ||| n == 0xffff_ffff
                ||| 0xc000_0200 <= n <= 0xc000_02ff
                ||| 0xc633_6400 <= n <= 0xc633_64ff
                ||| 0xcb00_7100 <= n <= 0xcb00_71ff
            }
        }),
{
}

/// The addresses of version six that are internal: the loopback address, whose eight parts are
/// seven zeros and a one, and those whose first ten bits are the ones of the link-local network.
/// No name is an internal address.
pub proof fn internal_networks_of_version_six(s: Seq<u16>, t: Seq<char>)
    requires
        s.len() == 8,
    ensures
        policy::internal_host(Some(HostView::Ipv6(s, t))) <==> {
            ||| s[0] == 0 && s[1] == 0 && s[2] == 0 && s[3] == 0 && s[4] == 0 && s[5] == 0 && s[6]
                == 0 && s[7] == 1
            ||| s[0] & 0xffc0u16 == 0xfe80u16
        },
        !policy::internal_host(Some(HostView::Domain(t))),
        !policy::internal_host(None),
{
    let x = s[0];
    assert((x & 0xffc0u16 == 0xfe80u16) <==> (0xfe80 <= x && x <= 0xfebf)) by (bit_vector);
    let one = seq![0u16, 0u16, 0u16, 0u16, 0u16, 0u16, 0u16, 1u16];
    if s[0] == 0 && s[1] == 0 && s[2] == 0 && s[3] == 0 && s[4] == 0 && s[5] == 0 && s[6] == 0
        && s[7] == 1 {
        assert(s =~= one);
    }
    if s == one {
        assert(s[0] == 0 && s[1] == 0 && s[2] == 0 && s[3] == 0 && s[4] == 0 && s[5] == 0 && s[6]
            == 0 && s[7] == 1);
    }
}

/// A navigation is judged by its own address, and any URL by the host that it has.
pub proof fn navigations_are_judged_by_address(
    u: UrlView,
    scheme: Seq<char>,
    host: Option<HostView>,
    allow_private: bool,
    ip_refused: bool,
)
    ensures
        policy::internal_host(host) ==> policy::navigation_verdict_for(scheme, host, allow_private)
            == policy::verdict_for(scheme, host, allow_private, true),
        !policy::internal_host(host) ==> policy::navigation_verdict_for(
            scheme,
            host,
            allow_private,
        ) == policy::verdict_for(scheme, host, allow_private, false),
        url::url_host(u.href) == host ==> {
            &&& policy::verdict(u, allow_private, ip_refused) == policy::verdict_for(
                u.scheme,
                host,
                allow_private,
                ip_refused,
            )
            &&& policy::navigation_verdict(u, allow_private) == policy::navigation_verdict_for(
                u.scheme,
                host,
                allow_private,
            )
        },
        policy::as_net_error(Ok(())) is Ok,
        forall|e: Seq<char>|
            #[trigger] policy::as_net_error(Err(e)) == Err::<(), NetErrorView>(
                NetErrorView::Network(e),
            ),
{
}

/// An error is shown with what kind it is and then its reason.
pub proof fn errors_tell_their_kind(s: Seq<char>)
    ensures
        NetErrorView::Network(s).message() == "Network error: "@ + s,
        NetErrorView::TooManyRedirects(s).message() == "Too many redirects: "@ + s,
        NetErrorView::Blocked(s).message() == "Request blocked: "@ + s,
{
}

/// A method or the name of a header is one or more letters, digits or marks: no blank, no control
/// character, no separator such as `:`, `/`, `(`, `"` or `@`, and nothing beyond ASCII.
pub proof fn tokens_are_plain(c: char, s: Seq<char>, t: Seq<char>)
    requires
        s.len() > 0,
        t.len() > 0,
    ensures
        !headers::token(Seq::empty()),
        headers::token(s + t) == (headers::token(s) && headers::token(t)),
        'a' <= c <= 'z' || 'A' <= c <= 'Z' || '0' <= c <= '9' || c == '-' || c == '_' || c == '.'
            || c == '!' || c == '#' || c == '$' || c == '%' || c == '&' || c == '\'' || c == '*' || c
            == '+' || c == '^' || c == '`' || c == '|' || c == '~' ==> headers::token(seq![c]),
        c <= ' ' || c == '"' || c == '(' || c == ')' || c == ',' || c == '/' || c == ':' || c
            == ';' || c == '<' || c == '=' || c == '>' || c == '?' || c == '@' || c == '[' || c
            == '\\' || c == ']' || c == '{' || c == '}' || c as u32 >= 127 ==> !headers::token(
            seq![c],
        ),
{
    let one = seq![c];
    assert(one[0] == c);
    assert(headers::token(one) == headers::token_char(c));
    let st = s + t;
    if headers::token(st) {
        assert forall|i: int| 0 <= i < s.len() implies headers::token_char(#[trigger] s[i]) by {
            assert(st[i] == s[i]);
        }
        assert forall|i: int| 0 <= i < t.len() implies headers::token_char(#[trigger] t[i]) by {
            assert(st[s.len() + i] == t[i]);
        }
    }
    if headers::token(s) && headers::token(t) {
        assert forall|i: int| 0 <= i < st.len() implies headers::token_char(#[trigger] st[i]) by {
            if i < s.len() {
                assert(st[i] == s[i]);
            } else {
                assert(st[i] == t[i - s.len()]);
            }
        }
    }
}

} // verus!
