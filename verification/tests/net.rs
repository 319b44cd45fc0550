//! URLs, the policy, and the client that pages are loaded with.

use obscura::assoc::StringMap;
use obscura::net::client::{
    fetch_file_url, file_response, find_cookies, find_location, FetchStart, FileRead, InterceptAction,
    LocationHeader, ObscuraHttpClient, PageFetch, ResourceType, Response, DEFAULT_USER_AGENT, MAX_REQUESTS,
};
use obscura::net::error::ObscuraNetError;
use obscura::net::headers::{find_text, find_texts, index_by_lower_name, index_by_name};
use obscura::net::policy::{check_host, check_navigation, validate_fetch_url, validate_url};
use obscura::net::url::{UrlHost, UrlRecord};

type Client = ObscuraHttpClient<String>;

fn url(t: &str) -> UrlRecord {
    UrlRecord::parse(t).ok().unwrap()
}

fn map(pairs: &[(&str, &str)]) -> StringMap {
    let mut m = StringMap::new();
    for (k, v) in pairs {
        m.insert(k, v);
    }
    m
}

fn head(pairs: &[(&str, Option<&str>)]) -> Vec<(String, Option<String>)> {
    pairs.iter().map(|(k, v)| (k.to_string(), v.map(|v| v.to_string()))).collect()
}

fn start(client: &Client, t: &str) -> PageFetch {
    match client.fetch(&url(t), false, false) {
        Ok(FetchStart::Requests(f)) => f,
        _ => panic!("{} is fetched with requests", t),
    }
}

#[test]
fn urls_are_parsed() {
    let u = url("HTTP://user:pw@EXAMPLE.com:8080/a/../b?q#f");
    assert_eq!(u.href, "http://user:pw@example.com:8080/b?q#f");
    assert_eq!(u.scheme, "http");
    assert_eq!(u.username, "user");
    assert_eq!(u.password, "pw");
    assert_eq!(u.hostname.as_deref(), Some("example.com"));
    assert_eq!(u.port, Some(8080));
    assert_eq!(u.path, "/b");
    assert_eq!(u.query.as_deref(), Some("q"));
    assert_eq!(u.fragment.as_deref(), Some("f"));
    assert_eq!(url("http://example.com:80/").port, None);
    assert_eq!(UrlRecord::parse("no url").err().unwrap(), "relative URL without a base");
    assert_eq!(u.duplicate().href, u.href);
}

#[test]
fn references_are_resolved() {
    assert_eq!(UrlRecord::resolve("http://a/b/c", "../d").ok().unwrap().href, "http://a/d");
    assert_eq!(UrlRecord::resolve("http://a/b/c", "//e/f").ok().unwrap().href, "http://e/f");
    assert!(UrlRecord::resolve("b/c", "http://a/").is_err());
    assert!(UrlRecord::resolve("http://a/", "http://[").is_err());
}

#[test]
fn hosts_are_told_apart() {
    assert!(matches!(url("http://10.1.2.3/").host(), Some(UrlHost::Ipv4(10, 1, 2, 3))));
    match url("http://[fe80::1]/").host() {
        Some(UrlHost::Ipv6(s, t)) => {
            assert_eq!(s, vec![0xfe80, 0, 0, 0, 0, 0, 0, 1]);
            assert_eq!(t, "fe80::1");
        }
        _ => panic!("an IPv6 address"),
    }
    assert!(matches!(url("http://a.b/").host(), Some(UrlHost::Domain(d)) if d == "a.b"));
    assert!(url("data:x").host().is_none());
}

fn refusal(t: &str) -> String {
    match validate_url(&url(t), false) {
        Err(ObscuraNetError::Network(e)) => e,
        _ => panic!("{} is refused", t),
    }
}

#[test]
fn navigations_stay_outside() {
    assert_eq!(
        refusal("ftp://example.com/"),
        "Forbidden URL scheme 'ftp' - only http, https, and file are allowed"
    );
    for ip in [
        "127.0.0.1", "10.0.0.1", "172.16.0.1", "172.31.255.255", "192.168.1.1", "169.254.1.1",
        "255.255.255.255", "192.0.2.1", "198.51.100.1", "203.0.113.1",
    ] {
        assert_eq!(
            refusal(&format!("http://{}/", ip)),
            format!("Access to private/internal IP address {} is not allowed", ip)
        );
    }
    assert_eq!(
        refusal("http://[::1]/"),
        "Access to private/internal IPv6 address ::1 is not allowed"
    );
    assert_eq!(
        refusal("http://[febf::1]/"),
        "Access to private/internal IPv6 address febf::1 is not allowed"
    );
    assert_eq!(refusal("http://LOCALHOST/"), "Access to localhost domain 'localhost' is not allowed");
    assert_eq!(
        refusal("http://a.localhost/"),
        "Access to localhost domain 'a.localhost' is not allowed"
    );
    for t in [
        "http://example.com/", "https://8.8.8.8/", "http://172.32.0.1/", "http://[2001:db8::1]/",
        "http://notlocalhost/", "file:///etc/hosts",
    ] {
        assert!(validate_url(&url(t), false).is_ok(), "{} is allowed", t);
    }
    assert!(validate_url(&url("http://127.0.0.1/"), true).is_ok());
    assert!(validate_url(&url("ftp://127.0.0.1/"), true).is_err());
}

#[test]
fn scripts_stay_outside() {
    assert_eq!(
        validate_fetch_url(&url("http://100.64.0.1/"), false, true),
        Err("Access to private/internal IP address 100.64.0.1 is not allowed".to_string())
    );
    assert_eq!(validate_fetch_url(&url("http://127.0.0.1/"), false, false), Ok(()));
    assert_eq!(
        validate_fetch_url(&url("http://localhost/"), false, false),
        Err("Access to localhost domain 'localhost' is not allowed".to_string())
    );
    assert_eq!(validate_fetch_url(&url("http://localhost/"), true, true), Ok(()));
    assert_eq!(validate_fetch_url(&url("http://example.com/"), false, true), Ok(()));
}

#[test]
fn hosts_are_checked() {
    let name = |n: &str| Some(UrlHost::Domain(n.to_string()));
    assert!(check_host("http", &name("Sub.LocalHost"), false, false).is_err());
    assert!(check_host("http", &name("127.0.0.1"), false, false).is_err());
    assert!(check_host("http", &name("::1"), false, false).is_err());
    assert!(check_host("http", &None, false, true).is_ok());
    assert!(check_host("gopher", &None, true, false).is_err());
    assert!(check_navigation("http", &Some(UrlHost::Ipv4(192, 168, 0, 1)), false).is_err());
    assert!(check_navigation("http", &Some(UrlHost::Ipv4(192, 169, 0, 1)), false).is_ok());
    assert!(check_navigation("file", &name("localhost"), false).is_ok());
}

#[test]
fn fetches_land_where_they_may() {
    let c = Client::new();
    let there = url("http://example.com/");
    let inside = Some(UrlHost::Ipv4(10, 0, 0, 1));
    assert!(c.start_at("GET", &there, &inside, None, false, false).is_err());
    let mut f = match c.start_at("GET", &there, &None, None, false, false) {
        Ok(FetchStart::Requests(f)) => f,
        _ => panic!("it starts"),
    };
    assert!(f.land(302, Err("bad".into()), &None).is_err());
    assert!(f.land(302, Ok(url("http://a.example/")), &inside).is_err());
    assert!(f.redirects.is_empty());
    assert!(f.land(302, Ok(url("http://a.example/")), &None).is_ok());
    assert_eq!(f.redirects.len(), 1);
}

#[test]
fn errors_are_put_in_words() {
    assert_eq!(ObscuraNetError::Network("x".into()).message(), "Network error: x");
    assert_eq!(ObscuraNetError::TooManyRedirects("x".into()).message(), "Too many redirects: x");
    assert_eq!(ObscuraNetError::Blocked("x".into()).message(), "Request blocked: x");
}

#[test]
fn responses_have_headers() {
    let r = Response {
        url: url("http://example.com/"),
        status: 200,
        headers: map(&[("content-type", "text/html; charset=utf-8")]),
        body: Vec::new(),
        redirected_from: Vec::new(),
    };
    assert_eq!(r.header("CONTENT-TYPE"), Some("text/html; charset=utf-8"));
    assert_eq!(r.header("accept"), None);
    assert!(r.is_html());
    assert!(r.text().html);
    assert_eq!(r.text().content_type.as_deref(), Some("text/html; charset=utf-8"));
}

#[test]
fn files_have_content_types() {
    let u = url("file:///a");
    for (ext, ct) in [
        ("HTML", "text/html"), ("htm", "text/html"), ("css", "text/css"),
        ("js", "application/javascript"), ("mjs", "application/javascript"),
        ("json", "application/json"), ("png", "image/png"), ("jpg", "image/jpeg"),
        ("jpeg", "image/jpeg"), ("gif", "image/gif"), ("svg", "image/svg+xml"),
        ("webp", "image/webp"), ("ico", "image/x-icon"), ("x", "application/octet-stream"),
    ] {
        let r = file_response(&u, Some(ext.to_string()), vec![1, 2]);
        assert_eq!(r.content_type(), Some(ct));
        assert_eq!((r.status, r.body), (200, vec![1, 2]));
    }
    assert_eq!(file_response(&u, None, Vec::new()).content_type(), None);
    for (t, ct) in [
        ("file:///a.b/c.HTML?x.css", Some("text/html")), ("file:///a/b.tar.%70ng", Some("image/png")),
        ("file:///a.b/c", None), ("file:///a/.css", None), ("file:///a/b.%FF", None),
        ("file:///a/b.", Some("application/octet-stream")),
    ] {
        let r = fetch_file_url(&url(t), FileRead::Done(vec![3])).ok().unwrap();
        assert_eq!((r.content_type(), r.body.as_slice()), (ct, &[3u8][..]));
    }
    assert!(matches!(fetch_file_url(&u, FileRead::NoPath),
        Err(ObscuraNetError::Network(e)) if e == "Invalid file URL"));
    assert!(matches!(fetch_file_url(&u, FileRead::Failed("gone".into())),
        Err(ObscuraNetError::Network(e)) if e == "Failed to read file: gone"));
}

#[test]
fn clients_start_plain() {
    for c in [Client::new(), Client::with_cookie_jar(String::new()), Client::default()] {
        assert_eq!(c.cookie_jar, "");
        assert_eq!(c.proxy_url(), None);
        assert_eq!(c.user_agent, DEFAULT_USER_AGENT);
        assert_eq!(c.timeout_secs, 30);
        assert!(!c.block_trackers);
        assert!(c.is_network_idle());
    }
    assert_eq!(Client::with_cookie_jar("jar".into()).cookie_jar, "jar");
    let mut c = Client::with_options("jar".into(), Some("http://proxy:1"));
    assert_eq!(c.proxy_url(), Some("http://proxy:1"));
    c.set_user_agent("ua");
    assert_eq!(c.cookie_jar, "jar");
    c.request_sent();
    assert_eq!(c.active_requests(), 1);
    assert!(!c.is_network_idle());
    c.request_ended();
    assert!(c.is_network_idle());
    c.request_ended();
    assert_eq!(c.active_requests(), u32::MAX);
    c.request_sent();
    assert!(c.is_network_idle());
}

#[test]
fn fetches_start_as_they_should() {
    let mut c = Client::new();
    assert!(matches!(c.fetch(&url("http://127.0.0.1/"), false, false), Err(ObscuraNetError::Network(_))));
    assert!(matches!(c.fetch(&url("file:///a"), false, false), Ok(FetchStart::File(_))));
    assert!(matches!(c.fetch(&url("http://t.example/"), false, true), Ok(FetchStart::Requests(_))));
    c.block_trackers = true;
    match c.fetch(&url("http://t.example/"), false, true) {
        Ok(FetchStart::Answer(r)) => assert_eq!((r.status, r.body.len()), (0, 0)),
        _ => panic!("a tracker is answered with nothing"),
    }
    match c.post_form(&url("http://example.com/"), "a=\u{e9}", false, false) {
        Ok(FetchStart::Requests(f)) => {
            assert_eq!(f.method, "POST");
            assert_eq!(f.body, Some(vec![97, 61, 0xc3, 0xa9]));
        }
        _ => panic!("a form is posted with requests"),
    }
}

#[test]
fn requests_carry_headers() {
    let mut c = Client::new();
    c.set_user_agent("agent");
    c.set_extra_headers(map(&[
        ("X-One", "1"), ("bad name", "2"), ("x-bad", "a\nb"), ("Accept", "text/plain"),
    ]));
    let f = start(&c, "http://example.com/");
    let out = f.outgoing(&mut c, "a=1; b=2");
    let get = |n: &str| out.headers.iter().find(|(k, _)| k == n).map(|(_, v)| v.as_str());
    assert_eq!(get("user-agent"), Some("agent"));
    assert_eq!(get("accept"), Some("text/plain"));
    assert_eq!(get("accept-language"), Some("en-US,en;q=0.9"));
    assert_eq!(get("upgrade-insecure-requests"), Some("1"));
    assert_eq!(get("cookie"), Some("a=1; b=2"));
    assert_eq!(get("x-one"), Some("1"));
    assert_eq!(get("bad name"), None);
    assert_eq!(get("x-bad"), None);
    assert_eq!(get("content-type"), None);
    assert_eq!(out.headers.len(), 13);
    for (_, v) in &out.headers {
        assert!(v.chars().all(|c| c == '\t' || (c >= ' ' && c != '\x7f')));
    }
}

#[test]
fn bad_headers_are_left_out() {
    let mut c = Client::new();
    c.set_user_agent("a\nb");
    let f = start(&c, "http://example.com/");
    let mut cookie = |t: &str| {
        let out = f.outgoing(&mut c, t);
        out.headers.iter().find(|(k, _)| k == "cookie").map(|(_, v)| v.clone())
    };
    assert_eq!(cookie(""), None);
    assert_eq!(cookie("a=1; b=\x01; c=3"), Some("a=1; c=3".to_string()));
    assert_eq!(cookie("b=\x01"), None);
    let out = f.outgoing(&mut c, "");
    let ua = out.headers.iter().find(|(k, _)| k == "user-agent");
    assert_eq!(ua.map(|(_, v)| v.as_str()), Some(DEFAULT_USER_AGENT));
}

#[test]
fn posts_name_the_form() {
    let mut c = Client::new();
    let f = match c.post_form(&url("http://example.com/"), "a=1", false, false) {
        Ok(FetchStart::Requests(f)) => f,
        _ => panic!("a form is posted with requests"),
    };
    let out = f.outgoing(&mut c, "");
    let ct = out.headers.iter().find(|(k, _)| k == "content-type").map(|(_, v)| v.as_str());
    assert_eq!(ct, Some("application/x-www-form-urlencoded"));
    assert_eq!(out.body, Some(b"a=1".to_vec()));
}

#[test]
fn interceptors_are_heard() {
    let mut c = Client::new();
    c.set_extra_headers(map(&[("a", "1")]));
    let mut f = start(&c, "http://example.com/");
    let info = f.begin_request(&c).ok().unwrap();
    assert_eq!(info.method, "GET");
    assert_eq!(info.url.href, "http://example.com/");
    assert!(info.resource_type == ResourceType::Document);
    assert_eq!(info.headers.get("a"), Some("1"));
    assert!(f.on_intercept(&mut c, InterceptAction::Continue).is_none());
    assert!(matches!(f.on_intercept(&mut c, InterceptAction::Block),
        Some(Err(ObscuraNetError::Blocked(u))) if u == "http://example.com/"));
    assert!(f.on_intercept(&mut c, InterceptAction::ModifyHeaders(map(&[("a", "2"), ("b", "3")]))).is_none());
    assert_eq!(c.extra_headers.get("a"), Some("2"));
    assert_eq!(c.extra_headers.get("b"), Some("3"));
    let answer = Response {
        url: url("http://example.com/"), status: 204, headers: StringMap::new(),
        body: Vec::new(), redirected_from: Vec::new(),
    };
    assert!(matches!(f.on_intercept(&mut c, InterceptAction::Fulfill(answer)),
        Some(Ok(r)) if r.status == 204));
}

#[test]
fn redirects_are_followed() {
    let mut c = Client::new();
    let mut f = match c.post_form(&url("http://example.com/a"), "x=1", false, false) {
        Ok(FetchStart::Requests(f)) => f,
        _ => panic!("a form is posted with requests"),
    };
    assert!(f.begin_request(&c).is_ok());
    assert!(matches!(f.on_response(&mut c, 307, LocationHeader::Text("/b".into())), Ok(true)));
    assert_eq!((f.method.as_str(), f.body.is_some()), ("POST", true));
    assert_eq!(f.url.href, "http://example.com/b");
    assert!(matches!(f.on_response(&mut c, 303, LocationHeader::Text("/c".into())), Ok(true)));
    assert_eq!((f.method.as_str(), f.body.is_some()), ("GET", false));
    assert!(matches!(f.on_response(&mut c, 200, LocationHeader::Text("/d".into())), Ok(false)));
    assert!(matches!(f.on_response(&mut c, 302, LocationHeader::Absent), Ok(false)));
    assert!(matches!(f.on_response(&mut c, 302, LocationHeader::Unreadable),
        Err(ObscuraNetError::Network(e)) if e == "Invalid redirect Location header"));
    assert!(matches!(f.on_response(&mut c, 302, LocationHeader::Text("http://[".into())),
        Err(ObscuraNetError::Network(e)) if e == "Invalid redirect URL: invalid IPv6 address"));
    assert!(matches!(f.on_response(&mut c, 302, LocationHeader::Text("http://127.0.0.1/".into())),
        Err(ObscuraNetError::Network(e)) if e == "Access to private/internal IP address 127.0.0.1 is not allowed"));
    assert!(matches!(f.send_failed(&mut c, "refused"),
        ObscuraNetError::Network(e) if e == "http://example.com/c: refused"));
    assert!(matches!(f.body_failed("cut"),
        ObscuraNetError::Network(e) if e == "Failed to read body: cut"));
    let r = f.finish(200, &head(&[("A", Some("1")), ("a", None)]), vec![7]);
    assert_eq!(r.url.href, "http://example.com/c");
    assert_eq!(r.headers.entries, vec![("a".to_string(), "".to_string())]);
    let from: Vec<&str> = r.redirected_from.iter().map(|u| u.href.as_str()).collect();
    assert_eq!(from, vec!["http://example.com/a", "http://example.com/b"]);
}

#[test]
fn heads_of_responses_are_read() {
    let h = head(&[
        ("set-cookie", Some("a=1")),
        ("x", None),
        ("set-cookie", None),
        ("location", Some("/first")),
        ("location", Some("/second")),
        ("set-cookie", Some("b=2")),
        ("X", Some("2")),
    ]);
    assert_eq!(find_cookies(&h), vec!["a=1", "b=2"]);
    assert_eq!(find_texts(&h, "x"), Vec::<String>::new());
    assert!(matches!(find_location(&h), LocationHeader::Text(t) if t == "/first"));
    assert!(matches!(find_location(&head(&[("location", None)])), LocationHeader::Unreadable));
    assert!(matches!(find_location(&head(&[])), LocationHeader::Absent));
    assert_eq!(find_text(&h, "location"), Some("/first"));
    assert_eq!(find_text(&h, "x"), None);
    let m = index_by_name(&h);
    assert_eq!((m.get("x"), m.get("X"), m.get("location")), (Some(""), Some("2"), Some("/second")));
    assert_eq!(m.get("set-cookie"), Some("b=2"));
    let m = index_by_lower_name(&h);
    assert_eq!((m.get("x"), m.get("X")), (Some("2"), None));
}

#[test]
fn redirects_come_to_an_end() {
    let mut c = Client::new();
    let mut f = start(&c, "http://example.com/0");
    for i in 1..=MAX_REQUESTS {
        assert!(f.begin_request(&c).is_ok());
        assert!(matches!(f.on_response(&mut c, 301, LocationHeader::Text(format!("/{}", i))), Ok(true)));
    }
    assert!(matches!(f.begin_request(&c),
        Err(ObscuraNetError::TooManyRedirects(u)) if u == "http://example.com/20"));
}

#[test]
fn requests_are_counted_while_they_run() {
    let mut c = Client::new();
    c.request_sent();
    let mut f = start(&c, "http://example.com/0");
    for (status, location) in [(302, "/1"), (302, "http://127.0.0.1/"), (200, "")] {
        assert!(f.begin_request(&c).is_ok());
        f.outgoing(&mut c, "");
        assert_eq!(c.active_requests(), 2);
        let _ = f.on_response(&mut c, status, LocationHeader::Text(location.into()));
        assert_eq!(c.active_requests(), 1);
    }
    f.outgoing(&mut c, "");
    assert_eq!(c.active_requests(), 2);
    f.send_failed(&mut c, "refused");
    assert_eq!(c.active_requests(), 1);
    c.request_ended();
    assert!(c.is_network_idle());
}
