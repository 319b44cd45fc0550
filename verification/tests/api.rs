//! The browser as a library.

use obscura::api::browser::{Browser, BrowserConfig};
use obscura::api::cookie::{read_header, Cookie, CookieInfo};
use obscura::api::error::Error;
use obscura::api::page::{
    is_there, look_script, Element, WaitStep, CONTENT_SCRIPT, LOOK_AGAIN_MS, TITLE_SCRIPT,
};
use obscura::json::Json;
use obscura::net::url::UrlRecord;

type Session = Browser<String>;

#[test]
fn browsers_are_set_up() {
    let b: Session = Session::builder().proxy("p").stealth(true).user_agent("ua").storage_dir("/d").build().ok().unwrap();
    assert_eq!(b.context_id, "api");
    assert_eq!(b.config.proxy.as_deref(), Some("p"));
    assert_eq!(b.config.user_agent.as_deref(), Some("ua"));
    assert_eq!(b.config.storage_dir.as_deref(), Some("/d"));
    assert!(b.config.stealth);
    let plain = Session::new().ok().unwrap();
    assert!(!plain.config.stealth && plain.config.proxy.is_none());
    assert!(Session::build(BrowserConfig::default()).is_ok());
    assert_eq!(b.new_page(1).ok().unwrap().id, "page-1");
    assert_eq!(b.new_page(12).ok().unwrap().id, "page-12");
}

#[test]
fn pages_answer() {
    let browser = Session::new().ok().unwrap();
    let page = browser.new_page(1).ok().unwrap();
    assert!(page.goto(Ok(())).is_ok());
    let e = page.goto(Err("dns".into())).err().unwrap();
    assert_eq!(e.message(), "navigation error: dns");
    assert_eq!(CONTENT_SCRIPT, "document.documentElement.outerHTML");
    assert_eq!(page.content(&Json::string("<html></html>")), "<html></html>");
    assert_eq!(page.content(&Json::Null), "");
    assert_eq!(TITLE_SCRIPT, "document.title");
    assert_eq!(page.title(&Json::string("t")), "t");
}

#[test]
fn elements_are_waited_for() {
    let browser = Session::new().ok().unwrap();
    let page = browser.new_page(1).ok().unwrap();
    assert!(matches!(page.wait_for_selector("a", true, 0, 5000), WaitStep::Found(e) if e.selector == "a"));
    assert!(matches!(page.wait_for_selector("a", true, 9000, 5000), WaitStep::Found(_)));
    assert!(matches!(page.wait_for_selector("a", false, 0, 5000), WaitStep::LookAgain(LOOK_AGAIN_MS)));
    assert!(matches!(page.wait_for_selector("a", false, 4999, 5000), WaitStep::LookAgain(1)));
    assert!(matches!(page.wait_for_selector("a", false, 5000, 5000),
        WaitStep::Failed(e) if e.message() == "timeout: no element matches a"));
    assert_eq!(
        look_script("a[title=\"x\"]"),
        "(function() { var el = document.querySelector(\"a[title=\\\"x\\\"]\"); return el ? true : null; })()"
    );
    assert!(is_there(&Json::Bool(true)) && !is_there(&Json::Bool(false)) && !is_there(&Json::Null));
    let link = Element { selector: "a".into() };
    assert_eq!(
        link.text_script(),
        "(function() { var el = document.querySelector(\"a\"); return el ? el.textContent : null; })()"
    );
    assert_eq!(
        link.attribute_script("href"),
        "(function() { var el = document.querySelector(\"a\"); return el ? el.getAttribute(\"href\") : null; })()"
    );
    assert_eq!(link.text(&Json::string("More")), "More");
    assert_eq!(link.attribute(&Json::string("/x")).as_deref(), Some("/x"));
    assert_eq!(link.attribute(&Json::Null), None);
}

#[test]
fn sessions_share_their_jar() {
    let mut browser = Session::new().ok().unwrap();
    assert_eq!(browser.cookie_jar, "");
    browser.cookie_jar = "jar".into();
    assert_eq!(browser.cookies().jar, "jar");
    assert_eq!(browser.new_page(1).ok().unwrap().cookie_jar, "jar");
}

#[test]
fn api_errors_are_put_in_words() {
    assert_eq!(Error::Navigation("x".into()).message(), "navigation error: x");
    assert_eq!(Error::JsEval("x".into()).message(), "JS evaluation error: x");
    assert_eq!(Error::Timeout("x".into()).message(), "timeout: x");
    assert_eq!(Error::ElementNotFound("x".into()).message(), "element not found: x");
    assert_eq!(Error::NoPage.message(), "no page session");
    assert_eq!(Error::Internal("x".into()).message(), "x");
}

#[test]
fn cookies_start_plain() {
    let c = Cookie::new("n", "v", "d");
    assert_eq!((c.name.as_str(), c.value.as_str(), c.domain.as_str(), c.path.as_str()), ("n", "v", "d", "/"));
    assert!(!c.secure && !c.http_only);
}

#[test]
fn cookie_stores_are_read() {
    let info = CookieInfo {
        name: "n".into(), value: "v".into(), domain: "d".into(), path: "/p".into(), secure: true, http_only: true,
    };
    let browser = Session::new().ok().unwrap();
    let store = browser.cookies();
    let all = store.get_all(&vec![info]);
    assert_eq!(all.len(), 1);
    assert_eq!((all[0].name.as_str(), all[0].path.as_str()), ("n", "/p"));
    assert!(all[0].secure && all[0].http_only);
    assert_eq!(store.set("http://a.example/").ok().unwrap().href, "http://a.example/");
    assert_eq!(store.set("nope").err().unwrap().message(), "relative URL without a base");
    let found = store.get_for_url("http://a.example/", "a=1; b; c=2=3; ").ok().unwrap();
    let pairs: Vec<(&str, &str)> = found.iter().map(|c| (c.name.as_str(), c.value.as_str())).collect();
    assert_eq!(pairs, vec![("a", "1"), ("b", ""), ("c", "2=3")]);
    assert!(found.iter().all(|c| c.domain == "a.example" && c.path == "/"));
    assert!(store.get_for_url("http://a.example/", "").ok().unwrap().is_empty());
    assert!(store.get_for_url("nope", "a=1").is_err());
    let no_host = UrlRecord::parse("data:x").ok().unwrap();
    assert!(read_header(&no_host, "a=1").is_empty());
    assert!(store.save_to_file(Ok(())).is_ok());
    assert_eq!(store.save_to_file(Err("full".into())).err().unwrap().message(), "full");
    assert_eq!(store.load_from_file(Ok(3)).ok(), Some(3));
    assert_eq!(store.load_from_file(Err("gone".into())).err().unwrap().message(), "gone");
}
