//! What the functions of the browser's own interface give back, whatever they are called with.

use vstd::prelude::*;
use vstd::string::*;

use crate::api::browser::{Browser, BrowserBuilder, BrowserConfig};
use crate::api::cookie::{self, Cookie, CookieStore};
use crate::api::error::{Error, ErrorView};
use crate::api::laws;
use crate::api::page::{self, Element, Page, WaitStep};
use crate::json::{self, Json, JsonView};
use crate::net::url::{self, UrlRecord};
use crate::text;

verus! {

/// A browser has the settings that it is built with.
pub proof fn browsers_are_built<J: Default>(
    config: BrowserConfig,
    r: Result<Browser<J>, Error>,
)
    requires
        call_ensures(Browser::<J>::build, (config,), r),
    ensures
        r is Ok && r->Ok_0.context_id@ == "api"@,
        r->Ok_0.config.stealth == config.stealth,
        text::opt(r->Ok_0.config.proxy) == text::opt(config.proxy),
        text::opt(r->Ok_0.config.user_agent) == text::opt(config.user_agent),
        text::opt(r->Ok_0.config.storage_dir) == text::opt(config.storage_dir),
{
}

/// Each setting is set on its own.
pub proof fn settings_are_set(b: BrowserBuilder, s: &str, on: bool, p: BrowserBuilder, q: BrowserBuilder, u: BrowserBuilder, d: BrowserBuilder)
    requires
        call_ensures(BrowserBuilder::proxy, (b, s), p),
        call_ensures(BrowserBuilder::stealth, (b, on), q),
        call_ensures(BrowserBuilder::user_agent, (b, s), u),
        call_ensures(BrowserBuilder::storage_dir, (b, s), d),
    ensures
        p@.proxy == Some(s@) && p@.stealth == b@.stealth && p@.user_agent == b@.user_agent
            && p@.storage_dir == b@.storage_dir,
        q@.stealth == on && q@.proxy == b@.proxy && q@.user_agent == b@.user_agent && q@.storage_dir
            == b@.storage_dir,
        u@.user_agent == Some(s@) && u@.proxy == b@.proxy && u@.stealth == b@.stealth
            && u@.storage_dir == b@.storage_dir,
        d@.storage_dir == Some(s@) && d@.proxy == b@.proxy && d@.stealth == b@.stealth
            && d@.user_agent == b@.user_agent,
{
}

/// A page goes by its number and has the cookies of its browser.
pub proof fn browsers_open_pages<J>(b: &Browser<J>, n: u64, r: Result<Page<'_, J>, Error>)
    requires
        call_ensures(Browser::<J>::new_page, (b, n), r),
    ensures
        r is Ok && r->Ok_0.id@ == seq!['p', 'a', 'g', 'e', '-'] + text::decimal_text(n as nat),
        *r->Ok_0.cookie_jar == b.cookie_jar,
{
    reveal_strlit("page-");
    assert("page-"@ =~= seq!['p', 'a', 'g', 'e', '-']);
}

/// A cookie is made of its name, its value and its domain, for all paths.
pub proof fn cookies_are_made(name: &str, value: &str, domain: &str, r: Cookie)
    requires
        call_ensures(Cookie::new, (name, value, domain), r),
    ensures
        r.name@ == name@ && r.value@ == value@ && r.domain@ == domain@,
        r.path@ == "/"@ && !r.secure && !r.http_only,
{
}

/// A header with one cookie is that cookie for the host; one with none is none.
pub proof fn headers_hold_cookies(
    u: &UrlRecord,
    header: &str,
    r: Vec<Cookie>,
    name: Seq<char>,
    value: Seq<char>,
)
    requires
        call_ensures(cookie::read_header, (u, header), r),
    ensures
        u.hostname is None ==> r@.len() == 0,
        u.hostname is Some && text::pieces(header@, seq![';', ' ']) == seq![
            name + seq!['='] + value,
        ] && !name.contains('=') ==> r@.len() == 1 && r@[0].name@ == name && r@[0].value@ == value
            && r@[0].domain@ == u.hostname->0@ && r@[0].path@ == "/"@,
{
    assert(cookie::cookie_views(r@).len() == r@.len());
    if u.hostname is Some {
        let host = u.hostname->0@;
        laws::cookies_are_for_hosts(u@, header@, host);
        if !name.contains('=') {
            let none = Seq::<Seq<char>>::empty();
            laws::cookies_are_read(none, host, name, value);
            let p = name + seq!['='] + value;
            assert(none.push(p) =~= seq![p]);
            if text::pieces(header@, seq![';', ' ']) == seq![p] {
                let all = cookie::cookie_views(r@);
                assert(all.drop_last().len() == 0);
                assert(all[0] == r@[0]@);
            }
        }
    } else {
        laws::cookies_are_for_hosts(u@, header@, Seq::empty());
    }
}

/// A cookie is set for the URL that is named, and what is no URL is an error.
pub proof fn cookies_are_set<'a, J>(
    s: &CookieStore<'a, J>,
    u: &str,
    r: Result<UrlRecord, Error>,
)
    requires
        call_ensures(CookieStore::<'a, J>::set, (s, u), r),
    ensures
        match url::url_parsed(u@) {
            Ok(v) => r is Ok && r->Ok_0@ == v,
            Err(e) => r is Err && r->Err_0@ == ErrorView::Internal(e),
        },
{
}

/// All cookies that the jar holds are told, each as it is.
pub proof fn all_cookies_are_told<'a, J>(
    s: &CookieStore<'a, J>,
    held: &Vec<cookie::CookieInfo>,
    r: Vec<Cookie>,
    i: int,
)
    requires
        call_ensures(CookieStore::<'a, J>::get_all, (s, held), r),
    ensures
        r@.len() == held@.len(),
        0 <= i < r@.len() ==> r@[i].name@ == held@[i].name@ && r@[i].value@ == held@[i].value@
            && r@[i].domain@ == held@[i].domain@ && r@[i].path@ == held@[i].path@ && r@[i].secure
            == held@[i].secure && r@[i].http_only == held@[i].http_only,
{
    let a = cookie::cookie_views(r@);
    let b = cookie::info_views(held@);
    assert(a.len() == r@.len() && b.len() == held@.len());
    if 0 <= i < r@.len() {
        assert(a[i] == r@[i]@);
        assert(b[i] == held@[i]@);
    }
}

/// What the jar says of saving and loading is passed on.
pub proof fn jars_are_saved<'a, J>(
    s: &CookieStore<'a, J>,
    a: Result<(), String>,
    x: Result<(), Error>,
    b: Result<usize, String>,
    y: Result<usize, Error>,
)
    requires
        call_ensures(CookieStore::<'a, J>::save_to_file, (s, a), x),
        call_ensures(CookieStore::<'a, J>::load_from_file, (s, b), y),
    ensures
        a is Ok <==> x is Ok,
        a is Err ==> x is Err && x->Err_0@ == ErrorView::Internal(a->Err_0@),
        b is Ok ==> y is Ok && y->Ok_0 == b->Ok_0,
        b is Err ==> y is Err && y->Err_0@ == ErrorView::Internal(b->Err_0@),
{
}

/// Errors are worded by what went wrong.
pub proof fn errors_are_told(e: &Error, r: String)
    requires
        call_ensures(Error::message, (e,), r),
    ensures
        (e matches Error::Navigation(s) ==> r@ == "navigation error: "@ + s@),
        (e matches Error::JsEval(s) ==> r@ == "JS evaluation error: "@ + s@),
        (e matches Error::Timeout(s) ==> r@ == "timeout: "@ + s@),
        (e matches Error::ElementNotFound(s) ==> r@ == "element not found: "@ + s@),
        e is NoPage ==> r@ == "no page session"@,
        (e matches Error::Internal(s) ==> r@ == s@),
{
}

/// Going to a URL fails with why the engine failed.
pub proof fn pages_go_to_urls<'a, J>(
    p: &Page<'a, J>,
    outcome: Result<(), String>,
    r: Result<(), Error>,
)
    requires
        call_ensures(Page::<'a, J>::goto, (p, outcome), r),
    ensures
        outcome is Ok <==> r is Ok,
        outcome is Err ==> r is Err && r->Err_0@ == ErrorView::Navigation(outcome->Err_0@),
{
}

/// The scripts that read an element look it up by its selector, as JSON.
pub proof fn elements_are_read(e: &Element, name: &str, a: String, b: String, selector: &str, c: String)
    requires
        call_ensures(Element::text_script, (e,), a),
        call_ensures(Element::attribute_script, (e, name), b),
        call_ensures(page::look_script, (selector,), c),
    ensures
        a@ == "(function() { var el = document.querySelector("@ + json::json_text(
            JsonView::Str(e.selector@),
        ) + "); return el ? "@ + "el.textContent"@ + " : null; })()"@,
        b@ == "(function() { var el = document.querySelector("@ + json::json_text(
            JsonView::Str(e.selector@),
        ) + "); return el ? "@ + ("el.getAttribute("@ + json::json_text(JsonView::Str(name@))
            + ")"@) + " : null; })()"@,
        c@ == "(function() { var el = document.querySelector("@ + json::json_text(
            JsonView::Str(selector@),
        ) + "); return el ? "@ + "true"@ + " : null; })()"@,
{
}

/// What scripts gave is read as the text that it is, or as none, and as true only where it is.
pub proof fn script_values_are_read(e: &Element, v: &Json, a: String, b: Option<String>, c: bool)
    requires
        call_ensures(Element::text, (e, v), a),
        call_ensures(Element::attribute, (e, v), b),
        call_ensures(page::is_there, (v,), c),
    ensures
        (v@ matches JsonView::Str(s) ==> a@ == s && b is Some && b->0@ == s),
        !(v@ is Str) ==> a@.len() == 0 && b is None,
        c <==> v@ == JsonView::Bool(true),
{
}

/// An element is found, looked for again, or given up.
pub proof fn pages_wait_for_elements<'a, J>(
    p: &Page<'a, J>,
    selector: &str,
    found: bool,
    elapsed: u64,
    timeout: u64,
    r: WaitStep,
)
    requires
        call_ensures(Page::<'a, J>::wait_for_selector, (p, selector, found, elapsed, timeout), r),
    ensures
        found ==> (r matches WaitStep::Found(e) && e.selector@ == selector@),
        !found && elapsed >= timeout ==> (r matches WaitStep::Failed(e) && e@ == ErrorView::Timeout(
            "no element matches "@ + selector@,
        )),
        !found && elapsed < timeout ==> (r matches WaitStep::LookAgain(n) && 0 < n <= 50 && elapsed
            + n <= timeout && (n < 50 ==> elapsed + n == timeout)),
{
    laws::elements_are_waited_for(selector@, elapsed, timeout);
}

/// A builder that nothing was told builds a browser without a proxy, a user agent and a place for
/// its files, and one that was told something builds a browser with that.
pub proof fn builders_build<J: Default>(
    a: BrowserBuilder,
    b: BrowserBuilder,
    r: Result<Browser<J>, Error>,
)
    requires
        call_ensures(Browser::<J>::builder, (), a),
        call_ensures(BrowserBuilder::build::<J>, (b,), r),
    ensures
        a@.proxy is None && a@.user_agent is None && a@.storage_dir is None && !a@.stealth,
        r is Ok && r->Ok_0.context_id@ == "api"@ && r->Ok_0.config@.proxy == b@.proxy
            && r->Ok_0.config@.stealth == b@.stealth && r->Ok_0.config@.user_agent == b@.user_agent
            && r->Ok_0.config@.storage_dir == b@.storage_dir,
{
}

/// The cookies of a browser are those of its jar.
pub proof fn browsers_share_their_jar<'a, J>(b: &'a Browser<J>, s: CookieStore<'a, J>)
    requires
        call_ensures(Browser::<J>::cookies, (b,), s),
    ensures
        *s.jar == b.cookie_jar,
{
}

/// What a page says of its content and its title is the text that its script gave back.
pub proof fn pages_tell_their_text<'a, J>(p: &Page<'a, J>, v: &Json, a: String, b: String)
    requires
        call_ensures(Page::<'a, J>::content, (p, v), a),
        call_ensures(Page::<'a, J>::title, (p, v), b),
    ensures
        (v@ matches JsonView::Str(s) ==> a@ == s && b@ == s),
        v@ is Null ==> a@.len() == 0 && b@.len() == 0,
        a@ == b@,
{
    reveal_strlit("");
}

/// Cookies for a URL are asked for only where the text is one.
pub proof fn cookies_need_urls<'a, J>(
    s: &CookieStore<'a, J>,
    u: &str,
    header: &str,
    r: Result<Vec<Cookie>, Error>,
)
    requires
        call_ensures(CookieStore::<'a, J>::get_for_url, (s, u, header), r),
    ensures
        r is Ok <==> url::url_parsed(u@) is Ok,
        (url::url_parsed(u@) matches Err(e) ==> (r matches Err(Error::Internal(m)) && m@ == e)),
        (url::url_parsed(u@) matches Ok(v) ==> v.hostname is None ==> r->Ok_0@.len() == 0),
{
    if r is Ok {
        let v = url::url_parsed(u@)->Ok_0;
        assert(cookie::cookie_views(r->Ok_0@).len() == r->Ok_0@.len());
        laws::cookies_are_for_hosts(v, header@, Seq::empty());
    }
}

} // verus!
