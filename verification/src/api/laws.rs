//! What holds of browsers, pages and cookies.

use vstd::prelude::*;
use vstd::string::*;

use crate::api::browser::ConfigView;
use crate::api::cookie::{self, CookieView};
use crate::api::error::ErrorView;
use crate::api::page::{self, WaitView};
use crate::json::{self, JsonView};
use crate::net::url::UrlView;
use crate::text;

verus! {

/// A browser where nothing is set has no proxy, no disguise, no user agent of its own and no place
/// to keep things.
pub proof fn plain_browsers_are_plain()
    ensures
        ConfigView::plain().proxy is None,
        !ConfigView::plain().stealth,
        ConfigView::plain().user_agent is None,
        ConfigView::plain().storage_dir is None,
{
}

/// A cookie that is made of a name, a value and a domain is for all paths and not restricted.
pub proof fn plain_cookies_are_plain(name: Seq<char>, value: Seq<char>, domain: Seq<char>)
    ensures
        ({
            let c = CookieView::plain(name, value, domain);
            &&& c.name == name && c.value == value && c.domain == domain
            &&& c.path == "/"@ && !c.secure && !c.http_only
        }),
{
}

/// Each piece of a cookie header is a cookie for the host, in its order: its name is what stands
/// before the first equals sign and its value what stands behind, and without such a sign it is all
/// name. Empty pieces are none.
pub proof fn cookies_are_read(
    pieces: Seq<Seq<char>>,
    domain: Seq<char>,
    name: Seq<char>,
    value: Seq<char>,
)
    requires
        !name.contains('='),
    ensures
        cookie::header_cookies(Seq::empty(), domain).len() == 0,
        cookie::header_cookies(pieces.push(Seq::empty()), domain) == cookie::header_cookies(
            pieces,
            domain,
        ),
        ({
            let all = cookie::header_cookies(pieces.push(name + seq!['='] + value), domain);
            &&& all.len() > 0
            &&& all.drop_last() == cookie::header_cookies(pieces, domain)
            &&& all.last().name == name && all.last().value == value && all.last().domain == domain
            &&& all.last().path == "/"@ && !all.last().secure && !all.last().http_only
        }),
        name.len() > 0 ==> {
            let all = cookie::header_cookies(pieces.push(name), domain);
            &&& all.len() > 0
            &&& all.drop_last() == cookie::header_cookies(pieces, domain)
            &&& all.last().name == name && all.last().value.len() == 0 && all.last().domain
                == domain
            &&& all.last().path == "/"@ && !all.last().secure && !all.last().http_only
        },
{
    let rest = cookie::header_cookies(pieces, domain);
    text::split_at_first(name, '=', value);
    assert(pieces.push(Seq::empty()).drop_last() =~= pieces);
    assert(pieces.push(name).drop_last() =~= pieces);
    let p = name + seq!['='] + value;
    assert(pieces.push(p).drop_last() =~= pieces);
    assert(cookie::header_cookies(pieces.push(p), domain).drop_last() =~= rest);
    if name.len() > 0 {
        assert(cookie::header_cookies(pieces.push(name), domain).drop_last() =~= rest);
    }
}

/// The cookies for a URL are those between the semicolons of the header, for its host; a URL
/// without a host has none.
pub proof fn cookies_are_for_hosts(u: UrlView, header: Seq<char>, host: Seq<char>)
    ensures
        u.hostname is None ==> cookie::cookies_for(u, header).len() == 0,
        u.hostname == Some(host) ==> cookie::cookies_for(u, header) == cookie::header_cookies(
            text::pieces(header, seq![';', ' ']),
            host,
        ),
{
    reveal_strlit("; ");
    assert("; "@ =~= seq![';', ' ']);
}

/// An error says what went wrong and then the reason.
pub proof fn errors_are_worded(s: Seq<char>)
    ensures
        ErrorView::Navigation(s).message() == "navigation error: "@ + s,
        ErrorView::JsEval(s).message() == "JS evaluation error: "@ + s,
        ErrorView::Timeout(s).message() == "timeout: "@ + s,
        ErrorView::ElementNotFound(s).message() == "element not found: "@ + s,
        ErrorView::NoPage.message() == "no page session"@,
        ErrorView::Internal(s).message() == s,
{
}

/// The script that looks at an element finds it by the selector, as JSON, and gives the expression,
/// or nothing where there is no such element.
pub proof fn elements_are_looked_at(selector: Seq<char>, expression: Seq<char>)
    ensures
        page::element_script(selector, expression)
            == "(function() { var el = document.querySelector("@ + json::json_text(
            JsonView::Str(selector),
        ) + "); return el ? "@ + expression + " : null; })()"@,
        page::CONTENT_SCRIPT@ == "document.documentElement.outerHTML"@,
        page::TITLE_SCRIPT@ == "document.title"@,
{
}

/// A value that is a text is that text, and any other is none.
pub proof fn values_are_texts(s: Seq<char>, v: JsonView)
    ensures
        page::text_of_value(JsonView::Str(s)) == s,
        !(v is Str) ==> page::text_of_value(v).len() == 0,
{
}

/// An element that is there is found. One that is not is looked for again after fifty milliseconds,
/// or what is left of the time where that is less, and when the time is up waiting has failed.
pub proof fn elements_are_waited_for(selector: Seq<char>, elapsed: u64, timeout: u64)
    ensures
        page::wait_step(selector, true, elapsed, timeout) == WaitView::Found(selector),
        elapsed >= timeout ==> page::wait_step(selector, false, elapsed, timeout)
            == WaitView::Failed(ErrorView::Timeout("no element matches "@ + selector)),
        elapsed < timeout ==> {
            &&& page::wait_step(selector, false, elapsed, timeout) matches WaitView::LookAgain(n)
            &&& 0 < n <= 50
            &&& elapsed + n <= timeout
            &&& n < 50 ==> elapsed + n == timeout
        },
{
}

} // verus!
