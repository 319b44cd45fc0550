//! The cookies of a browser.

use vstd::prelude::*;
use vstd::string::*;

use crate::api::error::{Error, ErrorView};
use crate::net::url::{UrlRecord, UrlView};
use crate::net::url;
use crate::text;

verus! {

/// A cookie.
pub struct Cookie {
    pub name: String,
    pub value: String,
    pub domain: String,
    pub path: String,
    pub secure: bool,
    pub http_only: bool,
}

/// A cookie, as plain data.
pub struct CookieView {
    pub name: Seq<char>,
    pub value: Seq<char>,
    pub domain: Seq<char>,
    pub path: Seq<char>,
    pub secure: bool,
    pub http_only: bool,
}

impl View for Cookie {
    type V = CookieView;

    open spec fn view(&self) -> CookieView {
        CookieView {
            name: self.name@,
            value: self.value@,
            domain: self.domain@,
            path: self.path@,
            secure: self.secure,
            http_only: self.http_only,
        }
    }
}

impl CookieView {
    /// A cookie for all paths of a domain, without restrictions.
    pub open spec fn plain(name: Seq<char>, value: Seq<char>, domain: Seq<char>) -> CookieView {
        CookieView { name, value, domain, path: "/"@, secure: false, http_only: false }
    }
}

/// The views of a list of cookies.
pub open spec fn cookie_views(v: Seq<Cookie>) -> Seq<CookieView> {
    v.map_values(|c: Cookie| c@)
}

impl Cookie {
    /// A cookie for all paths of a domain, without restrictions.
    pub fn new(name: &str, value: &str, domain: &str) -> (r: Cookie)
        ensures
            r@ == CookieView::plain(name@, value@, domain@),
    {
        Cookie {
            name: name.to_owned(),
            value: value.to_owned(),
            domain: domain.to_owned(),
            path: "/".to_owned(),
            secure: false,
            http_only: false,
        }
    }
}

/// A cookie as the cookie jar holds it.
pub struct CookieInfo {
    pub name: String,
    pub value: String,
    pub domain: String,
    pub path: String,
    pub secure: bool,
    pub http_only: bool,
}

impl View for CookieInfo {
    type V = CookieView;

    open spec fn view(&self) -> CookieView {
        CookieView {
            name: self.name@,
            value: self.value@,
            domain: self.domain@,
            path: self.path@,
            secure: self.secure,
            http_only: self.http_only,
        }
    }
}

/// The views of what the cookie jar holds.
pub open spec fn info_views(v: Seq<CookieInfo>) -> Seq<CookieView> {
    v.map_values(|c: CookieInfo| c@)
}

/// The cookies of a session, by its cookie jar. What the jar holds, finds and says is handed to
/// each function.
pub struct CookieStore<'a, J> {
    pub jar: &'a J,
}

/// The cookies in the pieces of a cookie header: a piece is a name and, behind the first
/// equals sign, a value. Empty pieces are passed over.
pub open spec fn header_cookies(pieces: Seq<Seq<char>>, domain: Seq<char>) -> Seq<CookieView>
    decreases pieces.len(),
{
    if pieces.len() == 0 {
        Seq::empty()
    } else {
        let rest = header_cookies(pieces.drop_last(), domain);
        let p = pieces.last();
        if p.len() == 0 {
            rest
        } else {
            match text::split_first(p, '=') {
                Some((n, v)) => rest.push(CookieView::plain(n, v, domain)),
                None => rest.push(CookieView::plain(p, Seq::empty(), domain)),
            }
        }
    }
}

/// The cookies in a header for a URL: none where the URL has no host.
pub open spec fn cookies_for(u: UrlView, header: Seq<char>) -> Seq<CookieView> {
    match u.hostname {
        Some(h) => header_cookies(text::pieces(header, "; "@), h),
        None => Seq::empty(),
    }
}

/// Reads the cookies in a header for a URL.
pub fn read_header(u: &UrlRecord, header: &str) -> (r: Vec<Cookie>)
    ensures
        cookie_views(r@) == cookies_for(u@, header@),
{
    let mut out: Vec<Cookie> = Vec::new();
    assert(cookie_views(out@) =~= Seq::empty());
    let domain: &str = match &u.hostname {
        Some(h) => h.as_str(),
        None => {
            return out;
        },
    };
    proof {
        reveal_strlit("; ");
    }
    let pieces: Vec<String> = text::split(header, "; ");
    let ghost all = text::texts(pieces@);
    let mut i: usize = 0;
    while i < pieces.len()
        invariant
            i <= pieces.len(),
            all == text::texts(pieces@),
            cookie_views(out@) == header_cookies(all.subrange(0, i as int), domain@),
        decreases pieces.len() - i,
    {
        assert(all.subrange(0, i + 1).drop_last() =~= all.subrange(0, i as int));
        let p: &str = pieces[i].as_str();
        assert(all[i as int] == p@);
        if !p.is_empty() {
            let ghost so_far = out@;
            let c: Cookie = match text::split_once(p, '=') {
                Some((n, v)) => Cookie::new(n.as_str(), v.as_str(), domain),
                None => {
                    proof {
                        reveal_strlit("");
                        assert(""@ =~= Seq::<char>::empty());
                    }
                    Cookie::new(p, "", domain)
                },
            };
            let ghost v = c@;
            out.push(c);
            assert(cookie_views(out@) =~= cookie_views(so_far).push(v));
        }
        i += 1;
    }
    assert(all.subrange(0, i as int) =~= all);
    out
}

fn parse_url(t: &str) -> (r: Result<UrlRecord, Error>)
    ensures
        match url::url_parsed(t@) {
            Ok(u) => r is Ok && r->Ok_0@ == u,
            Err(e) => r is Err && r->Err_0@ == ErrorView::Internal(e),
        },
{
    match UrlRecord::parse(t) {
        Ok(u) => Ok(u),
        Err(e) => Err(Error::Internal(e)),
    }
}

fn wrap<T>(outcome: Result<T, String>) -> (r: Result<T, Error>)
    ensures
        match outcome {
            Ok(x) => r == Ok::<T, Error>(x),
            Err(e) => r is Err && r->Err_0@ == ErrorView::Internal(e@),
        },
{
    match outcome {
        Ok(x) => Ok(x),
        Err(e) => Err(Error::Internal(e)),
    }
}

impl<'a, J> CookieStore<'a, J> {
    /// The cookies in a jar.
    pub fn new(jar: &'a J) -> (r: CookieStore<'a, J>)
        ensures
            r.jar == jar,
    {
        CookieStore { jar }
    }

    /// The URL that a cookie is set for.
    pub fn set(&self, url: &str) -> (r: Result<UrlRecord, Error>)
        ensures
            match url::url_parsed(url@) {
                Ok(u) => r is Ok && r->Ok_0@ == u,
                Err(e) => r is Err && r->Err_0@ == ErrorView::Internal(e),
            },
    {
        parse_url(url)
    }

    /// All cookies, where `held` is what the jar holds.
    pub fn get_all(&self, held: &Vec<CookieInfo>) -> (r: Vec<Cookie>)
        ensures
            cookie_views(r@) == info_views(held@),
    {
        let ghost all = info_views(held@);
        let mut out: Vec<Cookie> = Vec::new();
        let mut i: usize = 0;
        while i < held.len()
            invariant
                i <= held.len(),
                all == info_views(held@),
                cookie_views(out@) == all.subrange(0, i as int),
            decreases held.len() - i,
        {
            let ghost so_far = out@;
            let j: &CookieInfo = &held[i];
            let c: Cookie = Cookie {
                name: j.name.clone(),
                value: j.value.clone(),
                domain: j.domain.clone(),
                path: j.path.clone(),
                secure: j.secure,
                http_only: j.http_only,
            };
            let ghost v = c@;
            out.push(c);
            assert(cookie_views(out@) =~= cookie_views(so_far).push(v));
            assert(all.subrange(0, i + 1) =~= all.subrange(0, i as int).push(all[i as int]));
            i += 1;
        }
        assert(all.subrange(0, i as int) =~= all);
        out
    }

    /// The cookies for a URL, where `header` is what the jar sends to it.
    pub fn get_for_url(&self, url: &str, header: &str) -> (r: Result<Vec<Cookie>, Error>)
        ensures
            match url::url_parsed(url@) {
                Ok(u) => r is Ok && cookie_views(r->Ok_0@) == cookies_for(u, header@),
                Err(e) => r is Err && r->Err_0@ == ErrorView::Internal(e),
            },
    {
        match parse_url(url) {
            Ok(u) => Ok(read_header(&u, header)),
            Err(e) => Err(e),
        }
    }

    /// What came of saving the cookies, where `outcome` is what the jar says.
    pub fn save_to_file(&self, outcome: Result<(), String>) -> (r: Result<(), Error>)
        ensures
            match outcome {
                Ok(()) => r is Ok,
                Err(e) => r is Err && r->Err_0@ == ErrorView::Internal(e@),
            },
    {
        wrap(outcome)
    }

    /// How many cookies were loaded, where `outcome` is what the jar says.
    pub fn load_from_file(&self, outcome: Result<usize, String>) -> (r: Result<usize, Error>)
        ensures
            match outcome {
                Ok(n) => r is Ok && r->Ok_0 == n,
                Err(e) => r is Err && r->Err_0@ == ErrorView::Internal(e@),
            },
    {
        wrap(outcome)
    }
}

} // verus!
