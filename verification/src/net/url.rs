//! URLs as plain records, parsed and edited with the `url` crate.

use vstd::prelude::*;
use vstd::string::*;

use crate::text;

verus! {

/// A parsed URL: its serialization and its components.
pub struct UrlRecord {
    pub href: String,
    pub scheme: String,
    pub username: String,
    pub password: String,
    pub hostname: Option<String>,
    pub port: Option<u16>,
    pub path: String,
    pub query: Option<String>,
    pub fragment: Option<String>,
}

/// What a parsed URL is.
pub struct UrlView {
    pub href: Seq<char>,
    pub scheme: Seq<char>,
    pub username: Seq<char>,
    pub password: Seq<char>,
    pub hostname: Option<Seq<char>>,
    pub port: Option<u16>,
    pub path: Seq<char>,
    pub query: Option<Seq<char>>,
    pub fragment: Option<Seq<char>>,
}

impl View for UrlRecord {
    type V = UrlView;

    open spec fn view(&self) -> UrlView {
        UrlView {
            href: self.href@,
            scheme: self.scheme@,
            username: self.username@,
            password: self.password@,
            hostname: text::opt(self.hostname),
            port: self.port,
            path: self.path@,
            query: text::opt(self.query),
            fragment: text::opt(self.fragment),
        }
    }
}

/// The host of a URL: a name, an IPv4 address, or an IPv6 address by its eight
/// segments and its text.
pub enum UrlHost {
    Domain(String),
    Ipv4(u8, u8, u8, u8),
    Ipv6(Vec<u16>, String),
}

/// What the host of a URL is.
pub enum HostView {
    Domain(Seq<char>),
    Ipv4(u8, u8, u8, u8),
    Ipv6(Seq<u16>, Seq<char>),
}

impl View for UrlHost {
    type V = HostView;

    open spec fn view(&self) -> HostView {
        match self {
            UrlHost::Domain(d) => HostView::Domain(d@),
            UrlHost::Ipv4(a, b, c, d) => HostView::Ipv4(*a, *b, *c, *d),
            UrlHost::Ipv6(s, t) => HostView::Ipv6(s@, t@),
        }
    }
}

/// The view of an optional host.
pub open spec fn host_view(h: Option<UrlHost>) -> Option<HostView> {
    match h {
        Some(x) => Some(x@),
        None => None,
    }
}

/// The view of an optional record.
pub open spec fn record_view(u: Option<UrlRecord>) -> Option<UrlView> {
    match u {
        Some(x) => Some(x@),
        None => None,
    }
}

/// The view of the outcome of parsing.
pub open spec fn parse_view(r: Result<UrlRecord, String>) -> Result<UrlView, Seq<char>> {
    match r {
        Ok(u) => Ok(u@),
        Err(e) => Err(e@),
    }
}

/// What `url::Url::parse` makes of a text, or the text of its error.
pub uninterp spec fn url_parsed(text: Seq<char>) -> Result<UrlView, Seq<char>>;

/// What `url::Url::join` makes of a text against a base that parses.
pub uninterp spec fn url_joined(base: Seq<char>, text: Seq<char>) -> Result<UrlView, Seq<char>>;

/// A reference resolved against a base: an error where the base does not parse.
pub open spec fn url_resolved(base: Seq<char>, text: Seq<char>) -> Result<UrlView, Seq<char>> {
    match url_parsed(base) {
        Ok(_) => url_joined(base, text),
        Err(e) => Err(e),
    }
}

/// What `url::Url::host` gives for a text that parses.
pub uninterp spec fn url_host(text: Seq<char>) -> Option<HostView>;

/// What `url::Url::origin` gives for a text that parses, as ASCII text.
pub uninterp spec fn url_origin(text: Seq<char>) -> Option<Seq<char>>;

/// The URL after `url::Url::set_scheme`.
pub uninterp spec fn url_with_scheme(href: Seq<char>, value: Seq<char>) -> Option<UrlView>;

/// The URL after `url::Url::set_username`.
pub uninterp spec fn url_with_username(href: Seq<char>, value: Seq<char>) -> Option<UrlView>;

/// The URL after `url::Url::set_password`.
pub uninterp spec fn url_with_password(href: Seq<char>, value: Option<Seq<char>>) -> Option<UrlView>;

/// The URL after `url::Url::set_host`, where that succeeds.
pub uninterp spec fn url_with_host(href: Seq<char>, host: Seq<char>) -> Option<UrlView>;

/// The URL after `url::Url::set_port`.
pub uninterp spec fn url_with_port(href: Seq<char>, port: Option<u16>) -> Option<UrlView>;

/// The URL after `url::Url::set_path`.
pub uninterp spec fn url_with_path(href: Seq<char>, value: Seq<char>) -> Option<UrlView>;

/// The URL after `url::Url::set_query`.
pub uninterp spec fn url_with_query(href: Seq<char>, value: Option<Seq<char>>) -> Option<UrlView>;

/// The URL after `url::Url::set_fragment`.
pub uninterp spec fn url_with_fragment(href: Seq<char>, value: Option<Seq<char>>) -> Option<UrlView>;

/// The most URLs that are read out of one another to find an origin in one go.
pub const NEST_LIMIT: usize = 100;

/// How often a character stands in a text.
pub open spec fn count_of(s: Seq<char>, c: char) -> nat
    decreases s.len(),
{
    if s.len() == 0 {
        0
    } else if s.last() == c {
        count_of(s.drop_last(), c) + 1
    } else {
        count_of(s.drop_last(), c)
    }
}

/// How long an optional part of a URL is with the mark before it.
pub open spec fn marked_len(part: Option<Seq<char>>) -> nat {
    match part {
        Some(t) => t.len() + 1,
        None => 0,
    }
}

impl UrlView {
    /// Whether the URL can grow by so many characters. Its serialization is ASCII, and the
    /// `url` crate keeps positions in it in 32 bits.
    pub open spec fn has_room(self, n: nat) -> bool {
        self.href.len() + n < u32::MAX
    }

    /// Whether a new scheme fits.
    pub open spec fn fits_scheme(self, scheme: Seq<char>) -> bool {
        self.has_room(scheme.len())
    }

    /// Whether a new user name, password or path fits: percent-encoded, a character becomes at
    /// most twelve.
    pub open spec fn fits_text(self, t: Seq<char>) -> bool {
        self.has_room(12 * t.len() + 4)
    }

    /// Whether a new host can be set. It must fit: in the ASCII form of a host name, a character
    /// becomes less than a hundred. And an empty host may not be left with a port and no user,
    /// since the `url` crate then takes the port for a password and panics.
    pub open spec fn fits_host(self, host: Seq<char>) -> bool {
        &&& self.has_room(100 * host.len() + 2)
        &&& host.len() == 0 ==> self.port is None || self.username.len() > 0 || self.password.len()
            > 0
    }

    /// Whether a new port fits.
    pub open spec fn fits_port(self) -> bool {
        self.has_room(6)
    }

    /// Whether a new query fits: what goes before it, and itself where something follows.
    pub open spec fn fits_query(self, query: Seq<char>) -> bool {
        &&& self.href.len() < u32::MAX + marked_len(self.fragment) + marked_len(self.query)
        &&& self.fragment is Some ==> self.fits_text(query)
    }

    /// Whether a new fragment fits: what goes before it.
    pub open spec fn fits_fragment(self) -> bool {
        self.href.len() < u32::MAX + marked_len(self.fragment)
    }

    /// Whether the path starts with a slash.
    pub open spec fn rooted(self) -> bool {
        self.path.len() > 0 && self.path[0] == '/'
    }

    /// The URL without its fragment and the mark before it.
    pub open spec fn without_fragment(self) -> UrlView {
        UrlView {
            href: self.href.take(self.href.len() - marked_len(self.fragment)),
            fragment: None,
            ..self
        }
    }

    /// The URL without its query and the mark before it.
    pub open spec fn without_query(self) -> UrlView {
        let end = self.href.len() - marked_len(self.fragment);
        UrlView {
            href: self.href.take(end - marked_len(self.query)) + self.href.skip(end),
            query: None,
            ..self
        }
    }

    /// Whether at most as many URLs can be read out of one another as the stack bears. One that
    /// is in the path of another has a scheme, which takes a colon of the path.
    pub open spec fn flat(self) -> bool {
        self.scheme == "blob"@ ==> count_of(self.path, ':') <= NEST_LIMIT
    }

    /// The origin.
    pub open spec fn origin(self) -> Seq<char> {
        origin_within(self.href, count_of(self.href, ':'))
    }
}

/// The origin of the URL that a text is. Where there are too many URLs in one another for the
/// stack, at most `n` are read out of their `blob` URLs first, whose origin they have. What is no
/// URL has an origin that is no other's.
pub open spec fn origin_within(text: Seq<char>, n: nat) -> Seq<char>
    decreases n,
{
    let nested = match url_parsed(text) {
        Ok(u) => !u.flat(),
        Err(_) => false,
    };
    if nested && n > 0 {
        origin_within(url_parsed(text)->Ok_0.path, (n - 1) as nat)
    } else if nested || url_origin(text) is None {
        "null"@
    } else {
        url_origin(text)->0
    }
}

/// Calls `url::Url::parse` and reads the components. A serialization starts with a scheme, so
/// it is not empty.
#[verifier::external_body]
fn read_url(text: &str) -> (r: Result<UrlRecord, String>)
    ensures
        parse_view(r) == url_parsed(text@),
        r is Ok ==> r->Ok_0@.href.len() > 0,
{
    let u = url::Url::parse(text).map_err(|e| e.to_string())?;
    Ok(UrlRecord {
        href: u.to_string(), scheme: u.scheme().to_owned(),
        username: u.username().to_owned(), password: u.password().unwrap_or("").to_owned(),
        hostname: u.host_str().map(str::to_owned), port: u.port(), path: u.path().to_owned(),
        query: u.query().map(str::to_owned), fragment: u.fragment().map(str::to_owned),
    })
}

/// Parses `base`, calls `url::Url::join` on it and reads the components. A base that
/// does not parse gives the error of `url::Url::parse`. A serialization is not empty.
#[verifier::external_body]
fn join_url(base: &str, text: &str) -> (r: Result<UrlRecord, String>)
    ensures
        url_parsed(base@) is Ok ==> parse_view(r) == url_joined(base@, text@),
        url_parsed(base@) is Err ==> parse_view(r) == url_parsed(base@),
        r is Ok ==> r->Ok_0@.href.len() > 0,
{
    let u = url::Url::parse(base).and_then(|b| b.join(text)).map_err(|e| e.to_string())?;
    Ok(UrlRecord {
        href: u.to_string(), scheme: u.scheme().to_owned(),
        username: u.username().to_owned(), password: u.password().unwrap_or("").to_owned(),
        hostname: u.host_str().map(str::to_owned), port: u.port(), path: u.path().to_owned(),
        query: u.query().map(str::to_owned), fragment: u.fragment().map(str::to_owned),
    })
}

/// Calls `url::Url::host`. An IPv6 address comes with its eight segments and the text
/// in which `std` displays it. A text that is no URL has no host.
#[verifier::external_body]
fn read_host(text: &str) -> (r: Option<UrlHost>)
    ensures
        host_view(r) == url_host(text@),
        r matches Some(UrlHost::Ipv6(s, t)) ==> s.len() == 8,
{
    match url::Url::parse(text).ok()?.host()? {
        url::Host::Domain(d) => Some(UrlHost::Domain(d.to_owned())),
        url::Host::Ipv4(a) => {
            let [b0, b1, b2, b3] = a.octets();
            Some(UrlHost::Ipv4(b0, b1, b2, b3))
        },
        url::Host::Ipv6(a) => Some(UrlHost::Ipv6(a.segments().to_vec(), a.to_string())),
    }
}

/// Calls `url::Url::origin` and `url::Origin::ascii_serialization`. The origin of a `blob` URL
/// is that of the URL in its path, which the `url` crate finds by recursion; `null` stands for
/// an origin that is no other's. A text that is no URL has none.
#[verifier::external_body]
fn read_origin(text: &str) -> (r: Option<String>)
    requires
        url_parsed(text@) matches Ok(u) ==> u.flat(),
    ensures
        text::opt(r) == url_origin(text@),
        r is Some == (url_parsed(text@) is Ok),
{
    let u = url::Url::parse(text).ok()?;
    Some(u.origin().ascii_serialization())
}

/// Whether a text can be the extension of the file that a URL names: it is what follows the last
/// dot, and the path of the URL starts with a slash.
pub open spec fn can_be_extension(href: Seq<char>, extension: Option<Seq<char>>) -> bool {
    extension is Some ==> {
        &&& !extension->0.contains('.')
        &&& url_parsed(href) is Ok
        &&& url_parsed(href)->Ok_0.rooted()
    }
}

/// Calls `url::Url::to_file_path` and, on the path, `std::path::Path::extension`: what follows
/// the last dot of the file's name, where that is text. A URL names a path only where its own
/// path starts with a slash. Which path it is depends on the machine, and with it which
/// extension, so no more is said of it.
#[verifier::external_body]
fn read_extension(href: &str) -> (r: Option<String>)
    ensures
        can_be_extension(href@, text::opt(r)),
{
    let path = url::Url::parse(href).ok()?.to_file_path().ok()?;
    path.extension()?.to_str().map(str::to_owned)
}

/// Calls `url::Url::set_scheme`, which may refuse and then changes nothing.
#[verifier::external_body]
pub(crate) fn set_scheme(href: &str, value: &str) -> (r: Option<UrlRecord>)
    requires
        url_parsed(href@) matches Ok(u) ==> u.fits_scheme(value@),
    ensures
        record_view(r) == url_with_scheme(href@, value@),
        r is Some ==> url_parsed(href@) is Ok,
        url_parsed(href@) is Ok ==> r is Some,
{
    let mut u = url::Url::parse(href).ok()?;
    let _ = u.set_scheme(value);
    Some(UrlRecord {
        href: u.to_string(), scheme: u.scheme().to_owned(),
        username: u.username().to_owned(), password: u.password().unwrap_or("").to_owned(),
        hostname: u.host_str().map(str::to_owned), port: u.port(), path: u.path().to_owned(),
        query: u.query().map(str::to_owned), fragment: u.fragment().map(str::to_owned),
    })
}

/// Calls `url::Url::set_username`, which may refuse and then changes nothing.
#[verifier::external_body]
pub(crate) fn set_username(href: &str, value: &str) -> (r: Option<UrlRecord>)
    requires
        url_parsed(href@) matches Ok(u) ==> u.fits_text(value@),
    ensures
        record_view(r) == url_with_username(href@, value@),
        r is Some ==> url_parsed(href@) is Ok,
        url_parsed(href@) is Ok ==> r is Some,
{
    let mut u = url::Url::parse(href).ok()?;
    let _ = u.set_username(value);
    Some(UrlRecord {
        href: u.to_string(), scheme: u.scheme().to_owned(),
        username: u.username().to_owned(), password: u.password().unwrap_or("").to_owned(),
        hostname: u.host_str().map(str::to_owned), port: u.port(), path: u.path().to_owned(),
        query: u.query().map(str::to_owned), fragment: u.fragment().map(str::to_owned),
    })
}

/// Calls `url::Url::set_password`, which may refuse and then changes nothing.
#[verifier::external_body]
pub(crate) fn set_password(href: &str, value: Option<&str>) -> (r: Option<UrlRecord>)
    requires
        url_parsed(href@) matches Ok(u) ==> (value is Some ==> u.fits_text(value->0@)),
    ensures
        record_view(r) == url_with_password(href@, text::opt_str(value)),
        r is Some ==> url_parsed(href@) is Ok,
        url_parsed(href@) is Ok ==> r is Some,
{
    let mut u = url::Url::parse(href).ok()?;
    let _ = u.set_password(value);
    Some(UrlRecord {
        href: u.to_string(), scheme: u.scheme().to_owned(),
        username: u.username().to_owned(), password: u.password().unwrap_or("").to_owned(),
        hostname: u.host_str().map(str::to_owned), port: u.port(), path: u.path().to_owned(),
        query: u.query().map(str::to_owned), fragment: u.fragment().map(str::to_owned),
    })
}

/// Calls `url::Url::set_host`; there is no result where it refuses.
#[verifier::external_body]
pub(crate) fn set_host(href: &str, host: &str) -> (r: Option<UrlRecord>)
    requires
        url_parsed(href@) matches Ok(u) ==> u.fits_host(host@),
    ensures
        record_view(r) == url_with_host(href@, host@),
        r is Some ==> url_parsed(href@) is Ok,
{
    let mut u = url::Url::parse(href).ok()?;
    u.set_host(Some(host)).ok()?;
    Some(UrlRecord {
        href: u.to_string(), scheme: u.scheme().to_owned(),
        username: u.username().to_owned(), password: u.password().unwrap_or("").to_owned(),
        hostname: u.host_str().map(str::to_owned), port: u.port(), path: u.path().to_owned(),
        query: u.query().map(str::to_owned), fragment: u.fragment().map(str::to_owned),
    })
}

/// Calls `url::Url::set_port`, which may refuse and then changes nothing.
#[verifier::external_body]
pub(crate) fn set_port(href: &str, port: Option<u16>) -> (r: Option<UrlRecord>)
    requires
        url_parsed(href@) matches Ok(u) ==> (port is Some ==> u.fits_port()),
    ensures
        record_view(r) == url_with_port(href@, port),
        r is Some ==> url_parsed(href@) is Ok,
        url_parsed(href@) is Ok ==> r is Some,
{
    let mut u = url::Url::parse(href).ok()?;
    let _ = u.set_port(port);
    Some(UrlRecord {
        href: u.to_string(), scheme: u.scheme().to_owned(),
        username: u.username().to_owned(), password: u.password().unwrap_or("").to_owned(),
        hostname: u.host_str().map(str::to_owned), port: u.port(), path: u.path().to_owned(),
        query: u.query().map(str::to_owned), fragment: u.fragment().map(str::to_owned),
    })
}

/// Calls `url::Url::set_path`.
#[verifier::external_body]
pub(crate) fn set_path(href: &str, value: &str) -> (r: Option<UrlRecord>)
    requires
        url_parsed(href@) matches Ok(u) ==> u.fits_text(value@),
    ensures
        record_view(r) == url_with_path(href@, value@),
        r is Some ==> url_parsed(href@) is Ok,
        url_parsed(href@) is Ok ==> r is Some,
{
    let mut u = url::Url::parse(href).ok()?;
    u.set_path(value);
    Some(UrlRecord {
        href: u.to_string(), scheme: u.scheme().to_owned(),
        username: u.username().to_owned(), password: u.password().unwrap_or("").to_owned(),
        hostname: u.host_str().map(str::to_owned), port: u.port(), path: u.path().to_owned(),
        query: u.query().map(str::to_owned), fragment: u.fragment().map(str::to_owned),
    })
}

/// Calls `url::Url::set_query`. Without a new query it cuts the old one out and changes nothing
/// else; of a path that is not rooted it may also cut spaces off the end.
#[verifier::external_body]
pub(crate) fn set_query(href: &str, value: Option<&str>) -> (r: Option<UrlRecord>)
    requires
        url_parsed(href@) matches Ok(u) ==> (value is Some ==> u.fits_query(value->0@)),
    ensures
        record_view(r) == url_with_query(href@, text::opt_str(value)),
        r is Some ==> url_parsed(href@) is Ok,
        url_parsed(href@) is Ok ==> r is Some,
        value is None ==> (url_parsed(href@) matches Ok(u) ==> (u.fragment is Some || u.rooted()
            ==> r->0@ == u.without_query())),
{
    let mut u = url::Url::parse(href).ok()?;
    u.set_query(value);
    Some(UrlRecord {
        href: u.to_string(), scheme: u.scheme().to_owned(),
        username: u.username().to_owned(), password: u.password().unwrap_or("").to_owned(),
        hostname: u.host_str().map(str::to_owned), port: u.port(), path: u.path().to_owned(),
        query: u.query().map(str::to_owned), fragment: u.fragment().map(str::to_owned),
    })
}

/// Calls `url::Url::set_fragment`. Without a new fragment it cuts the old one off and changes
/// nothing else; of a path that is not rooted it may also cut spaces off the end.
#[verifier::external_body]
pub(crate) fn set_fragment(href: &str, value: Option<&str>) -> (r: Option<UrlRecord>)
    requires
        url_parsed(href@) matches Ok(u) ==> (value is Some ==> u.fits_fragment()),
    ensures
        record_view(r) == url_with_fragment(href@, text::opt_str(value)),
        r is Some ==> url_parsed(href@) is Ok,
        url_parsed(href@) is Ok ==> r is Some,
        value is None ==> (url_parsed(href@) matches Ok(u) ==> (u.query is Some || u.rooted()
            ==> r->0@ == u.without_fragment())),
{
    let mut u = url::Url::parse(href).ok()?;
    u.set_fragment(value);
    Some(UrlRecord {
        href: u.to_string(), scheme: u.scheme().to_owned(),
        username: u.username().to_owned(), password: u.password().unwrap_or("").to_owned(),
        hostname: u.host_str().map(str::to_owned), port: u.port(), path: u.path().to_owned(),
        query: u.query().map(str::to_owned), fragment: u.fragment().map(str::to_owned),
    })
}

fn len_marked(part: &Option<String>) -> (r: u128)
    ensures
        r == marked_len(text::opt(*part)),
        r <= usize::MAX + 1,
{
    match part {
        Some(t) => t.as_str().unicode_len() as u128 + 1,
        None => 0,
    }
}

fn count_char(s: &str, c: char) -> (r: usize)
    ensures
        r == count_of(s@, c),
{
    let cs: Vec<char> = text::chars_of(s);
    let mut n: usize = 0;
    let mut i: usize = 0;
    while i < cs.len()
        invariant
            i <= cs.len(),
            n <= i,
            n == count_of(cs@.subrange(0, i as int), c),
        decreases cs.len() - i,
    {
        assert(cs@.subrange(0, i + 1).drop_last() =~= cs@.subrange(0, i as int));
        if cs[i] == c {
            n += 1;
        }
        i += 1;
    }
    assert(cs@.subrange(0, i as int) =~= cs@);
    n
}

impl UrlRecord {
    fn is_flat(&self) -> (r: bool)
        ensures
            r == self@.flat(),
    {
        !text::same(self.scheme.as_str(), "blob") || count_char(self.path.as_str(), ':')
            <= NEST_LIMIT
    }

    /// The origin as text.
    pub fn origin(&self) -> (r: String)
        ensures
            r@ == self@.origin(),
    {
        let mut at: String = self.href.clone();
        let mut left: usize = count_char(self.href.as_str(), ':');
        loop
            invariant
                origin_within(at@, left as nat) == self@.origin(),
            decreases left,
        {
            if let Ok(u) = UrlRecord::parse(at.as_str()) {
                if !u.is_flat() {
                    if left == 0 {
                        return "null".to_owned();
                    }
                    at = u.path;
                    left -= 1;
                    continue;
                }
            }
            return match read_origin(at.as_str()) {
                Some(o) => o,
                None => "null".to_owned(),
            };
        }
    }

    /// Parses an absolute URL.
    pub fn parse(text: &str) -> (r: Result<UrlRecord, String>)
        ensures
            parse_view(r) == url_parsed(text@),
            r is Ok ==> r->Ok_0@.href.len() > 0,
    {
        read_url(text)
    }

    /// Parses `base` and resolves a reference against it.
    pub fn resolve(base: &str, text: &str) -> (r: Result<UrlRecord, String>)
        ensures
            parse_view(r) == url_resolved(base@, text@),
            r is Ok ==> r->Ok_0@.href.len() > 0,
    {
        join_url(base, text)
    }

    fn has_room(&self, extra: u128) -> (r: bool)
        requires
            extra <= u128::MAX / 2,
        ensures
            r == self@.has_room(extra as nat),
    {
        (self.href.as_str().unicode_len() as u128 + extra) < u32::MAX as u128
    }

    pub(crate) fn takes_scheme(&self, scheme: &str) -> (r: bool)
        ensures
            r == self@.fits_scheme(scheme@),
    {
        self.has_room(scheme.unicode_len() as u128)
    }

    pub(crate) fn takes_text(&self, t: &str) -> (r: bool)
        ensures
            r == self@.fits_text(t@),
    {
        self.has_room(12 * t.unicode_len() as u128 + 4)
    }

    pub(crate) fn takes_host(&self, host: &str) -> (r: bool)
        ensures
            r == self@.fits_host(host@),
    {
        self.has_room(100 * host.unicode_len() as u128 + 2) && (!host.is_empty()
            || self.port.is_none() || !self.username.as_str().is_empty()
            || !self.password.as_str().is_empty())
    }

    pub(crate) fn takes_port(&self) -> (r: bool)
        ensures
            r == self@.fits_port(),
    {
        self.has_room(6)
    }

    pub(crate) fn takes_query(&self, query: &str) -> (r: bool)
        ensures
            r == self@.fits_query(query@),
    {
        let marked: u128 = len_marked(&self.fragment) + len_marked(&self.query);
        (self.href.as_str().unicode_len() as u128) < u32::MAX as u128 + marked && (
        self.fragment.is_none() || self.takes_text(query))
    }

    pub(crate) fn takes_fragment(&self) -> (r: bool)
        ensures
            r == self@.fits_fragment(),
    {
        (self.href.as_str().unicode_len() as u128) < u32::MAX as u128 + len_marked(&self.fragment)
    }

    /// A copy of the record.
    pub fn duplicate(&self) -> (r: UrlRecord)
        ensures
            r@ == self@,
    {
        UrlRecord {
            href: self.href.clone(),
            scheme: self.scheme.clone(),
            username: self.username.clone(),
            password: self.password.clone(),
            hostname: text::clone_opt(&self.hostname),
            port: self.port,
            path: self.path.clone(),
            query: text::clone_opt(&self.query),
            fragment: text::clone_opt(&self.fragment),
        }
    }

    /// The extension of the file that the URL names on this machine, if it names one that has an
    /// extension.
    pub fn file_extension(&self) -> (r: Option<String>)
        ensures
            can_be_extension(self@.href, text::opt(r)),
    {
        read_extension(self.href.as_str())
    }

    /// The host.
    pub fn host(&self) -> (r: Option<UrlHost>)
        ensures
            host_view(r) == url_host(self@.href),
    {
        read_host(self.href.as_str())
    }
}

} // verus!
