//! Small services for page scripts: the console, digests, URLs and text encodings.

use vstd::prelude::*;
use vstd::string::*;

use sha1::Digest;

use crate::json::{Json, JsonView};
use crate::json;
use crate::net::url::{UrlRecord, UrlView};
use crate::net::url;
use crate::text;

verus! {

/// How a line on the console is logged.
#[derive(Debug, Clone, Copy, PartialEq, Eq, Structural)]
pub enum ConsoleLevel {
    Warn,
    Error,
    Info,
}

/// How a line on the console is logged: as a warning, as an error, or else as a note.
pub fn op_console_msg(level: &str) -> (r: ConsoleLevel)
    ensures
        r == if level@ == "warn"@ {
            ConsoleLevel::Warn
        } else if level@ == "error"@ {
            ConsoleLevel::Error
        } else {
            ConsoleLevel::Info
        },
{
    if text::same(level, "warn") {
        ConsoleLevel::Warn
    } else if text::same(level, "error") {
        ConsoleLevel::Error
    } else {
        ConsoleLevel::Info
    }
}

/// How many milliseconds a script's request may take where nothing else is set.
pub const DEFAULT_FETCH_TIMEOUT_MS: u64 = 30_000;

/// How many milliseconds a script's request may take, where `setting` is what the
/// environment says: a setting that is no number counts for nothing.
pub open spec fn timeout_of(setting: Option<Seq<char>>) -> u64 {
    match setting {
        Some(s) => match text::parsed_uint(s, u64::MAX) {
            Some(n) => n,
            None => DEFAULT_FETCH_TIMEOUT_MS,
        },
        None => DEFAULT_FETCH_TIMEOUT_MS,
    }
}

/// How many milliseconds a script's request may take.
pub fn fetch_timeout_ms(setting: Option<&str>) -> (r: u64)
    ensures
        r == timeout_of(text::opt_str(setting)),
{
    match setting {
        Some(s) => match text::parse_uint(s, u64::MAX) {
            Some(n) => n,
            None => DEFAULT_FETCH_TIMEOUT_MS,
        },
        None => DEFAULT_FETCH_TIMEOUT_MS,
    }
}

/// How the HTTP client for scripts' requests is set up. It follows no redirects itself.
pub struct ClientSettings {
    pub timeout_ms: u64,
    pub pool_idle_secs: u64,
    pub keepalive_secs: u64,
    pub proxy: Option<String>,
}

/// How the HTTP client for scripts' requests is set up, where `setting` is what the
/// environment says of the time that a request may take.
pub fn build_request_client(proxy: Option<&str>, setting: Option<&str>) -> (r: ClientSettings)
    ensures
        r.timeout_ms == timeout_of(text::opt_str(setting)),
        r.pool_idle_secs == 300,
        r.keepalive_secs == 60,
        text::opt(r.proxy) == text::opt_str(proxy),
{
    ClientSettings {
        timeout_ms: fetch_timeout_ms(setting),
        pool_idle_secs: 300,
        keepalive_secs: 60,
        proxy: match proxy {
            Some(p) => Some(p.to_owned()),
            None => None,
        },
    }
}

/// The error where a proxy cannot be used.
pub fn proxy_refused(proxy: &str, reason: &str) -> (r: String)
    ensures
        r@ == "Invalid op_fetch_url proxy '"@ + proxy@ + "': "@ + reason@,
{
    "Invalid op_fetch_url proxy '".to_owned().concat(proxy).concat("': ").concat(reason)
}

/// The error where no client can be made.
pub fn client_refused(reason: &str) -> (r: String)
    ensures
        r@ == "failed to build reqwest::Client: "@ + reason@,
{
    "failed to build reqwest::Client: ".to_owned().concat(reason)
}

/// Which HTTP clients were made for scripts' requests: one for each proxy, by the order in
/// which they were made.
pub struct ClientCache {
    keys: Vec<String>,
}

impl View for ClientCache {
    type V = Seq<Seq<char>>;

    closed spec fn view(&self) -> Seq<Seq<char>> {
        text::texts(self.keys@)
    }
}

/// What a client is found by: its proxy, or nothing where there is none.
pub open spec fn client_key(proxy: Option<Seq<char>>) -> Seq<char> {
    match proxy {
        Some(p) => p,
        None => Seq::empty(),
    }
}

/// Whether no client was made twice for one proxy.
pub open spec fn made_once(keys: Seq<Seq<char>>) -> bool {
    forall|i: int, j: int| 0 <= i < j < keys.len() ==> #[trigger] keys[i] != #[trigger] keys[j]
}

impl ClientCache {
    /// No clients yet.
    pub fn new() -> (r: ClientCache)
        ensures
            r@.len() == 0,
            made_once(r@),
    {
        ClientCache { keys: Vec::new() }
    }

    /// The client for a proxy, if one was made.
    pub fn cached_request_client(&self, proxy: Option<&str>) -> (r: Option<usize>)
        ensures
            match r {
                Some(i) => i < self@.len() && self@[i as int] == client_key(text::opt_str(proxy)),
                None => !self@.contains(client_key(text::opt_str(proxy))),
            },
    {
        proof {
            reveal_strlit("");
            assert(""@ =~= Seq::<char>::empty());
        }
        let key: &str = match proxy {
            Some(p) => p,
            None => "",
        };
        let mut i: usize = 0;
        while i < self.keys.len()
            invariant
                i <= self.keys.len(),
                self@ == text::texts(self.keys@),
                key@ == client_key(text::opt_str(proxy)),
                forall|j: int| 0 <= j < i ==> #[trigger] self@[j] != key@,
            decreases self.keys.len() - i,
        {
            assert(self@[i as int] == self.keys[i as int]@);
            if text::same(self.keys[i].as_str(), key) {
                return Some(i);
            }
            i += 1;
        }
        None
    }

    /// Keeps a client that was made for a proxy, unless there is one already, and says where
    /// the client for the proxy is now.
    pub fn keep(&mut self, proxy: Option<&str>) -> (r: usize)
        ensures
            r < final(self)@.len(),
            final(self)@[r as int] == client_key(text::opt_str(proxy)),
            final(self)@ == if old(self)@.contains(client_key(text::opt_str(proxy))) {
                old(self)@
            } else {
                old(self)@.push(client_key(text::opt_str(proxy)))
            },
            made_once(old(self)@) ==> made_once(final(self)@),
    {
        match self.cached_request_client(proxy) {
            Some(i) => {
                assert(self@[i as int] == client_key(text::opt_str(proxy)));
                i
            },
            None => {
                let key: String = match proxy {
                    Some(p) => p.to_owned(),
                    None => String::new(),
                };
                let ghost k = key@;
                self.keys.push(key);
                assert(self@ =~= old(self)@.push(k));
                proof {
                    assert forall|i: int, j: int|
                        made_once(old(self)@) && 0 <= i < j < self@.len() implies #[trigger] self@[i]
                        != #[trigger] self@[j] by {
                        assert(self@[i] == old(self)@[i]);
                        if j < old(self)@.len() {
                            assert(self@[j] == old(self)@[j]);
                        }
                    }
                }
                self.keys.len() - 1
            },
        }
    }
}

/// What `sha1::Sha1::digest` makes of bytes.
pub uninterp spec fn sha1_digest(data: Seq<u8>) -> Seq<u8>;

/// What `sha2::Sha256::digest` makes of bytes.
pub uninterp spec fn sha256_digest(data: Seq<u8>) -> Seq<u8>;

/// What `sha2::Sha384::digest` makes of bytes.
pub uninterp spec fn sha384_digest(data: Seq<u8>) -> Seq<u8>;

/// What `sha2::Sha512::digest` makes of bytes.
pub uninterp spec fn sha512_digest(data: Seq<u8>) -> Seq<u8>;

/// Calls `sha1::Sha1::digest`, which gives 20 bytes.
#[verifier::external_body]
fn sha1(data: &[u8]) -> (r: Vec<u8>)
    ensures
        r@ == sha1_digest(data@),
        r@.len() == 20,
{
    sha1::Sha1::digest(data).to_vec()
}

/// Calls `sha2::Sha256::digest`, which gives 32 bytes.
#[verifier::external_body]
fn sha256(data: &[u8]) -> (r: Vec<u8>)
    ensures
        r@ == sha256_digest(data@),
        r@.len() == 32,
{
    sha2::Sha256::digest(data).to_vec()
}

/// Calls `sha2::Sha384::digest`, which gives 48 bytes.
#[verifier::external_body]
fn sha384(data: &[u8]) -> (r: Vec<u8>)
    ensures
        r@ == sha384_digest(data@),
        r@.len() == 48,
{
    sha2::Sha384::digest(data).to_vec()
}

/// Calls `sha2::Sha512::digest`, which gives 64 bytes.
#[verifier::external_body]
fn sha512(data: &[u8]) -> (r: Vec<u8>)
    ensures
        r@ == sha512_digest(data@),
        r@.len() == 64,
{
    sha2::Sha512::digest(data).to_vec()
}

/// The digest of bytes with an algorithm by its name in any case; SHA-256 for a name that
/// is none of the four.
pub open spec fn digest(algorithm: Seq<char>, data: Seq<u8>) -> Seq<u8> {
    let name = text::upper_text(algorithm);
    if name == "SHA-1"@ {
        sha1_digest(data)
    } else if name == "SHA-384"@ {
        sha384_digest(data)
    } else if name == "SHA-512"@ {
        sha512_digest(data)
    } else {
        sha256_digest(data)
    }
}

/// The digest of bytes with an algorithm by its name.
pub fn op_subtle_digest(algorithm: &str, data: &[u8]) -> (r: Vec<u8>)
    ensures
        r@ == digest(algorithm@, data@),
        r@.len() == {
            let name = text::upper_text(algorithm@);
            if name == "SHA-1"@ {
                20nat
            } else if name == "SHA-384"@ {
                48
            } else if name == "SHA-512"@ {
                64
            } else {
                32
            }
        },
{
    let name: String = text::to_ascii_uppercase(algorithm);
    if text::same(name.as_str(), "SHA-1") {
        sha1(data)
    } else if text::same(name.as_str(), "SHA-384") {
        sha384(data)
    } else if text::same(name.as_str(), "SHA-512") {
        sha512(data)
    } else {
        sha256(data)
    }
}

/// A text behind a mark, where there is a text that is not empty.
pub open spec fn marked(mark: Seq<char>, s: Option<Seq<char>>) -> Seq<char> {
    match s {
        Some(t) => if t.len() > 0 {
            mark + t
        } else {
            Seq::empty()
        },
        None => Seq::empty(),
    }
}

impl UrlView {
    /// The host name, empty where there is none.
    pub open spec fn hostname_text(self) -> Seq<char> {
        match self.hostname {
            Some(h) => h,
            None => Seq::empty(),
        }
    }

    /// The port in decimal, empty where there is none.
    pub open spec fn port_text(self) -> Seq<char> {
        match self.port {
            Some(p) => text::decimal_text(p as nat),
            None => Seq::empty(),
        }
    }

    /// The host name and, where there are both, the port.
    pub open spec fn host_text(self) -> Seq<char> {
        if self.hostname_text().len() == 0 {
            Seq::empty()
        } else if self.port is None {
            self.hostname_text()
        } else {
            self.hostname_text() + ":"@ + self.port_text()
        }
    }

    /// The parts of the URL as scripts read them.
    pub open spec fn components(self) -> JsonView {
        JsonView::object().put("ok"@, JsonView::Bool(true)).put(
            "href"@,
            JsonView::Str(self.href),
        ).put("protocol"@, JsonView::Str(self.scheme + ":"@)).put(
            "username"@,
            JsonView::Str(self.username),
        ).put("password"@, JsonView::Str(self.password)).put(
            "host"@,
            JsonView::Str(self.host_text()),
        ).put("hostname"@, JsonView::Str(self.hostname_text())).put(
            "port"@,
            JsonView::Str(self.port_text()),
        ).put("pathname"@, JsonView::Str(self.path)).put(
            "search"@,
            JsonView::Str(marked("?"@, self.query)),
        ).put("hash"@, JsonView::Str(marked("#"@, self.fragment))).put(
            "origin"@,
            JsonView::Str(self.origin()),
        )
    }
}

fn put_mark(mark: &str, s: &Option<String>) -> (r: String)
    ensures
        r@ == marked(mark@, text::opt(*s)),
{
    match s {
        Some(t) => if t.as_str().is_empty() {
            String::new()
        } else {
            mark.to_owned().concat(t.as_str())
        },
        None => String::new(),
    }
}

/// The parts of a URL as scripts read them.
pub fn url_components(u: &UrlRecord) -> (r: Json)
    ensures
        r@ == u@.components(),
{
    let port: String = match u.port {
        Some(p) => text::decimal(p as u64),
        None => String::new(),
    };
    let hostname: String = match &u.hostname {
        Some(h) => h.clone(),
        None => String::new(),
    };
    let host: String = if hostname.as_str().is_empty() {
        String::new()
    } else if u.port.is_none() {
        hostname.clone()
    } else {
        hostname.as_str().to_owned().concat(":").concat(port.as_str())
    };
    Json::object().put("ok", Json::Bool(true)).put("href", Json::string(u.href.as_str())).put(
        "protocol",
        Json::Str(u.scheme.as_str().to_owned().concat(":")),
    ).put("username", Json::string(u.username.as_str())).put(
        "password",
        Json::string(u.password.as_str()),
    ).put("host", Json::Str(host)).put("hostname", Json::Str(hostname)).put(
        "port",
        Json::Str(port),
    ).put("pathname", Json::string(u.path.as_str())).put(
        "search",
        Json::Str(put_mark("?", &u.query)),
    ).put("hash", Json::Str(put_mark("#", &u.fragment))).put(
        "origin",
        Json::Str(u.origin()),
    )
}

/// A text as a URL, resolved against a base where one is given.
pub open spec fn url_against(href: Seq<char>, base: Seq<char>) -> Result<UrlView, Seq<char>> {
    if base.len() == 0 {
        url::url_parsed(href)
    } else {
        url::url_resolved(base, href)
    }
}

fn parse_against(href: &str, base: &str) -> (r: Result<UrlRecord, String>)
    ensures
        url::parse_view(r) == url_against(href@, base@),
        r is Ok ==> r->Ok_0@.href.len() > 0,
{
    if base.is_empty() {
        UrlRecord::parse(href)
    } else {
        UrlRecord::resolve(base, href)
    }
}

/// The parts of a URL as JSON text, or the text that says that there is none.
pub open spec fn components_text(u: Option<UrlView>) -> Seq<char> {
    match u {
        Some(v) => json::json_text(v.components()),
        None => "{\"ok\":false}"@,
    }
}

/// The value in a result.
pub open spec fn ok_of(r: Result<UrlView, Seq<char>>) -> Option<UrlView> {
    match r {
        Ok(u) => Some(u),
        Err(_) => None,
    }
}

/// Whether a text reads back as the parts of a URL, where there is one, and is not the text that
/// says that there is none.
pub open spec fn reads_back(t: Seq<char>, u: Option<UrlView>) -> bool {
    u is Some ==> {
        &&& t != "{\"ok\":false}"@
        &&& json::json_parsed(t) is Ok
        &&& json::json_parsed(t)->Ok_0 == u->0.components()
    }
}

proof fn components_are_shallow(u: UrlView)
    ensures
        json::nested_at_most(u.components(), json::SHALLOW as nat),
{
    let n: nat = json::SHALLOW as nat;
    let j0 = JsonView::object();
    let j1 = j0.put("ok"@, JsonView::Bool(true));
    let j2 = j1.put("href"@, JsonView::Str(u.href));
    let j3 = j2.put("protocol"@, JsonView::Str(u.scheme + ":"@));
    let j4 = j3.put("username"@, JsonView::Str(u.username));
    let j5 = j4.put("password"@, JsonView::Str(u.password));
    let j6 = j5.put("host"@, JsonView::Str(u.host_text()));
    let j7 = j6.put("hostname"@, JsonView::Str(u.hostname_text()));
    let j8 = j7.put("port"@, JsonView::Str(u.port_text()));
    let j9 = j8.put("pathname"@, JsonView::Str(u.path));
    let j10 = j9.put("search"@, JsonView::Str(marked("?"@, u.query)));
    let j11 = j10.put("hash"@, JsonView::Str(marked("#"@, u.fragment)));
    json::put_stays_shallow(j0, "ok"@, JsonView::Bool(true), n);
    json::put_stays_shallow(j1, "href"@, JsonView::Str(u.href), n);
    json::put_stays_shallow(j2, "protocol"@, JsonView::Str(u.scheme + ":"@), n);
    json::put_stays_shallow(j3, "username"@, JsonView::Str(u.username), n);
    json::put_stays_shallow(j4, "password"@, JsonView::Str(u.password), n);
    json::put_stays_shallow(j5, "host"@, JsonView::Str(u.host_text()), n);
    json::put_stays_shallow(j6, "hostname"@, JsonView::Str(u.hostname_text()), n);
    json::put_stays_shallow(j7, "port"@, JsonView::Str(u.port_text()), n);
    json::put_stays_shallow(j8, "pathname"@, JsonView::Str(u.path), n);
    json::put_stays_shallow(j9, "search"@, JsonView::Str(marked("?"@, u.query)), n);
    json::put_stays_shallow(j10, "hash"@, JsonView::Str(marked("#"@, u.fragment)), n);
    json::put_stays_shallow(j11, "origin"@, JsonView::Str(u.origin()), n);
}

proof fn part_names_differ()
    ensures
        "ok"@.len() == 2,
        "search"@.len() == 6,
        "protocol"@.len() == 8,
        "username"@.len() == 8,
        "password"@.len() == 8,
        "hostname"@.len() == 8,
        "pathname"@.len() == 8,
        "origin"@.len() == 6,
        "href"@.len() == 4,
        "host"@.len() == 4,
        "port"@.len() == 4,
        "hash"@.len() == 4,
        "href"@ != "host"@ && "href"@ != "port"@ && "href"@ != "hash"@,
        "host"@ != "port"@ && "host"@ != "hash"@ && "port"@ != "hash"@,
        "search"@ != "origin"@,
{
    reveal_strlit("ok");
    reveal_strlit("href");
    reveal_strlit("protocol");
    reveal_strlit("username");
    reveal_strlit("password");
    reveal_strlit("host");
    reveal_strlit("hostname");
    reveal_strlit("port");
    reveal_strlit("pathname");
    reveal_strlit("search");
    reveal_strlit("hash");
    reveal_strlit("origin");
    assert("href"@[1] == 'r' && "host"@[1] == 'o' && "port"@[0] == 'p' && "hash"@[1] == 'a');
    assert("href"@[0] == 'h' && "host"@[0] == 'h' && "hash"@[0] == 'h');
    assert("search"@[0] == 's' && "origin"@[0] == 'o');
}

proof fn components_have_href(u: UrlView)
    ensures
        u.components().get("ok"@) == Some(JsonView::Bool(true)),
        u.components().get("href"@) == Some(JsonView::Str(u.href)),
        u.components() is Object && u.components()->Object_0.len() >= 3,
        "{\"ok\":false}"@.len() == 12,
{
    part_names_differ();
    reveal_strlit("{\"ok\":false}");
    let j0 = JsonView::object();
    let j1 = j0.put("ok"@, JsonView::Bool(true));
    let j2 = j1.put("href"@, JsonView::Str(u.href));
    let j3 = j2.put("protocol"@, JsonView::Str(u.scheme + ":"@));
    let j4 = j3.put("username"@, JsonView::Str(u.username));
    let j5 = j4.put("password"@, JsonView::Str(u.password));
    let j6 = j5.put("host"@, JsonView::Str(u.host_text()));
    let j7 = j6.put("hostname"@, JsonView::Str(u.hostname_text()));
    let j8 = j7.put("port"@, JsonView::Str(u.port_text()));
    let j9 = j8.put("pathname"@, JsonView::Str(u.path));
    let j10 = j9.put("search"@, JsonView::Str(marked("?"@, u.query)));
    let j11 = j10.put("hash"@, JsonView::Str(marked("#"@, u.fragment)));
    let j12 = j11.put("origin"@, JsonView::Str(u.origin()));
    assert(j1->Object_0 =~= seq![("ok"@, JsonView::Bool(true))]);
    crate::assoc::place_is_last(j1->Object_0, "href"@);
    crate::assoc::place_is_last(j2->Object_0, "protocol"@);
    assert(j3->Object_0.len() == 3);
    put_keeps(j0, "ok"@, JsonView::Bool(true), "ok"@);
    put_keeps(j1, "href"@, JsonView::Str(u.href), "ok"@);
    put_keeps(j1, "href"@, JsonView::Str(u.href), "href"@);
    put_keeps_both(j2, "protocol"@, JsonView::Str(u.scheme + ":"@));
    put_keeps_both(j3, "username"@, JsonView::Str(u.username));
    put_keeps_both(j4, "password"@, JsonView::Str(u.password));
    put_keeps_both(j5, "host"@, JsonView::Str(u.host_text()));
    put_keeps_both(j6, "hostname"@, JsonView::Str(u.hostname_text()));
    put_keeps_both(j7, "port"@, JsonView::Str(u.port_text()));
    put_keeps_both(j8, "pathname"@, JsonView::Str(u.path));
    put_keeps_both(j9, "search"@, JsonView::Str(marked("?"@, u.query)));
    put_keeps_both(j10, "hash"@, JsonView::Str(marked("#"@, u.fragment)));
    put_keeps_both(j11, "origin"@, JsonView::Str(u.origin()));
    assert(j12 == u.components());
}

proof fn put_keeps(j: JsonView, key: Seq<char>, value: JsonView, other: Seq<char>)
    requires
        j is Object && crate::assoc::distinct(j->Object_0),
    ensures
        j.put(key, value) is Object && crate::assoc::distinct(j.put(key, value)->Object_0),
        j.put(key, value)->Object_0.len() >= j->Object_0.len(),
        j.put(key, value).get(other) == if key == other {
            Some(value)
        } else {
            j.get(other)
        },
{
    crate::assoc::with_sets(j->Object_0, key, value, other);
    crate::assoc::place_is_last(j->Object_0, key);
}

proof fn put_keeps_both(j: JsonView, key: Seq<char>, value: JsonView)
    requires
        j is Object && crate::assoc::distinct(j->Object_0),
        key != "ok"@,
        key != "href"@,
    ensures
        j.put(key, value) is Object && crate::assoc::distinct(j.put(key, value)->Object_0),
        j.put(key, value)->Object_0.len() >= j->Object_0.len(),
        j.put(key, value).get("ok"@) == j.get("ok"@),
        j.put(key, value).get("href"@) == j.get("href"@),
{
    put_keeps(j, key, value, "ok"@);
    put_keeps(j, key, value, "href"@);
}

fn write_components(u: &UrlRecord) -> (r: String)
    ensures
        r@ == json::json_text(u@.components()),
        reads_back(r@, Some(u@)),
{
    proof {
        components_are_shallow(u@);
        components_have_href(u@);
    }
    url_components(u).to_text()
}

/// The parts of a URL that is resolved against a base where one is given. They can be read back
/// from the text.
pub fn op_url_parse(href: &str, base: &str) -> (r: String)
    ensures
        r@ == components_text(ok_of(url_against(href@, base@))),
        reads_back(r@, ok_of(url_against(href@, base@))),
        r@ == "{\"ok\":false}"@ <==> url_against(href@, base@) is Err,
{
    match parse_against(href, base) {
        Ok(u) => write_components(&u),
        Err(_) => "{\"ok\":false}".to_owned(),
    }
}

/// The serialization of a URL that is resolved against a base where one is given; empty
/// where it is no URL.
pub open spec fn resolved_text(href: Seq<char>, base: Seq<char>) -> Seq<char> {
    match url_against(href, base) {
        Ok(u) => u.href,
        Err(_) => Seq::empty(),
    }
}

/// The serialization of a URL that is resolved against a base where one is given; empty
/// where it is no URL, and only there.
pub fn op_url_resolve(href: &str, base: &str) -> (r: String)
    ensures
        r@ == resolved_text(href@, base@),
        r@.len() == 0 <==> url_against(href@, base@) is Err,
{
    match parse_against(href, base) {
        Ok(u) => u.href,
        Err(_) => String::new(),
    }
}

/// Resolving a URL gives the serialization that is among its parts. There is none, and the parts
/// are the text that says so, where there is no URL; so where a base is given that is none,
/// whatever is resolved against it.
pub proof fn resolving_gives_the_parsed_href(href: Seq<char>, base: Seq<char>)
    ensures
        match url_against(href, base) {
            Ok(u) => {
                &&& components_text(ok_of(url_against(href, base))) == json::json_text(
                    u.components(),
                )
                &&& u.components().get("ok"@) == Some(JsonView::Bool(true))
                &&& u.components().get("href"@) == Some(
                    JsonView::Str(resolved_text(href, base)),
                )
            },
            Err(_) => {
                &&& components_text(ok_of(url_against(href, base))) == "{\"ok\":false}"@
                &&& resolved_text(href, base).len() == 0
            },
        },
        base.len() > 0 && url::url_parsed(base) is Err ==> url_against(href, base) is Err,
{
    if let Ok(u) = url_against(href, base) {
        components_have_href(u);
    }
}

/// The text, unless it is empty.
pub open spec fn nonempty(s: Seq<char>) -> Option<Seq<char>> {
    if s.len() > 0 {
        Some(s)
    } else {
        None
    }
}

/// The new value, or the old one where there is none.
pub open spec fn or_same(new: Option<UrlView>, u: UrlView) -> UrlView {
    match new {
        Some(v) => v,
        None => u,
    }
}

/// What becomes of the port of a URL whose host is set.
#[derive(Debug, Clone, Copy, PartialEq, Eq, Structural)]
pub enum PortEdit {
    Keep,
    Clear,
    To(u16),
}

/// A change to one part of a URL.
pub enum UrlEdit {
    Whole(String),
    Scheme(String),
    Username(String),
    Password(Option<String>),
    Host(String, PortEdit),
    Port(Option<u16>),
    Path(String),
    Query(Option<String>),
    Fragment(Option<String>),
    Nothing,
}

/// A change to one part of a URL, as plain data.
pub enum EditView {
    Whole(Seq<char>),
    Scheme(Seq<char>),
    Username(Seq<char>),
    Password(Option<Seq<char>>),
    Host(Seq<char>, PortEdit),
    Port(Option<u16>),
    Path(Seq<char>),
    Query(Option<Seq<char>>),
    Fragment(Option<Seq<char>>),
    Nothing,
}

impl View for UrlEdit {
    type V = EditView;

    open spec fn view(&self) -> EditView {
        match self {
            UrlEdit::Whole(s) => EditView::Whole(s@),
            UrlEdit::Scheme(s) => EditView::Scheme(s@),
            UrlEdit::Username(s) => EditView::Username(s@),
            UrlEdit::Password(s) => EditView::Password(text::opt(*s)),
            UrlEdit::Host(s, p) => EditView::Host(s@, *p),
            UrlEdit::Port(p) => EditView::Port(*p),
            UrlEdit::Path(s) => EditView::Path(s@),
            UrlEdit::Query(s) => EditView::Query(text::opt(*s)),
            UrlEdit::Fragment(s) => EditView::Fragment(text::opt(*s)),
            UrlEdit::Nothing => EditView::Nothing,
        }
    }
}

/// The port that a run of digits sets: none where it is no port.
pub open spec fn port_edit(digits: Seq<char>) -> PortEdit {
    match text::parsed_uint(digits, 65535) {
        Some(p) => PortEdit::To(p as u16),
        None => PortEdit::Keep,
    }
}

/// The host, and perhaps the port, in `[address]`, `[address]:port`, `name`, `name:` or
/// `name:port`. What follows the last colon belongs to the name unless it is made of digits.
pub open spec fn host_edit(value: Seq<char>) -> EditView {
    let n = value.len() as int;
    let close = text::first_of(value, ']');
    let colon = text::last_of(value, ':');
    if n > 0 && value[0] == '[' && close is Some {
        let rest = value.subrange(close->0 + 1, n);
        EditView::Host(
            value.subrange(0, close->0 + 1),
            if rest.len() > 0 && rest[0] == ':' {
                port_edit(rest.skip(1))
            } else {
                PortEdit::Keep
            },
        )
    } else if colon is Some && text::all_digits(value.subrange(colon->0 + 1, n)) {
        let digits = value.subrange(colon->0 + 1, n);
        EditView::Host(
            value.subrange(0, colon->0),
            if digits.len() == 0 {
                PortEdit::Clear
            } else {
                port_edit(digits)
            },
        )
    } else {
        EditView::Host(value, PortEdit::Keep)
    }
}

/// The change that setting a part of a URL to a value makes.
pub open spec fn edit_of(part: Seq<char>, value: Seq<char>) -> EditView {
    if part == "href"@ {
        EditView::Whole(value)
    } else if part == "protocol"@ {
        EditView::Scheme(text::trimmed_end(value, ':'))
    } else if part == "username"@ {
        EditView::Username(value)
    } else if part == "password"@ {
        EditView::Password(nonempty(value))
    } else if part == "host"@ {
        host_edit(value)
    } else if part == "hostname"@ {
        if value.len() > 0 {
            EditView::Host(value, PortEdit::Keep)
        } else {
            EditView::Nothing
        }
    } else if part == "port"@ {
        if value.len() == 0 {
            EditView::Port(None)
        } else {
            match text::parsed_uint(value, 65535) {
                Some(p) => EditView::Port(Some(p as u16)),
                None => EditView::Nothing,
            }
        }
    } else if part == "pathname"@ {
        EditView::Path(value)
    } else if part == "search"@ {
        EditView::Query(nonempty(text::without_prefix(value, '?')))
    } else if part == "hash"@ {
        EditView::Fragment(nonempty(text::without_prefix(value, '#')))
    } else {
        EditView::Nothing
    }
}

/// A URL whose port is set, where it has a host that a port can follow.
pub open spec fn port_set(v: UrlView, port: Option<u16>) -> UrlView {
    if v.port == port || v.hostname_text().len() == 0 || v.scheme == "file"@ {
        v
    } else {
        match url::url_parsed(v.href) {
            Ok(w) => if port is None || w.fits_port() {
                or_same(url::url_with_port(v.href, port), v)
            } else {
                v
            },
            Err(_) => v,
        }
    }
}

/// A URL whose host is set and then, where that is asked for, its port.
pub open spec fn host_set(u: UrlView, href: Seq<char>, host: Seq<char>, port: PortEdit) -> UrlView {
    match url::url_with_host(href, host) {
        None => u,
        Some(v) => match port {
            PortEdit::Keep => v,
            PortEdit::Clear => port_set(v, None),
            PortEdit::To(p) => port_set(v, Some(p)),
        },
    }
}

/// A URL after a change: what cannot be set is left as it is. There is no URL where a whole
/// new one is none.
pub open spec fn edited(u: UrlView, href: Seq<char>, edit: EditView) -> Option<UrlView> {
    match edit {
        EditView::Whole(t) => ok_of(url::url_parsed(t)),
        EditView::Scheme(t) => url::url_with_scheme(href, t),
        EditView::Username(t) => url::url_with_username(href, t),
        EditView::Password(t) => url::url_with_password(href, t),
        EditView::Host(t, p) => Some(host_set(u, href, t, p)),
        EditView::Port(p) => url::url_with_port(href, p),
        EditView::Path(t) => url::url_with_path(href, t),
        EditView::Query(t) => url::url_with_query(href, t),
        EditView::Fragment(t) => url::url_with_fragment(href, t),
        EditView::Nothing => Some(u),
    }
}

/// A URL with one part set to a value that a script gives: as it was where the part cannot be
/// set. There is no URL where the text to change, or a whole new URL, is none.
pub open spec fn with_part(href: Seq<char>, part: Seq<char>, value: Seq<char>) -> Option<UrlView> {
    match url::url_parsed(href) {
        Err(_) => None,
        Ok(u) => if edit_fits(u, edit_of(part, value)) {
            edited(u, href, edit_of(part, value))
        } else {
            Some(u)
        },
    }
}

/// Whether a change to a URL can be made.
pub open spec fn edit_fits(u: UrlView, e: EditView) -> bool {
    match e {
        EditView::Scheme(t) => u.fits_scheme(t),
        EditView::Username(t) => u.fits_text(t),
        EditView::Password(Some(t)) => u.fits_text(t),
        EditView::Host(t, _) => u.fits_host(t),
        EditView::Port(Some(_)) => u.fits_port(),
        EditView::Path(t) => u.fits_text(t),
        EditView::Query(Some(t)) => u.fits_query(t),
        EditView::Fragment(Some(_)) => u.fits_fragment(),
        _ => true,
    }
}

fn can_edit(u: &UrlRecord, e: &UrlEdit) -> (r: bool)
    ensures
        r == edit_fits(u@, e@),
{
    match e {
        UrlEdit::Scheme(t) => u.takes_scheme(t.as_str()),
        UrlEdit::Username(t) => u.takes_text(t.as_str()),
        UrlEdit::Password(Some(t)) => u.takes_text(t.as_str()),
        UrlEdit::Host(t, _) => u.takes_host(t.as_str()),
        UrlEdit::Port(Some(_)) => u.takes_port(),
        UrlEdit::Path(t) => u.takes_text(t.as_str()),
        UrlEdit::Query(Some(t)) => u.takes_query(t.as_str()),
        UrlEdit::Fragment(Some(_)) => u.takes_fragment(),
        _ => true,
    }
}

fn set_port_of(v: UrlRecord, port: Option<u16>) -> (r: UrlRecord)
    ensures
        r@ == port_set(v@, port),
{
    proof {
        reveal_strlit("");
        assert(""@ =~= Seq::<char>::empty());
    }
    let host: &str = match &v.hostname {
        Some(h) => h.as_str(),
        None => "",
    };
    if v.port == port || host.is_empty() || text::same(v.scheme.as_str(), "file") {
        return v;
    }
    match UrlRecord::parse(v.href.as_str()) {
        Ok(w) => if port.is_none() || w.takes_port() {
            or_keep(url::set_port(v.href.as_str(), port), v)
        } else {
            v
        },
        Err(_) => v,
    }
}

fn set_host_of(u: UrlRecord, href: &str, host: &str, port: PortEdit) -> (r: UrlRecord)
    requires
        url::url_parsed(href@) == Ok::<UrlView, Seq<char>>(u@),
        u@.fits_host(host@),
    ensures
        r@ == host_set(u@, href@, host@, port),
{
    match url::set_host(href, host) {
        None => u,
        Some(v) => match port {
            PortEdit::Keep => v,
            PortEdit::Clear => set_port_of(v, None),
            PortEdit::To(p) => set_port_of(v, Some(p)),
        },
    }
}

fn or_keep(new: Option<UrlRecord>, u: UrlRecord) -> (r: UrlRecord)
    ensures
        r@ == or_same(url::record_view(new), u@),
{
    match new {
        Some(v) => v,
        None => u,
    }
}

fn digits_only(cs: &Vec<char>, from: usize) -> (r: bool)
    requires
        from <= cs.len(),
    ensures
        r == text::all_digits(cs@.subrange(from as int, cs.len() as int)),
{
    let ghost t = cs@.subrange(from as int, cs.len() as int);
    let mut i: usize = from;
    while i < cs.len()
        invariant
            from <= i <= cs.len(),
            t == cs@.subrange(from as int, cs.len() as int),
            forall|j: int| 0 <= j < i - from ==> text::is_digit(#[trigger] t[j]),
        decreases cs.len() - i,
    {
        assert(cs[i as int] == t[i - from]);
        if !(cs[i] >= '0' && cs[i] <= '9') {
            return false;
        }
        i += 1;
    }
    true
}

fn read_port(digits: &str) -> (r: PortEdit)
    ensures
        r == port_edit(digits@),
{
    match text::parse_uint(digits, 65535) {
        Some(p) => PortEdit::To(p as u16),
        None => PortEdit::Keep,
    }
}

/// Takes a host, and perhaps a port, apart.
pub fn set_host_port(value: &str) -> (r: UrlEdit)
    ensures
        r@ == host_edit(value@),
{
    let cs: Vec<char> = text::chars_of(value);
    let n: usize = cs.len();
    if n > 0 && cs[0] == '[' {
        if let Some(close) = text::find_char(&cs, ']') {
            let host: String = text::text_of(&cs, 0, close + 1);
            let port: PortEdit = if close + 1 < n && cs[close + 1] == ':' {
                let digits: String = text::text_of(&cs, close + 2, n);
                assert(value@.subrange(close + 1, n as int).skip(1) =~= digits@);
                read_port(digits.as_str())
            } else {
                PortEdit::Keep
            };
            return UrlEdit::Host(host, port);
        }
    }
    if let Some(idx) = text::rfind_char(&cs, ':') {
        if digits_only(&cs, idx + 1) {
            let host: String = text::text_of(&cs, 0, idx);
            if idx + 1 == n {
                return UrlEdit::Host(host, PortEdit::Clear);
            }
            return UrlEdit::Host(host, read_port(text::text_of(&cs, idx + 1, n).as_str()));
        }
    }
    UrlEdit::Host(value.to_owned(), PortEdit::Keep)
}

fn keep_nonempty(s: String) -> (r: Option<String>)
    ensures
        text::opt(r) == nonempty(s@),
{
    if s.as_str().is_empty() {
        None
    } else {
        Some(s)
    }
}

/// The change that setting a part of a URL to a value makes.
pub fn plan_edit(part: &str, value: &str) -> (r: UrlEdit)
    ensures
        r@ == edit_of(part@, value@),
{
    if text::same(part, "href") {
        UrlEdit::Whole(value.to_owned())
    } else if text::same(part, "protocol") {
        UrlEdit::Scheme(text::trim_end(value, ':'))
    } else if text::same(part, "username") {
        UrlEdit::Username(value.to_owned())
    } else if text::same(part, "password") {
        UrlEdit::Password(keep_nonempty(value.to_owned()))
    } else if text::same(part, "host") {
        set_host_port(value)
    } else if text::same(part, "hostname") {
        if value.is_empty() {
            UrlEdit::Nothing
        } else {
            UrlEdit::Host(value.to_owned(), PortEdit::Keep)
        }
    } else if text::same(part, "port") {
        if value.is_empty() {
            UrlEdit::Port(None)
        } else {
            match text::parse_uint(value, 65535) {
                Some(p) => UrlEdit::Port(Some(p as u16)),
                None => UrlEdit::Nothing,
            }
        }
    } else if text::same(part, "pathname") {
        UrlEdit::Path(value.to_owned())
    } else if text::same(part, "search") {
        UrlEdit::Query(keep_nonempty(text::strip_prefix(value, '?')))
    } else if text::same(part, "hash") {
        UrlEdit::Fragment(keep_nonempty(text::strip_prefix(value, '#')))
    } else {
        UrlEdit::Nothing
    }
}

fn as_text(s: &Option<String>) -> (r: Option<&str>)
    ensures
        text::opt_str(r) == text::opt(*s),
{
    match s {
        Some(t) => Some(t.as_str()),
        None => None,
    }
}

fn apply_edit(u: UrlRecord, href: &str, edit: &UrlEdit) -> (r: Option<UrlRecord>)
    requires
        url::url_parsed(href@) == Ok::<UrlView, Seq<char>>(u@),
        edit_fits(u@, edit@),
    ensures
        url::record_view(r) == edited(u@, href@, edit@),
        r is None ==> edit@ is Whole,
        edit@ == EditView::Query(None) && (u@.fragment is Some || u@.rooted()) ==> r is Some
            && r->0@ == u@.without_query(),
        edit@ == EditView::Fragment(None) && (u@.query is Some || u@.rooted()) ==> r is Some
            && r->0@ == u@.without_fragment(),
{
    match edit {
        UrlEdit::Whole(t) => match UrlRecord::parse(t.as_str()) {
            Ok(v) => Some(v),
            Err(_) => None,
        },
        UrlEdit::Scheme(t) => url::set_scheme(href, t.as_str()),
        UrlEdit::Username(t) => url::set_username(href, t.as_str()),
        UrlEdit::Password(t) => url::set_password(href, as_text(t)),
        UrlEdit::Host(t, p) => Some(set_host_of(u, href, t.as_str(), *p)),
        UrlEdit::Port(p) => url::set_port(href, *p),
        UrlEdit::Path(t) => url::set_path(href, t.as_str()),
        UrlEdit::Query(t) => url::set_query(href, as_text(t)),
        UrlEdit::Fragment(t) => url::set_fragment(href, as_text(t)),
        UrlEdit::Nothing => Some(u),
    }
}

/// Sets one part of a URL and gives the parts of what comes of it. There are none only where
/// the text to change, or a whole new URL, is no URL. An empty query or fragment is removed with
/// the mark before it, where what stays cannot end in spaces.
pub fn url_set_inner(href: &str, part: &str, value: &str) -> (r: Option<Json>)
    ensures
        match with_part(href@, part@, value@) {
            Some(u) => r is Some && r->0@ == u.components(),
            None => r is None,
        },
        r is None <==> url::url_parsed(href@) is Err || (part@ == "href"@ && url::url_parsed(
            value@,
        ) is Err),
        part@ == "search"@ && text::without_prefix(value@, '?').len() == 0 ==> (url::url_parsed(
            href@,
        ) matches Ok(u) ==> (u.fragment is Some || u.rooted() ==> r->0@
            == u.without_query().components())),
        part@ == "hash"@ && text::without_prefix(value@, '#').len() == 0 ==> (url::url_parsed(
            href@,
        ) matches Ok(u) ==> (u.query is Some || u.rooted() ==> r->0@
            == u.without_fragment().components())),
{
    proof {
        part_names_differ();
    }
    let u: UrlRecord = match UrlRecord::parse(href) {
        Ok(u) => u,
        Err(_) => {
            return None;
        },
    };
    let edit: UrlEdit = plan_edit(part, value);
    if !can_edit(&u, &edit) {
        return Some(url_components(&u));
    }
    match apply_edit(u, href, &edit) {
        Some(v) => Some(url_components(&v)),
        None => None,
    }
}

/// The parts of a URL, or the text that says that it is none.
pub fn url_unchanged(href: &str) -> (r: String)
    ensures
        r@ == components_text(ok_of(url::url_parsed(href@))),
        reads_back(r@, ok_of(url::url_parsed(href@))),
{
    match UrlRecord::parse(href) {
        Ok(u) => write_components(&u),
        Err(_) => "{\"ok\":false}".to_owned(),
    }
}

/// The URL that setting one part of a URL leaves: the URL as it was where a whole new URL is
/// none.
pub open spec fn left_by_set(href: Seq<char>, part: Seq<char>, value: Seq<char>) -> Option<UrlView> {
    match with_part(href, part, value) {
        Some(u) => Some(u),
        None => ok_of(url::url_parsed(href)),
    }
}

/// Sets one part of a URL and gives the parts of what comes of it as text, from which they can
/// be read back. There are none only where the text to change is no URL.
pub fn op_url_set(href: &str, part: &str, value: &str) -> (r: String)
    ensures
        r@ == components_text(left_by_set(href@, part@, value@)),
        reads_back(r@, left_by_set(href@, part@, value@)),
        left_by_set(href@, part@, value@) is None <==> url::url_parsed(href@) is Err,
        r@ == "{\"ok\":false}"@ <==> url::url_parsed(href@) is Err,
{
    match url_set_inner(href, part, value) {
        Some(j) => {
            proof {
                components_are_shallow(with_part(href@, part@, value@)->0);
                components_have_href(with_part(href@, part@, value@)->0);
            }
            j.to_text()
        },
        None => url_unchanged(href),
    }
}

/// Setting a part of a URL leaves it as it was where the part is none that can be set, where a
/// whole new URL is none, where a port is no port, and where an empty host would be left with a
/// port and no user.
pub proof fn what_cannot_be_set_is_left(href: Seq<char>, part: Seq<char>, value: Seq<char>)
    requires
        url::url_parsed(href) is Ok,
        ({
            ||| edit_of(part, value) is Nothing
            ||| part == "href"@ && url::url_parsed(value) is Err
            ||| part == "port"@ && value.len() > 0 && text::parsed_uint(value, 65535) is None
            ||| {
                let u = url::url_parsed(href)->Ok_0;
                &&& edit_of(part, value) matches EditView::Host(h, _)
                &&& h.len() == 0
                &&& u.port is Some && u.username.len() == 0 && u.password.len() == 0
            }
        }),
    ensures
        left_by_set(href, part, value) == ok_of(url::url_parsed(href)),
{
    part_names_differ();
}

/// The mark before a query or a fragment makes no difference to setting it.
pub proof fn marks_may_be_left_out(href: Seq<char>, query: Seq<char>, fragment: Seq<char>)
    requires
        query.len() > 0 ==> query[0] != '?',
        fragment.len() > 0 ==> fragment[0] != '#',
    ensures
        with_part(href, "search"@, query) == with_part(href, "search"@, seq!['?'] + query),
        with_part(href, "hash"@, fragment) == with_part(href, "hash"@, seq!['#'] + fragment),
{
    assert((seq!['?'] + query).skip(1) =~= query);
    assert((seq!['#'] + fragment).skip(1) =~= fragment);
    part_names_differ();
    assert(text::without_prefix(seq!['?'] + query, '?') =~= text::without_prefix(query, '?'));
    assert(text::without_prefix(seq!['#'] + fragment, '#') =~= text::without_prefix(
        fragment,
        '#',
    ));
}

/// The name of an encoding, or nothing where the label was not known.
pub fn op_encoding_for_label(name: Option<String>) -> (r: String)
    ensures
        r@ == match text::opt(name) {
            Some(n) => n,
            None => Seq::empty(),
        },
{
    match name {
        Some(n) => n,
        None => String::new(),
    }
}

/// The reply with a text that was decoded, or that there is none.
pub fn op_text_decode(decoded: Option<&str>) -> (r: String)
    ensures
        r@ == match text::opt_str(decoded) {
            Some(s) => json::json_text(
                JsonView::object().put("ok"@, JsonView::Bool(true)).put("v"@, JsonView::Str(s)),
            ),
            None => "{\"ok\":false}"@,
        },
{
    match decoded {
        Some(s) => Json::object().put("ok", Json::Bool(true)).put("v", Json::string(s)).to_text(),
        None => "{\"ok\":false}".to_owned(),
    }
}

/// The query in another encoding, or as it was where that is not known.
pub fn op_url_encode_query(query: &str, encoded: Option<String>) -> (r: String)
    ensures
        r@ == match text::opt(encoded) {
            Some(q) => q,
            None => query@,
        },
{
    match encoded {
        Some(q) => q,
        None => query.to_owned(),
    }
}

} // verus!
