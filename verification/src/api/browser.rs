//! Starting a browser.

use vstd::prelude::*;
use vstd::string::*;

use crate::api::cookie::CookieStore;
use crate::api::error::Error;
use crate::api::page::Page;
use crate::text;

verus! {

/// The settings of a browser.
pub struct BrowserConfig {
    pub proxy: Option<String>,
    pub stealth: bool,
    pub user_agent: Option<String>,
    pub storage_dir: Option<String>,
}

/// The settings of a browser, as plain data.
pub struct ConfigView {
    pub proxy: Option<Seq<char>>,
    pub stealth: bool,
    pub user_agent: Option<Seq<char>>,
    pub storage_dir: Option<Seq<char>>,
}

impl View for BrowserConfig {
    type V = ConfigView;

    open spec fn view(&self) -> ConfigView {
        ConfigView {
            proxy: text::opt(self.proxy),
            stealth: self.stealth,
            user_agent: text::opt(self.user_agent),
            storage_dir: text::opt(self.storage_dir),
        }
    }
}

impl ConfigView {
    /// The settings where nothing is set.
    pub open spec fn plain() -> ConfigView {
        ConfigView { proxy: None, stealth: false, user_agent: None, storage_dir: None }
    }
}

impl Default for BrowserConfig {
    fn default() -> (r: BrowserConfig)
        ensures
            r@ == ConfigView::plain(),
    {
        BrowserConfig { proxy: None, stealth: false, user_agent: None, storage_dir: None }
    }
}

/// A browser: the name and the settings of its context, and the cookie jar of its session,
/// which is only carried along. The cookies that the jar starts with are those in the storage
/// directory, where there is one.
pub struct Browser<J> {
    pub context_id: String,
    pub config: BrowserConfig,
    pub cookie_jar: J,
}

impl<J: Default> Browser<J> {
    /// A browser where nothing is set.
    pub fn new() -> (r: Result<Browser<J>, Error>)
        ensures
            r is Ok && r->Ok_0.context_id@ == "api"@ && r->Ok_0.config@ == ConfigView::plain(),
            call_ensures(J::default, (), r->Ok_0.cookie_jar),
    {
        Browser::build(BrowserConfig::default())
    }

    /// A browser with settings, and with a cookie jar as one is made.
    pub fn build(config: BrowserConfig) -> (r: Result<Browser<J>, Error>)
        ensures
            r is Ok && r->Ok_0.context_id@ == "api"@ && r->Ok_0.config@ == config@,
            call_ensures(J::default, (), r->Ok_0.cookie_jar),
    {
        Ok(Browser { context_id: "api".to_owned(), config, cookie_jar: J::default() })
    }
}

impl<J> Browser<J> {
    /// Starts to set a browser up.
    pub fn builder() -> (r: BrowserBuilder)
        ensures
            r@ == ConfigView::plain(),
    {
        BrowserBuilder::default()
    }

    /// A new page of this session, where `number` is what the counter of pages gave. It goes
    /// with the session's cookie jar.
    pub fn new_page(&self, number: u64) -> (r: Result<Page<'_, J>, Error>)
        ensures
            r is Ok && r->Ok_0.id@ == "page-"@ + text::decimal_text(number as nat),
            *r->Ok_0.cookie_jar == self.cookie_jar,
    {
        Ok(
            Page {
                id: "page-".to_owned().concat(text::decimal(number).as_str()),
                cookie_jar: &self.cookie_jar,
            },
        )
    }

    /// The cookies of this session: those in its cookie jar, which its pages go with too.
    pub fn cookies(&self) -> (r: CookieStore<'_, J>)
        ensures
            *r.jar == self.cookie_jar,
    {
        CookieStore::new(&self.cookie_jar)
    }
}

/// Pages with different numbers have different names.
pub proof fn page_names_differ(a: u64, b: u64)
    requires
        a != b,
    ensures
        "page-"@ + text::decimal_text(a as nat) != "page-"@ + text::decimal_text(b as nat),
{
    let x = "page-"@ + text::decimal_text(a as nat);
    let y = "page-"@ + text::decimal_text(b as nat);
    if x == y {
        let n = "page-"@.len() as int;
        assert(x.skip(n) =~= text::decimal_text(a as nat));
        assert(y.skip(n) =~= text::decimal_text(b as nat));
        text::decimal_text_injective(a as nat, b as nat);
    }
}

/// Settings that are put together one by one.
pub struct BrowserBuilder {
    config: BrowserConfig,
}

impl View for BrowserBuilder {
    type V = ConfigView;

    closed spec fn view(&self) -> ConfigView {
        self.config@
    }
}

impl Default for BrowserBuilder {
    fn default() -> (r: BrowserBuilder)
        ensures
            r@ == ConfigView::plain(),
    {
        BrowserBuilder { config: BrowserConfig::default() }
    }
}

impl BrowserBuilder {
    /// Goes through a proxy.
    pub fn proxy(self, proxy: &str) -> (r: BrowserBuilder)
        ensures
            r@ == (ConfigView { proxy: Some(proxy@), ..self@ }),
    {
        let mut b: BrowserBuilder = self;
        b.config.proxy = Some(proxy.to_owned());
        b
    }

    /// Works in disguise, or not.
    pub fn stealth(self, stealth: bool) -> (r: BrowserBuilder)
        ensures
            r@ == (ConfigView { stealth, ..self@ }),
    {
        let mut b: BrowserBuilder = self;
        b.config.stealth = stealth;
        b
    }

    /// Names a user agent.
    pub fn user_agent(self, ua: &str) -> (r: BrowserBuilder)
        ensures
            r@ == (ConfigView { user_agent: Some(ua@), ..self@ }),
    {
        let mut b: BrowserBuilder = self;
        b.config.user_agent = Some(ua.to_owned());
        b
    }

    /// Keeps what pages store in a directory.
    pub fn storage_dir(self, dir: &str) -> (r: BrowserBuilder)
        ensures
            r@ == (ConfigView { storage_dir: Some(dir@), ..self@ }),
    {
        let mut b: BrowserBuilder = self;
        b.config.storage_dir = Some(dir.to_owned());
        b
    }

    /// The browser with these settings.
    pub fn build<J: Default>(self) -> (r: Result<Browser<J>, Error>)
        ensures
            r is Ok && r->Ok_0.context_id@ == "api"@ && r->Ok_0.config@ == self@,
            call_ensures(J::default, (), r->Ok_0.cookie_jar),
    {
        Browser::build(self.config)
    }
}

} // verus!
