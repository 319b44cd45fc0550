//! What the server knows of its pages and sessions, and where a request goes.

use vstd::prelude::*;
use vstd::string::*;

use crate::assoc::StringMap;
use crate::assoc;
use crate::cdp::types::{CdpEvent, CdpRequest, CdpResponse, EventView, RequestView, ResponseView};
use crate::cdp::types;
use crate::json::{Json, JsonView};
use crate::json;
use crate::text;

verus! {

/// A page: what it goes by, its frame, and whether its scripts have an engine now.
pub struct Page {
    pub id: String,
    pub frame_id: String,
    pub has_js: bool,
}

/// A page, as plain data.
pub struct PageView {
    pub id: Seq<char>,
    pub frame_id: Seq<char>,
    pub has_js: bool,
}

impl View for Page {
    type V = PageView;

    open spec fn view(&self) -> PageView {
        PageView { id: self.id@, frame_id: self.frame_id@, has_js: self.has_js }
    }
}

/// The views of a list of pages.
pub open spec fn page_views(v: Seq<Page>) -> Seq<PageView> {
    v.map_values(|p: Page| p@)
}

/// The first page with a name.
pub open spec fn page_index(pages: Seq<PageView>, id: Seq<char>) -> Option<int>
    decreases pages.len(),
{
    if pages.len() == 0 {
        None
    } else {
        match page_index(pages.drop_last(), id) {
            Some(i) => Some(i),
            None => if pages.last().id == id {
                Some(pages.len() - 1)
            } else {
                None
            },
        }
    }
}

/// The index of a page leads to the first page with that name.
pub proof fn page_index_is_first(pages: Seq<PageView>, id: Seq<char>)
    ensures
        match page_index(pages, id) {
            Some(i) => 0 <= i < pages.len() && pages[i].id == id && forall|j: int|
                0 <= j < i ==> (#[trigger] pages[j]).id != id,
            None => forall|j: int| 0 <= j < pages.len() ==> (#[trigger] pages[j]).id != id,
        },
    decreases pages.len(),
{
    if pages.len() > 0 {
        page_index_is_first(pages.drop_last(), id);
        assert forall|j: int| 0 <= j < pages.len() - 1 implies pages[j]
            == pages.drop_last()[j] by {}
    }
}

/// The settings of the context that pages belong to.
pub struct ContextOptions {
    pub id: String,
    pub proxy: Option<String>,
    pub stealth: bool,
    pub user_agent: Option<String>,
    pub storage_dir: Option<String>,
    pub allow_file_access: bool,
}

/// The settings of the context that pages belong to, as plain data.
pub struct OptionsView {
    pub id: Seq<char>,
    pub proxy: Option<Seq<char>>,
    pub stealth: bool,
    pub user_agent: Option<Seq<char>>,
    pub storage_dir: Option<Seq<char>>,
    pub allow_file_access: bool,
}

impl View for ContextOptions {
    type V = OptionsView;

    open spec fn view(&self) -> OptionsView {
        OptionsView {
            id: self.id@,
            proxy: text::opt(self.proxy),
            stealth: self.stealth,
            user_agent: text::opt(self.user_agent),
            storage_dir: text::opt(self.storage_dir),
            allow_file_access: self.allow_file_access,
        }
    }
}

/// What the server knows of its pages and sessions. `fetch_intercept_enabled` says
/// whether a client wants to decide about requests, and `has_intercept_tx` whether pages
/// can ask.
pub struct CdpContext {
    pub pages: Vec<Page>,
    pub sessions: StringMap,
    pub pending_events: Vec<CdpEvent>,
    pub default_context: ContextOptions,
    page_counter: u32,
    pub preload_scripts: Vec<(String, String)>,
    pub preload_counter: u32,
    pub isolated_worlds: Vec<String>,
    pub valid_context_ids: Vec<i64>,
    pub fetch_intercept_enabled: bool,
    pub has_intercept_tx: bool,
}

/// What the server knows of its pages and sessions, as plain data.
pub struct ContextView {
    pub pages: Seq<PageView>,
    pub sessions: Seq<(Seq<char>, Seq<char>)>,
    pub pending_events: Seq<EventView>,
    pub default_context: OptionsView,
    pub page_counter: u32,
    pub preload_scripts: Seq<(Seq<char>, Seq<char>)>,
    pub preload_counter: u32,
    pub isolated_worlds: Seq<Seq<char>>,
    pub valid_context_ids: Seq<i64>,
    pub fetch_intercept_enabled: bool,
    pub has_intercept_tx: bool,
}

impl View for CdpContext {
    type V = ContextView;

    closed spec fn view(&self) -> ContextView {
        ContextView {
            pages: page_views(self.pages@),
            sessions: self.sessions@,
            pending_events: types::event_views(self.pending_events@),
            default_context: self.default_context@,
            page_counter: self.page_counter,
            preload_scripts: assoc::entry_views(self.preload_scripts@),
            preload_counter: self.preload_counter,
            isolated_worlds: text::texts(self.isolated_worlds@),
            valid_context_ids: self.valid_context_ids@,
            fetch_intercept_enabled: self.fetch_intercept_enabled,
            has_intercept_tx: self.has_intercept_tx,
        }
    }
}

/// What the nth page goes by.
pub open spec fn page_name(n: nat) -> Seq<char> {
    "page-"@ + text::decimal_text(n)
}

/// Whether a name is one of the first `counter` page names.
pub open spec fn given_out(id: Seq<char>, counter: u32) -> bool {
    exists|n: nat| 1 <= n <= counter && id == #[trigger] page_name(n)
}

impl ContextView {
    /// A context without pages.
    pub open spec fn fresh(options: OptionsView) -> ContextView {
        ContextView {
            pages: Seq::empty(),
            sessions: Seq::empty(),
            pending_events: Seq::empty(),
            default_context: options,
            page_counter: 0,
            preload_scripts: Seq::empty(),
            preload_counter: 0,
            isolated_worlds: Seq::empty(),
            valid_context_ids: seq![1i64, 2i64],
            fetch_intercept_enabled: false,
            has_intercept_tx: false,
        }
    }

    /// Whether every page has a name of its own that was given out.
    pub open spec fn well_formed(self) -> bool {
        &&& forall|i: int|
            0 <= i < self.pages.len() ==> given_out((#[trigger] self.pages[i]).id, self.page_counter)
        &&& forall|i: int, j: int|
            0 <= i < j < self.pages.len() ==> (#[trigger] self.pages[i]).id != (
            #[trigger] self.pages[j]).id
    }

    /// The name of the page that a session is for.
    pub open spec fn session_page_name(self, session_id: Option<Seq<char>>) -> Option<Seq<char>> {
        match session_id {
            Some(s) => assoc::lookup(self.sessions, s),
            None => None,
        }
    }

    /// The place of the page that a session is for.
    pub open spec fn session_page(self, session_id: Option<Seq<char>>) -> Option<int> {
        match self.session_page_name(session_id) {
            Some(id) => page_index(self.pages, id),
            None => None,
        }
    }
}

/// Pages without those of a name.
pub open spec fn pages_without(pages: Seq<PageView>, id: Seq<char>) -> Seq<PageView>
    decreases pages.len(),
{
    if pages.len() == 0 {
        pages
    } else if pages.last().id == id {
        pages_without(pages.drop_last(), id)
    } else {
        pages_without(pages.drop_last(), id).push(pages.last())
    }
}

/// Settings for the default context.
pub open spec fn default_options(
    proxy: Option<Seq<char>>,
    stealth: bool,
    user_agent: Option<Seq<char>>,
    storage_dir: Option<Seq<char>>,
    allow_file_access: bool,
) -> OptionsView {
    OptionsView {
        id: "default"@,
        proxy,
        stealth,
        user_agent,
        storage_dir,
        allow_file_access,
    }
}

impl CdpContext {
    /// A context without a proxy.
    pub fn new() -> (r: CdpContext)
        ensures
            r@ == ContextView::fresh(default_options(None, false, None, None, false)),
    {
        CdpContext::new_with_options(None, false)
    }

    /// A context that goes through a proxy, where there is one.
    pub fn new_with_proxy(proxy: Option<String>) -> (r: CdpContext)
        ensures
            r@ == ContextView::fresh(default_options(text::opt(proxy), false, None, None, false)),
    {
        CdpContext::new_with_options(proxy, false)
    }

    /// A context with a proxy and perhaps in disguise.
    pub fn new_with_options(proxy: Option<String>, stealth: bool) -> (r: CdpContext)
        ensures
            r@ == ContextView::fresh(default_options(text::opt(proxy), stealth, None, None, false)),
    {
        CdpContext::new_with_full_options(proxy, stealth, None)
    }

    /// A context with a user agent of its own.
    pub fn new_with_full_options(
        proxy: Option<String>,
        stealth: bool,
        user_agent: Option<String>,
    ) -> (r: CdpContext)
        ensures
            r@ == ContextView::fresh(
                default_options(text::opt(proxy), stealth, text::opt(user_agent), None, false),
            ),
    {
        CdpContext::new_with_security(proxy, stealth, user_agent, false)
    }

    /// A context that keeps what pages store.
    pub fn new_with_storage(
        proxy: Option<String>,
        stealth: bool,
        user_agent: Option<String>,
        storage_dir: Option<String>,
    ) -> (r: CdpContext)
        ensures
            r@ == ContextView::fresh(
                default_options(
                    text::opt(proxy),
                    stealth,
                    text::opt(user_agent),
                    text::opt(storage_dir),
                    false,
                ),
            ),
    {
        CdpContext::_new_inner(proxy, stealth, user_agent, storage_dir, false)
    }

    /// A context whose pages may read files, or not.
    pub fn new_with_security(
        proxy: Option<String>,
        stealth: bool,
        user_agent: Option<String>,
        allow_file_access: bool,
    ) -> (r: CdpContext)
        ensures
            r@ == ContextView::fresh(
                default_options(
                    text::opt(proxy),
                    stealth,
                    text::opt(user_agent),
                    None,
                    allow_file_access,
                ),
            ),
    {
        CdpContext::_new_inner(proxy, stealth, user_agent, None, allow_file_access)
    }

    fn _new_inner(
        proxy: Option<String>,
        stealth: bool,
        user_agent: Option<String>,
        storage_dir: Option<String>,
        allow_file_access: bool,
    ) -> (r: CdpContext)
        ensures
            r@ == ContextView::fresh(
                default_options(
                    text::opt(proxy),
                    stealth,
                    text::opt(user_agent),
                    text::opt(storage_dir),
                    allow_file_access,
                ),
            ),
    {
        let mut valid_context_ids: Vec<i64> = Vec::new();
        valid_context_ids.push(1);
        valid_context_ids.push(2);
        let r: CdpContext = CdpContext {
            pages: Vec::new(),
            sessions: StringMap::new(),
            pending_events: Vec::new(),
            default_context: ContextOptions {
                id: "default".to_owned(),
                proxy,
                stealth,
                user_agent,
                storage_dir,
                allow_file_access,
            },
            page_counter: 0,
            preload_scripts: Vec::new(),
            preload_counter: 0,
            isolated_worlds: Vec::new(),
            valid_context_ids,
            fetch_intercept_enabled: false,
            has_intercept_tx: false,
        };
        assert(r@.pages =~= Seq::empty());
        assert(r@.pending_events =~= Seq::empty());
        assert(r@.preload_scripts =~= Seq::empty());
        assert(r@.isolated_worlds =~= Seq::empty());
        assert(r@.valid_context_ids =~= seq![1i64, 2i64]);
        r
    }

    /// Makes a page whose frame is not known yet. The name that it goes by was never given
    /// out before.
    pub fn create_page(&mut self) -> (r: String)
        requires
            old(self)@.page_counter < u32::MAX,
        ensures
            r@ == page_name((old(self)@.page_counter + 1) as nat),
            final(self)@ == (ContextView {
                page_counter: (old(self)@.page_counter + 1) as u32,
                pages: old(self)@.pages.push(
                    PageView { id: r@, frame_id: Seq::empty(), has_js: false },
                ),
                ..old(self)@
            }),
    {
        self.page_counter = self.page_counter + 1;
        let id: String = "page-".to_owned().concat(text::decimal(self.page_counter as u64).as_str());
        let page: Page = Page { id: id.clone(), frame_id: String::new(), has_js: false };
        let ghost p = page@;
        self.pages.push(page);
        assert(self@.pages =~= old(self)@.pages.push(p));
        id
    }

    /// Whether there is a name left for one more page.
    pub fn can_create_page(&self) -> (r: bool)
        ensures
            r == (self@.page_counter < u32::MAX),
    {
        self.page_counter < u32::MAX
    }

    fn find_page(&self, id: &str) -> (r: Option<usize>)
        ensures
            match r {
                Some(i) => i < self.pages.len() && page_index(self@.pages, id@) == Some(i as int),
                None => page_index(self@.pages, id@) is None,
            },
    {
        proof {
            page_index_is_first(self@.pages, id@);
        }
        let mut i: usize = 0;
        while i < self.pages.len()
            invariant
                i <= self.pages.len(),
                self@.pages == page_views(self.pages@),
                forall|j: int| 0 <= j < i ==> (#[trigger] self@.pages[j]).id != id@,
                match page_index(self@.pages, id@) {
                    Some(k) => 0 <= k < self@.pages.len() && self@.pages[k].id == id@ && forall|
                        j: int,
                    |
                        0 <= j < k ==> (#[trigger] self@.pages[j]).id != id@,
                    None => forall|j: int|
                        0 <= j < self@.pages.len() ==> (#[trigger] self@.pages[j]).id != id@,
                },
            decreases self.pages.len() - i,
        {
            assert(self@.pages[i as int].id == self.pages[i as int].id@);
            if text::same(self.pages[i].id.as_str(), id) {
                return Some(i);
            }
            i += 1;
        }
        None
    }

    /// The page with a name.
    pub fn get_page(&self, id: &str) -> (r: Option<&Page>)
        ensures
            match r {
                Some(p) => page_index(self@.pages, id@) is Some && p@ == self@.pages[page_index(
                    self@.pages,
                    id@,
                )->0],
                None => page_index(self@.pages, id@) is None,
            },
    {
        match self.find_page(id) {
            Some(i) => Some(&self.pages[i]),
            None => None,
        }
    }

    /// The page with a name, to be changed.
    pub fn get_page_mut(&mut self, id: &str) -> (r: Option<&mut Page>)
        ensures
            match r {
                Some(p) => {
                    let i = page_index(old(self)@.pages, id@);
                    &&& i is Some
                    &&& p@ == old(self)@.pages[i->0]
                    &&& final(self)@ == (ContextView {
                        pages: old(self)@.pages.update(i->0, final(p)@),
                        ..old(self)@
                    })
                },
                None => page_index(old(self)@.pages, id@) is None && final(self)@ == old(self)@,
            },
    {
        match self.find_page(id) {
            Some(i) => {
                proof {
                    let v = self.pages@;
                    assert forall|p: Page|
                        #[trigger] page_views(v.update(i as int, p)) == page_views(v).update(
                            i as int,
                            p@,
                        ) by {
                        assert(page_views(v.update(i as int, p)) =~= page_views(v).update(
                            i as int,
                            p@,
                        ));
                    }
                }
                Some(&mut self.pages[i])
            },
            None => None,
        }
    }
}

/// What is to be done to the pages' engines before a page is used, by the pages' names:
/// those to put to sleep, one to wake, and the page itself.
pub struct PageSwitch {
    pub suspend: Vec<String>,
    pub resume: Option<String>,
    pub page: Option<String>,
}

/// Whether a page with a name has an engine.
pub open spec fn live_with_name(pages: Seq<PageView>, id: Seq<char>) -> bool {
    exists|i: int| 0 <= i < pages.len() && (#[trigger] pages[i]).id == id && pages[i].has_js
}

/// A page without an engine.
pub open spec fn asleep(p: PageView) -> PageView {
    PageView { has_js: false, ..p }
}

/// A page, without an engine unless it goes by a name.
pub open spec fn asleep_unless(p: PageView, id: Seq<char>) -> PageView {
    if p.id == id {
        p
    } else {
        asleep(p)
    }
}

/// Pages with the engines of all that go by another name put to sleep.
pub open spec fn others_asleep(pages: Seq<PageView>, id: Seq<char>) -> Seq<PageView> {
    pages.map_values(|p: PageView| asleep_unless(p, id))
}

/// The names of the pages that have an engine and go by another name.
pub open spec fn other_live_names(pages: Seq<PageView>, id: Seq<char>) -> Seq<Seq<char>>
    decreases pages.len(),
{
    if pages.len() == 0 {
        Seq::empty()
    } else if pages.last().has_js && pages.last().id != id {
        other_live_names(pages.drop_last(), id).push(pages.last().id)
    } else {
        other_live_names(pages.drop_last(), id)
    }
}

/// The name of the page at a place, where there is a place.
pub open spec fn name_at(pages: Seq<PageView>, i: Option<int>) -> Option<Seq<char>> {
    match i {
        Some(k) => Some(pages[k].id),
        None => None,
    }
}

/// At most one page has an engine.
pub open spec fn one_live_at_most(pages: Seq<PageView>) -> bool {
    forall|i: int, j: int|
        0 <= i < j < pages.len() ==> !((#[trigger] pages[i]).has_js && (
        #[trigger] pages[j]).has_js)
}

impl CdpContext {
    /// Takes out the pages with a name, and the sessions that are for them.
    pub fn remove_page(&mut self, id: &str)
        ensures
            final(self)@ == (ContextView {
                pages: pages_without(old(self)@.pages, id@),
                sessions: assoc::without(
                    old(self)@.sessions,
                    |k: Seq<char>, v: Seq<char>| v == id@,
                ),
                ..old(self)@
            }),
    {
        let ghost before = self@;
        let mut kept: Vec<Page> = Vec::new();
        let mut i: usize = 0;
        while i < self.pages.len()
            invariant
                i <= self.pages.len(),
                self@ == before,
                before.pages == page_views(self.pages@),
                page_views(kept@) == pages_without(before.pages.subrange(0, i as int), id@),
            decreases self.pages.len() - i,
        {
            assert(before.pages.subrange(0, i + 1).drop_last() =~= before.pages.subrange(
                0,
                i as int,
            ));
            if !text::same(self.pages[i].id.as_str(), id) {
                let ghost so_far = kept@;
                let page: Page = Page {
                    id: self.pages[i].id.clone(),
                    frame_id: self.pages[i].frame_id.clone(),
                    has_js: self.pages[i].has_js,
                };
                let ghost p = page@;
                kept.push(page);
                assert(page_views(kept@) =~= page_views(so_far).push(p));
            }
            i += 1;
        }
        assert(before.pages.subrange(0, i as int) =~= before.pages);
        self.pages = kept;
        self.sessions.remove_value(id);
    }

    /// The page that a session is for.
    pub fn get_session_page(&self, session_id: &Option<String>) -> (r: Option<&Page>)
        ensures
            match r {
                Some(p) => self@.session_page(text::opt(*session_id)) is Some && p@
                    == self@.pages[self@.session_page(text::opt(*session_id))->0],
                None => self@.session_page(text::opt(*session_id)) is None,
            },
    {
        match session_id {
            Some(s) => match self.sessions.get(s.as_str()) {
                Some(id) => self.get_page(id),
                None => None,
            },
            None => None,
        }
    }

    fn is_live(&self, id: &str) -> (r: bool)
        ensures
            r == live_with_name(self@.pages, id@),
    {
        let mut i: usize = 0;
        while i < self.pages.len()
            invariant
                i <= self.pages.len(),
                self@.pages == page_views(self.pages@),
                forall|j: int|
                    0 <= j < i ==> (#[trigger] self@.pages[j]).id != id@ || !self@.pages[j].has_js,
            decreases self.pages.len() - i,
        {
            assert(self@.pages[i as int] == self.pages[i as int]@);
            if text::same(self.pages[i].id.as_str(), id) && self.pages[i].has_js {
                return true;
            }
            i += 1;
        }
        false
    }

    /// Puts the engine of the page at a place to sleep and tells its name.
    fn put_to_sleep(&mut self, i: usize) -> (r: String)
        requires
            i < old(self).pages.len(),
        ensures
            r@ == old(self)@.pages[i as int].id,
            final(self)@ == (ContextView {
                pages: old(self)@.pages.update(i as int, asleep(old(self)@.pages[i as int])),
                ..old(self)@
            }),
            final(self).pages.len() == old(self).pages.len(),
    {
        let name: String = self.pages[i].id.clone();
        let page: Page = Page {
            id: self.pages[i].id.clone(),
            frame_id: self.pages[i].frame_id.clone(),
            has_js: false,
        };
        let ghost p = page@;
        self.pages.set(i, page);
        assert(self@.pages =~= old(self)@.pages.update(i as int, p));
        name
    }

    /// Puts the engines of all pages that go by another name to sleep and tells their names.
    fn suspend_others(&mut self, id: &str) -> (r: Vec<String>)
        ensures
            final(self)@ == (ContextView {
                pages: others_asleep(old(self)@.pages, id@),
                ..old(self)@
            }),
            text::texts(r@) == other_live_names(old(self)@.pages, id@),
    {
        let ghost before = self@;
        let mut out: Vec<String> = Vec::new();
        let mut i: usize = 0;
        assert(before.pages.subrange(0, 0) =~= Seq::empty());
        assert(text::texts(out@) =~= other_live_names(before.pages.subrange(0, 0), id@));
        assert(others_asleep(before.pages.subrange(0, 0), id@) + before.pages.subrange(
            0,
            before.pages.len() as int,
        ) =~= before.pages);
        while i < self.pages.len()
            invariant
                i <= self.pages.len(),
                self.pages.len() == before.pages.len(),
                self@ == (ContextView { pages: self@.pages, ..before }),
                self@.pages == page_views(self.pages@),
                self@.pages == others_asleep(before.pages.subrange(0, i as int), id@)
                    + before.pages.subrange(i as int, before.pages.len() as int),
                text::texts(out@) == other_live_names(before.pages.subrange(0, i as int), id@),
            decreases self.pages.len() - i,
        {
            let ghost now = self@.pages;
            assert(before.pages.subrange(0, i + 1).drop_last() =~= before.pages.subrange(
                0,
                i as int,
            ));
            assert(now[i as int] == before.pages[i as int]);
            if self.pages[i].has_js && !text::same(self.pages[i].id.as_str(), id) {
                let name: String = self.put_to_sleep(i);
                text::push_text(&mut out, name);
            }
            assert(self@.pages =~= others_asleep(before.pages.subrange(0, i + 1), id@)
                + before.pages.subrange(i + 1, before.pages.len() as int));
            i += 1;
        }
        assert(before.pages.subrange(0, i as int) =~= before.pages);
        assert(self@.pages =~= others_asleep(before.pages, id@));
        out
    }

    /// Gets the page that a session is for ready to run scripts: every other page loses its
    /// engine, and the page itself is to be woken where it has none.
    pub fn get_session_page_mut(&mut self, session_id: &Option<String>) -> (r: PageSwitch)
        ensures
            match old(self)@.session_page_name(text::opt(*session_id)) {
                None => final(self)@ == old(self)@ && r.suspend@.len() == 0 && r.resume is None
                    && r.page is None,
                Some(id) => {
                    let pages = old(self)@.pages;
                    let page = page_index(pages, id);
                    &&& final(self)@ == (ContextView {
                        pages: others_asleep(pages, id),
                        ..old(self)@
                    })
                    &&& text::texts(r.suspend@) == other_live_names(pages, id)
                    &&& text::opt(r.page) == name_at(pages, page)
                    &&& text::opt(r.resume) == if live_with_name(pages, id) {
                        None
                    } else {
                        name_at(pages, page)
                    }
                },
            },
    {
        let id: String = match session_id {
            Some(s) => match self.sessions.get(s.as_str()) {
                Some(id) => id.to_owned(),
                None => {
                    return PageSwitch { suspend: Vec::new(), resume: None, page: None };
                },
            },
            None => {
                return PageSwitch { suspend: Vec::new(), resume: None, page: None };
            },
        };
        let page: Option<String> = match self.find_page(id.as_str()) {
            Some(i) => Some(self.pages[i].id.clone()),
            None => None,
        };
        let resume: Option<String> = if self.is_live(id.as_str()) {
            None
        } else {
            text::clone_opt(&page)
        };
        let suspend: Vec<String> = self.suspend_others(id.as_str());
        PageSwitch { suspend, resume, page }
    }

    /// Puts every engine to sleep and tells the names of the pages that had one.
    pub fn suspend_all(&mut self) -> (r: Vec<String>)
        ensures
            final(self)@ == (ContextView {
                pages: all_asleep(old(self)@.pages),
                ..old(self)@
            }),
            text::texts(r@) == live_names(old(self)@.pages),
    {
        let ghost before = self@;
        let mut out: Vec<String> = Vec::new();
        let mut i: usize = 0;
        assert(before.pages.subrange(0, 0) =~= Seq::empty());
        assert(text::texts(out@) =~= live_names(before.pages.subrange(0, 0)));
        assert(all_asleep(before.pages.subrange(0, 0)) + before.pages.subrange(
            0,
            before.pages.len() as int,
        ) =~= before.pages);
        while i < self.pages.len()
            invariant
                i <= self.pages.len(),
                self.pages.len() == before.pages.len(),
                self@ == (ContextView { pages: self@.pages, ..before }),
                self@.pages == page_views(self.pages@),
                self@.pages == all_asleep(before.pages.subrange(0, i as int))
                    + before.pages.subrange(i as int, before.pages.len() as int),
                text::texts(out@) == live_names(before.pages.subrange(0, i as int)),
            decreases self.pages.len() - i,
        {
            let ghost now = self@.pages;
            assert(before.pages.subrange(0, i + 1).drop_last() =~= before.pages.subrange(
                0,
                i as int,
            ));
            assert(now[i as int] == before.pages[i as int]);
            if self.pages[i].has_js {
                let ghost so_far = out@;
                let name: String = self.put_to_sleep(i);
                out.push(name);
                assert(text::texts(out@) =~= text::texts(so_far).push(name@));
            }
            assert(self@.pages =~= all_asleep(before.pages.subrange(0, i + 1))
                + before.pages.subrange(i + 1, before.pages.len() as int));
            i += 1;
        }
        assert(before.pages.subrange(0, i as int) =~= before.pages);
        assert(self@.pages =~= all_asleep(before.pages));
        out
    }

    /// Takes the events that wait to be sent, as text, in the order in which they came.
    pub fn drain_events(&mut self) -> (r: Vec<String>)
        ensures
            final(self)@ == (ContextView { pending_events: Seq::empty(), ..old(self)@ }),
            text::texts(r@) == event_texts(old(self)@.pending_events),
    {
        let ghost before = self@;
        let mut out: Vec<String> = Vec::new();
        let mut i: usize = 0;
        while i < self.pending_events.len()
            invariant
                i <= self.pending_events.len(),
                self@ == before,
                before.pending_events == types::event_views(self.pending_events@),
                text::texts(out@) == event_texts(before.pending_events.subrange(0, i as int)),
            decreases self.pending_events.len() - i,
        {
            let ghost so_far = out@;
            let t: String = self.pending_events[i].to_text();
            out.push(t);
            assert(text::texts(out@) =~= text::texts(so_far).push(t@));
            assert(event_texts(before.pending_events.subrange(0, i + 1)) =~= event_texts(
                before.pending_events.subrange(0, i as int),
            ).push(t@));
            i += 1;
        }
        assert(before.pending_events.subrange(0, i as int) =~= before.pending_events);
        self.pending_events = Vec::new();
        assert(self@.pending_events =~= Seq::empty());
        out
    }

    /// Takes out the first page with a name.
    pub fn take_page(&mut self, id: &str) -> (r: Option<Page>)
        ensures
            match page_index(old(self)@.pages, id@) {
                Some(i) => {
                    &&& r is Some
                    &&& r->0@ == old(self)@.pages[i]
                    &&& final(self)@ == (ContextView {
                        pages: old(self)@.pages.remove(i),
                        ..old(self)@
                    })
                },
                None => r is None && final(self)@ == old(self)@,
            },
    {
        match self.find_page(id) {
            Some(i) => {
                proof {
                    page_index_is_first(self@.pages, id@);
                }
                let page: Page = self.pages.remove(i);
                assert(self@.pages =~= old(self)@.pages.remove(i as int));
                Some(page)
            },
            None => None,
        }
    }

    /// Puts a page behind the others.
    pub fn return_page(&mut self, page: Page)
        ensures
            final(self)@ == (ContextView { pages: old(self)@.pages.push(page@), ..old(self)@ }),
    {
        let ghost p = page@;
        self.pages.push(page);
        assert(self@.pages =~= old(self)@.pages.push(p));
    }

    /// Makes a page and a session for it, and tells the names of both.
    pub fn create_page_with_session(&mut self) -> (r: (String, String))
        requires
            old(self)@.page_counter < u32::MAX,
        ensures
            r.0@ == page_name((old(self)@.page_counter + 1) as nat),
            r.1@ == r.0@ + "-session"@,
            final(self)@ == (ContextView {
                page_counter: (old(self)@.page_counter + 1) as u32,
                pages: old(self)@.pages.push(
                    PageView { id: r.0@, frame_id: Seq::empty(), has_js: false },
                ),
                sessions: assoc::with(old(self)@.sessions, r.1@, r.0@),
                ..old(self)@
            }),
    {
        let page_id: String = self.create_page();
        let session_id: String = page_id.as_str().to_owned().concat("-session");
        self.sessions.insert(session_id.as_str(), page_id.as_str());
        (page_id, session_id)
    }

    /// The name of the page that a session is for, whether or not there is such a page.
    pub fn session_page_name(&self, session_id: &Option<String>) -> (r: Option<String>)
        ensures
            text::opt(r) == self@.session_page_name(text::opt(*session_id)),
    {
        match session_id {
            Some(s) => match self.sessions.get(s.as_str()) {
                Some(id) => Some(id.to_owned()),
                None => None,
            },
            None => None,
        }
    }

    /// The sources of the scripts that run before those of a page.
    pub fn preload_sources(&self) -> (r: Vec<String>)
        ensures
            text::texts(r@) == sources(self@.preload_scripts),
    {
        let mut out: Vec<String> = Vec::new();
        let mut i: usize = 0;
        while i < self.preload_scripts.len()
            invariant
                i <= self.preload_scripts.len(),
                self@.preload_scripts == assoc::entry_views(self.preload_scripts@),
                text::texts(out@) == sources(self@.preload_scripts.subrange(0, i as int)),
            decreases self.preload_scripts.len() - i,
        {
            let ghost so_far = out@;
            let source: String = self.preload_scripts[i].1.clone();
            out.push(source);
            assert(text::texts(out@) =~= text::texts(so_far).push(source@));
            assert(sources(self@.preload_scripts.subrange(0, i + 1)) =~= sources(
                self@.preload_scripts.subrange(0, i as int),
            ).push(source@));
            i += 1;
        }
        assert(self@.preload_scripts.subrange(0, i as int) =~= self@.preload_scripts);
        out
    }

    /// Whether a client wants to decide about requests.
    pub fn intercepts(&self) -> (r: bool)
        ensures
            r == self@.fetch_intercept_enabled,
    {
        self.fetch_intercept_enabled
    }

    /// Says whether a client wants to decide about requests.
    pub fn set_intercepts(&mut self, enabled: bool)
        ensures
            final(self)@ == (ContextView { fetch_intercept_enabled: enabled, ..old(self)@ }),
    {
        self.fetch_intercept_enabled = enabled;
    }

    /// Whether pages can ask about requests.
    pub fn can_ask(&self) -> (r: bool)
        ensures
            r == self@.has_intercept_tx,
    {
        self.has_intercept_tx
    }

    /// Lets pages ask about requests.
    pub fn let_ask(&mut self)
        ensures
            final(self)@ == (ContextView { has_intercept_tx: true, ..old(self)@ }),
    {
        self.has_intercept_tx = true;
    }

    /// Adds an event to those that wait to be sent.
    fn push_event(&mut self, event: CdpEvent)
        ensures
            final(self)@ == (ContextView {
                pending_events: old(self)@.pending_events.push(event@),
                ..old(self)@
            }),
    {
        let ghost e = event@;
        self.pending_events.push(event);
        assert(self@.pending_events =~= old(self)@.pending_events.push(e));
    }
}

/// Pages, none of which has an engine.
pub open spec fn all_asleep(pages: Seq<PageView>) -> Seq<PageView> {
    pages.map_values(|p: PageView| asleep(p))
}

/// The names of the pages that have an engine.
pub open spec fn live_names(pages: Seq<PageView>) -> Seq<Seq<char>>
    decreases pages.len(),
{
    if pages.len() == 0 {
        Seq::empty()
    } else if pages.last().has_js {
        live_names(pages.drop_last()).push(pages.last().id)
    } else {
        live_names(pages.drop_last())
    }
}

/// The sources in a list of named scripts.
pub open spec fn sources(v: Seq<(Seq<char>, Seq<char>)>) -> Seq<Seq<char>> {
    v.map_values(|e: (Seq<char>, Seq<char>)| e.1)
}

/// The texts of a list of events.
pub open spec fn event_texts(v: Seq<EventView>) -> Seq<Seq<char>> {
    v.map_values(|e: EventView| e.to_text())
}

/// Page names are given out once: the next one is not in use, and a context with a page
/// more is well-formed again.
pub proof fn new_page_is_new(c: ContextView, page: PageView)
    requires
        c.well_formed(),
        c.page_counter < u32::MAX,
        page.id == page_name((c.page_counter + 1) as nat),
    ensures
        page_index(c.pages, page.id) is None,
        (ContextView {
            page_counter: (c.page_counter + 1) as u32,
            pages: c.pages.push(page),
            ..c
        }).well_formed(),
{
    let next = (c.page_counter + 1) as nat;
    let pages = c.pages.push(page);
    assert forall|i: int| 0 <= i < c.pages.len() implies (#[trigger] c.pages[i]).id
        != page.id by {
        assert(given_out(c.pages[i].id, c.page_counter));
        let n = choose|n: nat|
            1 <= n <= c.page_counter && c.pages[i].id == #[trigger] page_name(n);
        if c.pages[i].id == page.id {
            assert(page_name(n).skip("page-"@.len() as int) =~= text::decimal_text(n));
            assert(page_name(next).skip("page-"@.len() as int) =~= text::decimal_text(next));
            text::decimal_text_injective(n, next);
        }
    }
    page_index_is_first(c.pages, page.id);
    assert forall|i: int| 0 <= i < pages.len() implies given_out(
        (#[trigger] pages[i]).id,
        next as u32,
    ) by {
        if i < c.pages.len() {
            assert(pages[i] == c.pages[i]);
            assert(given_out(c.pages[i].id, c.page_counter));
            let n = choose|n: nat|
                1 <= n <= c.page_counter && c.pages[i].id == #[trigger] page_name(n);
            assert(pages[i].id == page_name(n));
        } else {
            assert(pages[i].id == page_name(next));
        }
    }
    assert forall|i: int, j: int| 0 <= i < j < pages.len() implies (#[trigger] pages[i]).id != (
    #[trigger] pages[j]).id by {
        assert(pages[i] == c.pages[i]);
        if j < c.pages.len() {
            assert(pages[j] == c.pages[j]);
        }
    }
}

/// The pages that are left when those with a name are taken out, and that the others stay.
proof fn pages_without_keeps(pages: Seq<PageView>, id: Seq<char>)
    ensures
        forall|i: int|
            0 <= i < pages_without(pages, id).len() ==> pages.contains(
                #[trigger] pages_without(pages, id)[i],
            ),
        forall|i: int|
            0 <= i < pages_without(pages, id).len() ==> (#[trigger] pages_without(
                pages,
                id,
            )[i]).id != id,
        forall|i: int|
            0 <= i < pages.len() && (#[trigger] pages[i]).id != id ==> pages_without(
                pages,
                id,
            ).contains(pages[i]),
    decreases pages.len(),
{
    if pages.len() > 0 {
        let init = pages.drop_last();
        pages_without_keeps(init, id);
        let w = pages_without(pages, id);
        let v = pages_without(init, id);
        assert forall|i: int| 0 <= i < w.len() implies pages.contains(#[trigger] w[i]) by {
            if i < v.len() {
                assert(w[i] == v[i]);
                let k = choose|k: int| 0 <= k < init.len() && init[k] == v[i];
                assert(pages[k] == w[i]);
            } else {
                assert(pages[pages.len() - 1] == w[i]);
            }
        }
        assert forall|i: int| 0 <= i < pages.len() && (#[trigger] pages[i]).id
            != id implies w.contains(pages[i]) by {
            if i < init.len() {
                assert(init[i] == pages[i]);
                let k = choose|k: int| 0 <= k < v.len() && v[k] == pages[i];
                assert(w[k] == pages[i]);
            } else {
                assert(w[w.len() - 1] == pages[i]);
            }
        }
    }
}

/// Pages with names of their own keep them when some are taken out.
proof fn pages_without_distinct(pages: Seq<PageView>, id: Seq<char>)
    requires
        forall|i: int, j: int|
            0 <= i < j < pages.len() ==> (#[trigger] pages[i]).id != (#[trigger] pages[j]).id,
    ensures
        forall|i: int, j: int|
            0 <= i < j < pages_without(pages, id).len() ==> (#[trigger] pages_without(
                pages,
                id,
            )[i]).id != (#[trigger] pages_without(pages, id)[j]).id,
    decreases pages.len(),
{
    if pages.len() > 0 {
        let init = pages.drop_last();
        assert forall|i: int, j: int| 0 <= i < j < init.len() implies (#[trigger] init[i]).id != (
        #[trigger] init[j]).id by {
            assert(init[i] == pages[i] && init[j] == pages[j]);
        }
        pages_without_distinct(init, id);
        pages_without_keeps(init, id);
        let w = pages_without(pages, id);
        let v = pages_without(init, id);
        assert forall|i: int, j: int| 0 <= i < j < w.len() implies (#[trigger] w[i]).id != (
        #[trigger] w[j]).id by {
            assert(w[i] == v[i]);
            if j < v.len() {
                assert(w[j] == v[j]);
            } else {
                let k = choose|k: int| 0 <= k < init.len() && init[k] == v[i];
                assert(pages[k].id != pages[pages.len() - 1].id);
            }
        }
    }
}

/// A page that was taken out is gone: no page has its name and no session leads to it;
/// the pages with other names stay, and a well-formed context stays well-formed.
pub proof fn removed_page_is_gone(c: ContextView, id: Seq<char>, session_id: Option<Seq<char>>)
    ensures
        ({
            let after = ContextView {
                pages: pages_without(c.pages, id),
                sessions: assoc::without(c.sessions, |k: Seq<char>, v: Seq<char>| v == id),
                ..c
            };
            &&& page_index(after.pages, id) is None
            &&& after.session_page_name(session_id) != Some(id)
            &&& forall|i: int|
                0 <= i < c.pages.len() && (#[trigger] c.pages[i]).id != id ==> after.pages.contains(
                    c.pages[i],
                )
            &&& c.well_formed() ==> after.well_formed()
        }),
{
    let left = pages_without(c.pages, id);
    pages_without_keeps(c.pages, id);
    if c.well_formed() {
        pages_without_distinct(c.pages, id);
        assert forall|i: int| 0 <= i < left.len() implies given_out(
            (#[trigger] left[i]).id,
            c.page_counter,
        ) by {
            let k = choose|k: int| 0 <= k < c.pages.len() && c.pages[k] == left[i];
            assert(given_out(c.pages[k].id, c.page_counter));
        }
    }
    page_index_is_first(left, id);
    if page_index(left, id) is Some {
        assert(left[page_index(left, id)->0].id != id);
    }
    let gone = |k: Seq<char>, v: Seq<char>| v == id;
    let sessions = assoc::without(c.sessions, gone);
    assoc::without_drops(c.sessions, gone);
    if let Some(s) = session_id {
        assoc::place_is_last(sessions, s);
        if let Some(k) = assoc::place(sessions, s) {
            assert(!gone(sessions[k].0, sessions[k].1));
        }
    }
}

/// A context whose pages go by the names of a well-formed context's pages is well-formed.
proof fn same_names_same_form(c: ContextView, d: ContextView)
    requires
        c.well_formed(),
        d.page_counter == c.page_counter,
        d.pages.len() == c.pages.len(),
        forall|i: int| 0 <= i < d.pages.len() ==> (#[trigger] d.pages[i]).id == c.pages[i].id,
    ensures
        d.well_formed(),
{
    assert forall|i: int| 0 <= i < d.pages.len() implies given_out(
        (#[trigger] d.pages[i]).id,
        d.page_counter,
    ) by {
        assert(given_out(c.pages[i].id, c.page_counter));
    }
    assert forall|i: int, j: int| 0 <= i < j < d.pages.len() implies (#[trigger] d.pages[i]).id != (
    #[trigger] d.pages[j]).id by {
        assert(c.pages[i].id != c.pages[j].id);
    }
}

/// Getting a page ready keeps every page under its name, so that a well-formed context stays
/// well-formed.
pub proof fn switching_keeps_names(c: ContextView, id: Seq<char>)
    ensures
        ({
            let pages = others_asleep(c.pages, id);
            &&& pages.len() == c.pages.len()
            &&& forall|i: int| 0 <= i < pages.len() ==> (#[trigger] pages[i]).id == c.pages[i].id
            &&& c.well_formed() ==> (ContextView { pages, ..c }).well_formed()
        }),
{
    let pages = others_asleep(c.pages, id);
    assert forall|i: int| 0 <= i < pages.len() implies (#[trigger] pages[i]).id
        == c.pages[i].id by {}
    if c.well_formed() {
        same_names_same_form(c, ContextView { pages, ..c });
    }
}

/// Getting a page ready leaves no other page with an engine, however many had one: before the
/// page itself is woken, and after, at most one page has an engine.
pub proof fn one_engine_at_a_time(c: ContextView, id: Seq<char>, woken: PageView)
    requires
        c.well_formed(),
    ensures
        ({
            let pages = others_asleep(c.pages, id);
            &&& forall|i: int|
                0 <= i < pages.len() && (#[trigger] pages[i]).has_js ==> pages[i].id == id
            &&& one_live_at_most(pages)
            &&& page_index(c.pages, id) matches Some(k) ==> one_live_at_most(
                pages.update(k, woken),
            )
        }),
{
    let pages = others_asleep(c.pages, id);
    switching_keeps_names(c, id);
    page_index_is_first(c.pages, id);
    assert forall|i: int, j: int| 0 <= i < j < pages.len() implies !((#[trigger] pages[i]).has_js
        && (#[trigger] pages[j]).has_js) by {
        assert(c.pages[i].id != c.pages[j].id);
    }
    if let Some(k) = page_index(c.pages, id) {
        let after = pages.update(k, woken);
        assert forall|i: int| 0 <= i < after.len() && i != k implies !(
        #[trigger] after[i]).has_js by {
            if i < k {
                assert(c.pages[i].id != c.pages[k].id);
            } else {
                assert(c.pages[k].id != c.pages[i].id);
            }
        }
    }
}

/// Where a request goes.
pub enum DispatchStep {
    /// It is answered.
    Reply(CdpResponse),
    /// The handler of a domain runs a method.
    Handle { domain: String, method: String },
    /// A request that was wrapped in this one goes first.
    Inner(CdpRequest),
    /// This text, which was wrapped in it, is no request; the reader of requests is to say why.
    Unread(String),
}

/// Where a request goes, as plain data.
pub enum StepView {
    Reply(ResponseView),
    Handle { domain: Seq<char>, method: Seq<char> },
    Inner(RequestView),
    Unread(Seq<char>),
}

impl View for DispatchStep {
    type V = StepView;

    open spec fn view(&self) -> StepView {
        match self {
            DispatchStep::Reply(r) => StepView::Reply(r@),
            DispatchStep::Handle { domain, method } => StepView::Handle {
                domain: domain@,
                method: method@,
            },
            DispatchStep::Inner(q) => StepView::Inner(q@),
            DispatchStep::Unread(t) => StepView::Unread(t@),
        }
    }
}

/// Whether a domain has a handler.
pub open spec fn handled_domain(d: Seq<char>) -> bool {
    ||| d == "Target"@
    ||| d == "Browser"@
    ||| d == "Page"@
    ||| d == "DOM"@
    ||| d == "Runtime"@
    ||| d == "Network"@
    ||| d == "Fetch"@
    ||| d == "Input"@
    ||| d == "Storage"@
    ||| d == "LP"@
    ||| d == "Accessibility"@
}

/// Whether requests to a domain are taken and do nothing.
pub open spec fn idle_domain(d: Seq<char>) -> bool {
    ||| d == "Emulation"@
    ||| d == "Log"@
    ||| d == "Performance"@
    ||| d == "Security"@
    ||| d == "CSS"@
    ||| d == "ServiceWorker"@
    ||| d == "Inspector"@
    ||| d == "Debugger"@
    ||| d == "Profiler"@
    ||| d == "HeapProfiler"@
    ||| d == "Overlay"@
    ||| d == "Audits"@
}

fn is_handled_domain(d: &str) -> (r: bool)
    ensures
        r == handled_domain(d@),
{
    text::same(d, "Target") || text::same(d, "Browser") || text::same(d, "Page") || text::same(
        d,
        "DOM",
    ) || text::same(d, "Runtime") || text::same(d, "Network") || text::same(d, "Fetch")
        || text::same(d, "Input") || text::same(d, "Storage") || text::same(d, "LP") || text::same(
        d,
        "Accessibility",
    )
}

fn is_idle_domain(d: &str) -> (r: bool)
    ensures
        r == idle_domain(d@),
{
    text::same(d, "Emulation") || text::same(d, "Log") || text::same(d, "Performance")
        || text::same(d, "Security") || text::same(d, "CSS") || text::same(d, "ServiceWorker")
        || text::same(d, "Inspector") || text::same(d, "Debugger") || text::same(d, "Profiler")
        || text::same(d, "HeapProfiler") || text::same(d, "Overlay") || text::same(d, "Audits")
}

impl RequestView {
    /// The answer with a result.
    pub open spec fn success(self, result: JsonView) -> ResponseView {
        ResponseView::success(self.id, result, self.session_id)
    }

    /// The answer with an error.
    pub open spec fn failure(self, code: i64, message: Seq<char>) -> ResponseView {
        ResponseView::failure(self.id, code, message, self.session_id)
    }

    /// The session that a wrapped request is for, where the wrapper names one.
    pub open spec fn target_session(self) -> Option<Seq<char>> {
        self.params.get_str("sessionId"@)
    }

    /// Where a request goes that wraps another, given what the wrapped text is read as.
    pub open spec fn unwrapped(self, inner: Result<RequestView, Seq<char>>) -> StepView {
        match inner {
            Err(e) => StepView::Reply(
                self.failure(
                    types::PARSE_ERROR,
                    "sendMessageToTarget message is not a valid CDP request: "@ + e,
                ),
            ),
            Ok(q) => StepView::Inner(
                RequestView {
                    session_id: match self.target_session() {
                        Some(s) => Some(s),
                        None => q.session_id,
                    },
                    ..q
                },
            ),
        }
    }

    /// Where the request goes.
    pub open spec fn step(self) -> StepView {
        if self.method == "Target.sendMessageToTarget"@ {
            match self.params.get_str("message"@) {
                None => StepView::Reply(
                    self.failure(types::INVALID_PARAMS, "sendMessageToTarget requires a message string"@),
                ),
                Some(m) => match types::parsed_request(m) {
                    Some(q) => self.unwrapped(Ok(q)),
                    None => StepView::Unread(m),
                },
            }
        } else {
            match text::split_first(self.method, '.') {
                None => StepView::Reply(
                    self.failure(types::METHOD_NOT_FOUND, "Invalid method format: "@ + self.method),
                ),
                Some((d, m)) => if handled_domain(d) {
                    StepView::Handle { domain: d, method: m }
                } else if idle_domain(d) {
                    StepView::Reply(self.success(JsonView::object()))
                } else {
                    StepView::Reply(self.failure(types::METHOD_NOT_FOUND, "Unknown domain: "@ + d))
                },
            }
        }
    }

    /// The answer, given what the handler of the domain says.
    pub open spec fn answered(self, outcome: Result<JsonView, Seq<char>>) -> ResponseView {
        match outcome {
            Ok(v) => self.success(v),
            Err(e) => self.failure(types::METHOD_NOT_FOUND, e),
        }
    }

    /// The event that tells the answer to a request that was wrapped in this one.
    pub open spec fn inner_event(self, inner: ResponseView) -> EventView {
        let session = match self.target_session() {
            Some(s) => s,
            None => Seq::empty(),
        };
        EventView {
            method: "Target.receivedMessageFromTarget"@,
            params: JsonView::object().put("sessionId"@, JsonView::Str(session)).put(
                "message"@,
                JsonView::Str(json::json_text(inner.to_json())),
            ).put("targetId"@, JsonView::Str(session)),
            session_id: self.session_id,
        }
    }
}

fn succeed(req: &CdpRequest, result: Json) -> (r: CdpResponse)
    ensures
        r@ == req@.success(result@),
{
    CdpResponse::success(req.id, result, text::clone_opt(&req.session_id))
}

fn fail(req: &CdpRequest, code: i64, message: String) -> (r: CdpResponse)
    ensures
        r@ == req@.failure(code, message@),
{
    CdpResponse::error(req.id, code, message, text::clone_opt(&req.session_id))
}

/// Says where a request goes.
pub fn dispatch(req: &CdpRequest) -> (r: DispatchStep)
    ensures
        r@ == req@.step(),
{
    if text::same(req.method.as_str(), "Target.sendMessageToTarget") {
        return dispatch_send_message_to_target(req);
    }
    match text::split_once(req.method.as_str(), '.') {
        None => DispatchStep::Reply(
            fail(
                req,
                types::METHOD_NOT_FOUND,
                "Invalid method format: ".to_owned().concat(req.method.as_str()),
            ),
        ),
        Some((domain, method)) => if is_handled_domain(domain.as_str()) {
            DispatchStep::Handle { domain, method }
        } else if is_idle_domain(domain.as_str()) {
            DispatchStep::Reply(succeed(req, Json::object()))
        } else {
            DispatchStep::Reply(
                fail(req, types::METHOD_NOT_FOUND, "Unknown domain: ".to_owned().concat(domain.as_str())),
            )
        },
    }
}

fn dispatch_send_message_to_target(req: &CdpRequest) -> (r: DispatchStep)
    requires
        req@.method == "Target.sendMessageToTarget"@,
    ensures
        r@ == req@.step(),
{
    match req.params.get_str("message") {
        None => DispatchStep::Reply(
            fail(req, types::INVALID_PARAMS, "sendMessageToTarget requires a message string".to_owned()),
        ),
        Some(m) => match CdpRequest::parse(m) {
            Some(q) => unwrap_message(req, Ok(q)),
            None => DispatchStep::Unread(m.to_owned()),
        },
    }
}

/// Says where a request goes that wraps another, given what the wrapped text is read as:
/// the session that the wrapper names goes before the one in the text.
pub fn unwrap_message(req: &CdpRequest, inner: Result<CdpRequest, String>) -> (r: DispatchStep)
    ensures
        r@ == req@.unwrapped(types::request_result(inner)),
{
    match inner {
        Err(e) => DispatchStep::Reply(
            fail(
                req,
                types::PARSE_ERROR,
                "sendMessageToTarget message is not a valid CDP request: ".to_owned().concat(
                    e.as_str(),
                ),
            ),
        ),
        Ok(q) => {
            let session_id: Option<String> = match req.params.get_str("sessionId") {
                Some(s) => Some(s.to_owned()),
                None => q.session_id,
            };
            DispatchStep::Inner(
                CdpRequest { id: q.id, method: q.method, params: q.params, session_id },
            )
        },
    }
}

/// The view of what a handler says.
pub open spec fn outcome_view(r: Result<Json, String>) -> Result<JsonView, Seq<char>> {
    match r {
        Ok(j) => Ok(j@),
        Err(e) => Err(e@),
    }
}

/// The answer to a request, given what the handler of its domain says.
pub fn answer(req: &CdpRequest, outcome: Result<Json, String>) -> (r: CdpResponse)
    ensures
        r@ == req@.answered(outcome_view(outcome)),
{
    match outcome {
        Ok(v) => succeed(req, v),
        Err(e) => fail(req, types::METHOD_NOT_FOUND, e),
    }
}

/// The answer to a request that wrapped another, given the answer to that one, which is
/// told in an event. The wrapped answer can be read back from the event's text, as long as
/// it is not nested too deep.
pub fn answer_wrapper(ctx: &mut CdpContext, req: &CdpRequest, inner: &CdpResponse) -> (r:
    CdpResponse)
    ensures
        r@ == req@.success(JsonView::object()),
        final(ctx)@ == (ContextView {
            pending_events: old(ctx)@.pending_events.push(req@.inner_event(inner@)),
            ..old(ctx)@
        }),
        json::nested_at_most(inner@.to_json(), json::SHALLOW as nat) ==> {
            let told = json::json_parsed(json::json_text(inner@.to_json()));
            told is Ok && told->Ok_0 == inner@.to_json()
        },
{
    let session: String = req.params.get_str_or("sessionId", "");
    proof {
        reveal_strlit("");
        assert(""@ =~= Seq::<char>::empty());
    }
    let message: String = inner.to_text();
    ctx.push_event(
        CdpEvent {
            method: "Target.receivedMessageFromTarget".to_owned(),
            params: Json::object().put("sessionId", Json::string(session.as_str())).put(
                "message",
                Json::Str(message),
            ).put("targetId", Json::string(session.as_str())),
            session_id: text::clone_opt(&req.session_id),
        },
    );
    succeed(req, Json::object())
}

/// Every answer carries the number and the session of its request.
pub proof fn answers_are_addressed(
    q: RequestView,
    outcome: Result<JsonView, Seq<char>>,
)
    ensures
        q.answered(outcome).id == q.id,
        q.answered(outcome).session_id == q.session_id,
        q.step() matches StepView::Reply(r) ==> r.id == q.id && r.session_id == q.session_id,
        forall|inner: Result<RequestView, Seq<char>>|
            (#[trigger] q.unwrapped(inner)) matches StepView::Reply(r) ==> r.id == q.id
                && r.session_id == q.session_id,
{
}

/// A request is answered with exactly one of a result and an error.
pub proof fn answers_are_one_of_two(q: RequestView, outcome: Result<JsonView, Seq<char>>)
    ensures
        q.answered(outcome).result is Some != q.answered(outcome).error is Some,
        q.step() matches StepView::Reply(r) ==> r.result is Some != r.error is Some,
        forall|inner: Result<RequestView, Seq<char>>|
            (#[trigger] q.unwrapped(inner)) matches StepView::Reply(r) ==> r.result is Some
                != r.error is Some,
{
}

} // verus!
