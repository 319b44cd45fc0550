//! A browser tab.

use vstd::prelude::*;
use vstd::string::*;

use crate::api::error::{Error, ErrorView};
use crate::json::{Json, JsonView};
use crate::json;
use crate::text;

verus! {

/// The script whose value is the HTML of a page.
pub const CONTENT_SCRIPT: &'static str = "document.documentElement.outerHTML";

/// The script whose value is the title of a page.
pub const TITLE_SCRIPT: &'static str = "document.title";

/// A browser tab, by its name, and the cookie jar of its session. The jar is only carried
/// along.
pub struct Page<'a, J> {
    pub id: String,
    pub cookie_jar: &'a J,
}

/// The text that a script's value is: nothing where it is no string.
pub open spec fn text_of_value(v: JsonView) -> Seq<char> {
    match v.as_str() {
        Some(s) => s,
        None => Seq::empty(),
    }
}

fn read_text(v: &Json) -> (r: String)
    ensures
        r@ == text_of_value(v@),
{
    match v.as_str() {
        Some(s) => s.to_owned(),
        None => String::new(),
    }
}

/// A script that looks for the first element that a selector matches and evaluates an
/// expression in which `el` stands for it, or is `null` where there is none.
pub open spec fn element_script(selector: Seq<char>, expression: Seq<char>) -> Seq<char> {
    "(function() { var el = document.querySelector("@ + json::json_text(JsonView::Str(selector))
        + "); return el ? "@ + expression + " : null; })()"@
}

fn write_element_script(selector: &str, expression: &str) -> (r: String)
    ensures
        r@ == element_script(selector@, expression@),
{
    "(function() { var el = document.querySelector(".to_owned().concat(
        Json::string(selector).to_text().as_str(),
    ).concat("); return el ? ").concat(expression).concat(" : null; })()")
}

/// An element of a page, by a selector that matches it first.
pub struct Element {
    pub selector: String,
}

impl Element {
    /// The script whose value is the text of the element.
    pub fn text_script(&self) -> (r: String)
        ensures
            r@ == element_script(self.selector@, "el.textContent"@),
    {
        write_element_script(self.selector.as_str(), "el.textContent")
    }

    /// The text of the element, where `value` is what the script gave.
    pub fn text(&self, value: &Json) -> (r: String)
        ensures
            r@ == text_of_value(value@),
    {
        read_text(value)
    }

    /// The script whose value is an attribute of the element.
    pub fn attribute_script(&self, name: &str) -> (r: String)
        ensures
            r@ == element_script(
                self.selector@,
                "el.getAttribute("@ + json::json_text(JsonView::Str(name@)) + ")"@,
            ),
    {
        let expression: String = "el.getAttribute(".to_owned().concat(
            Json::string(name).to_text().as_str(),
        ).concat(")");
        write_element_script(self.selector.as_str(), expression.as_str())
    }

    /// An attribute of the element, if it has it, where `value` is what the script gave.
    pub fn attribute(&self, value: &Json) -> (r: Option<String>)
        ensures
            text::opt(r) == value@.as_str(),
    {
        match value.as_str() {
            Some(s) => Some(s.to_owned()),
            None => None,
        }
    }
}

/// How many milliseconds pass before an element is looked for again.
pub const LOOK_AGAIN_MS: u64 = 50;

/// How waiting for an element goes on.
pub enum WaitStep {
    /// The element is there.
    Found(Element),
    /// Look for it again after so many milliseconds.
    LookAgain(u64),
    /// The time is up.
    Failed(Error),
}

/// How waiting for an element goes on, as plain data: an element is its selector.
pub enum WaitView {
    Found(Seq<char>),
    LookAgain(u64),
    Failed(ErrorView),
}

impl View for WaitStep {
    type V = WaitView;

    open spec fn view(&self) -> WaitView {
        match self {
            WaitStep::Found(e) => WaitView::Found(e.selector@),
            WaitStep::LookAgain(n) => WaitView::LookAgain(*n),
            WaitStep::Failed(e) => WaitView::Failed(e@),
        }
    }
}

/// How waiting for an element goes on: an element that is there is found, however late; one
/// that is not is looked for again until the time is up.
pub open spec fn wait_step(
    selector: Seq<char>,
    found: bool,
    elapsed_ms: u64,
    timeout_ms: u64,
) -> WaitView {
    if found {
        WaitView::Found(selector)
    } else if elapsed_ms >= timeout_ms {
        WaitView::Failed(ErrorView::Timeout("no element matches "@ + selector))
    } else if timeout_ms - elapsed_ms < LOOK_AGAIN_MS {
        WaitView::LookAgain((timeout_ms - elapsed_ms) as u64)
    } else {
        WaitView::LookAgain(LOOK_AGAIN_MS)
    }
}

/// The script whose value says whether an element that a selector matches is there.
pub fn look_script(selector: &str) -> (r: String)
    ensures
        r@ == element_script(selector@, "true"@),
{
    write_element_script(selector, "true")
}

/// Whether the element is there, where `value` is what the script that looks for it gave.
pub fn is_there(value: &Json) -> (r: bool)
    ensures
        r == (value@ == JsonView::Bool(true)),
{
    match value {
        Json::Bool(b) => *b,
        _ => false,
    }
}

impl<'a, J> Page<'a, J> {
    /// What came of going to a URL, where `outcome` is what the engine says.
    pub fn goto(&self, outcome: Result<(), String>) -> (r: Result<(), Error>)
        ensures
            match outcome {
                Ok(()) => r is Ok,
                Err(e) => r is Err && r->Err_0@ == ErrorView::Navigation(e@),
            },
    {
        match outcome {
            Ok(()) => Ok(()),
            Err(e) => Err(Error::Navigation(e)),
        }
    }

    /// The HTML of the page, where `value` is what `CONTENT_SCRIPT` gave.
    pub fn content(&self, value: &Json) -> (r: String)
        ensures
            r@ == text_of_value(value@),
    {
        read_text(value)
    }

    /// The title of the page, where `value` is what `TITLE_SCRIPT` gave.
    pub fn title(&self, value: &Json) -> (r: String)
        ensures
            r@ == text_of_value(value@),
    {
        read_text(value)
    }

    /// How waiting for an element that a selector matches goes on, where `found` says whether
    /// it is there now, and `elapsed_ms` how long was waited.
    pub fn wait_for_selector(
        &self,
        selector: &str,
        found: bool,
        elapsed_ms: u64,
        timeout_ms: u64,
    ) -> (r: WaitStep)
        ensures
            r@ == wait_step(selector@, found, elapsed_ms, timeout_ms),
    {
        if found {
            return WaitStep::Found(Element { selector: selector.to_owned() });
        }
        if elapsed_ms >= timeout_ms {
            return WaitStep::Failed(
                Error::Timeout("no element matches ".to_owned().concat(selector)),
            );
        }
        let left: u64 = timeout_ms - elapsed_ms;
        if left < LOOK_AGAIN_MS {
            WaitStep::LookAgain(left)
        } else {
            WaitStep::LookAgain(LOOK_AGAIN_MS)
        }
    }
}

/// What waiting for an element ends with, if it ends within so many looks, where the element is
/// there after `appears_at` of them and every pause takes just the time that is told.
pub open spec fn waited(
    selector: Seq<char>,
    appears_at: nat,
    looks: nat,
    elapsed_ms: u64,
    timeout_ms: u64,
) -> Option<WaitView>
    decreases looks,
{
    if looks == 0 {
        None
    } else {
        match wait_step(selector, appears_at == 0, elapsed_ms, timeout_ms) {
            WaitView::LookAgain(n) => waited(
                selector,
                (if appears_at > 0 {
                    appears_at - 1
                } else {
                    0
                }) as nat,
                (looks - 1) as nat,
                (elapsed_ms + n) as u64,
                timeout_ms,
            ),
            end => Some(end),
        }
    }
}

/// Waiting ends: with the element, where it appears before the time is up, and with a timeout
/// where it does not.
pub proof fn waiting_ends(
    selector: Seq<char>,
    appears_at: nat,
    looks: nat,
    elapsed_ms: u64,
    timeout_ms: u64,
)
    requires
        elapsed_ms <= timeout_ms,
        looks > (timeout_ms - elapsed_ms + LOOK_AGAIN_MS - 1) / LOOK_AGAIN_MS as int,
    ensures
        waited(selector, appears_at, looks, elapsed_ms, timeout_ms) == Some(
            if appears_at <= (timeout_ms - elapsed_ms + LOOK_AGAIN_MS - 1) / LOOK_AGAIN_MS as int {
                WaitView::Found(selector)
            } else {
                WaitView::Failed(ErrorView::Timeout("no element matches "@ + selector))
            },
        ),
    decreases looks,
{
    if appears_at > 0 && elapsed_ms < timeout_ms {
        let left: u64 = (timeout_ms - elapsed_ms) as u64;
        let n: u64 = if left < LOOK_AGAIN_MS {
            left
        } else {
            LOOK_AGAIN_MS
        };
        waiting_ends(
            selector,
            (appears_at - 1) as nat,
            (looks - 1) as nat,
            (elapsed_ms + n) as u64,
            timeout_ms,
        );
    }
}

} // verus!
