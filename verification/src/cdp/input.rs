//! Mouse and keyboard: what a client's input events do on a page.

use vstd::prelude::*;
use vstd::string::*;

use crate::json::{Json, JsonView};
use crate::text;

verus! {

/// What is done on a page.
pub enum PageStep {
    /// Run a script.
    Evaluate(String),
    /// Go where a script asked to go; if that fails, the input event fails.
    ProcessPendingNavigation,
    /// Let the page work for some milliseconds.
    Settle(u64),
}

/// What is done on a page, as plain data.
pub enum StepView {
    Evaluate(Seq<char>),
    ProcessPendingNavigation,
    Settle(u64),
}

impl View for PageStep {
    type V = StepView;

    open spec fn view(&self) -> StepView {
        match self {
            PageStep::Evaluate(s) => StepView::Evaluate(s@),
            PageStep::ProcessPendingNavigation => StepView::ProcessPendingNavigation,
            PageStep::Settle(n) => StepView::Settle(*n),
        }
    }
}

/// The views of a list of steps.
pub open spec fn step_views(v: Seq<PageStep>) -> Seq<StepView> {
    v.map_values(|s: PageStep| s@)
}

/// What an input event does: whether the page of the session is made ready, and what is done
/// on it where there is one. The answer is an empty object.
pub struct InputPlan {
    pub needs_page: bool,
    pub steps: Vec<PageStep>,
}

/// What an input event does, as plain data.
pub struct PlanView {
    pub needs_page: bool,
    pub steps: Seq<StepView>,
}

impl View for InputPlan {
    type V = PlanView;

    open spec fn view(&self) -> PlanView {
        PlanView { needs_page: self.needs_page, steps: step_views(self.steps@) }
    }
}

/// Finds the element under the mouse.
pub const TARGET_HEAD: &'static str =
    "(function() {\
var target = (document.elementFromPoint && document.elementFromPoint(";

/// Presses the mouse button on the element that was found.
pub const PRESS_DOWN: &'static str =
    ")) || globalThis.__obscura_click_target || document.activeElement || document.body;\
if (!target) return;\
globalThis.__obscura_click_target = target;\
var evt = globalThis.__obscura_markTrusted(new MouseEvent('mousedown', {bubbles:true,cancelable:true,clientX:";

/// Clicks on the element.
pub const PRESS_CLICK: &'static str =
    "}));\
target.dispatchEvent(evt);\
var click = globalThis.__obscura_markTrusted(new MouseEvent('click', {bubbles:true,cancelable:true,clientX:";

/// Does what a click on the element does of itself, unless a script prevents it.
pub const PRESS_TAIL: &'static str =
    "}));\
var cancelled = !target.dispatchEvent(click);\
if (!cancelled) {\
var link = target.closest ? target.closest('a[href]') : null;\
if (!link && target.tagName === 'A' && target.getAttribute('href')) link = target;\
if (link) {\
var href = link.getAttribute('href');\
if (href && !href.startsWith('#') && !href.startsWith('javascript:')) {\
location.assign(href);\
}\
} else {\
var tag = target.tagName;\
var type = (target.getAttribute && target.getAttribute('type') || '').toLowerCase();\
if (tag === 'BUTTON' && type !== 'button' && type !== 'reset') {\
var form = target.closest ? target.closest('form') : null;\
if (form && typeof form.submit === 'function') { try { form.submit(target); } catch(e) {} }\
} else if (tag === 'INPUT' && (type === 'submit' || type === 'image')) {\
var form2 = target.closest ? target.closest('form') : null;\
if (form2 && typeof form2.submit === 'function') { try { form2.submit(target); } catch(e) {} }\
} else if (tag === 'INPUT' && (type === 'checkbox' || type === 'radio')) {\
target.checked = !target.checked;\
try { target.dispatchEvent(globalThis.__obscura_markTrusted(new Event('change', {bubbles:true}))); } catch(e) {}\
}\
}\
}\
})()";

/// Releases the mouse button on the element that was found.
pub const RELEASE_UP: &'static str =
    ")) || globalThis.__obscura_click_target || document.activeElement || document.body;\
if (!target) return;\
var evt = globalThis.__obscura_markTrusted(new MouseEvent('mouseup', {bubbles:true,cancelable:true,clientX:";

/// Tells the element of the release.
pub const RELEASE_TAIL: &'static str =
    ",button:0}));\
target.dispatchEvent(evt);\
})()";

/// Presses a key on the active element.
pub const KEY_DOWN: &'static str =
    "(function() {\
var target = document.activeElement || document.body;\
var evt = globalThis.__obscura_markTrusted(new KeyboardEvent('keydown', {bubbles:true,cancelable:true,key:'";

/// Releases a key on the active element.
pub const KEY_UP: &'static str =
    "(function() {\
var target = document.activeElement || document.body;\
var evt = globalThis.__obscura_markTrusted(new KeyboardEvent('keyup', {bubbles:true,key:'";

/// Tells the element of the key.
pub const KEY_TAIL: &'static str =
    "'}));\
target.dispatchEvent(evt);\
})()";

/// Adds to the text of the active field.
pub const TYPE_HEAD: &'static str =
    "(function() {\
var target = document.activeElement;\
if (target && (target.localName === 'input' || target.localName === 'textarea')) {\
target.value = (target.value || '') + '";

/// Tells the field of the new text.
pub const TYPE_TAIL: &'static str =
    "';\
target.dispatchEvent(globalThis.__obscura_markTrusted(new Event('input', {bubbles:true})));\
}\
})()";

/// Starts a new line in a text area, and submits the form of any other element.
pub const ENTER_SCRIPT: &'static str =
    "(function() {\
var target = document.activeElement;\
if (!target) return;\
target.dispatchEvent(globalThis.__obscura_markTrusted(new KeyboardEvent('keypress', {bubbles:true,key:'Enter',code:'Enter'})));\
if (target.localName === 'textarea') {\
target.value = (target.value || '') + '\\n';\
target.dispatchEvent(globalThis.__obscura_markTrusted(new Event('input', {bubbles:true})));\
} else {\
var form = target.form || (target.closest && target.closest('form'));\
if (form && typeof form.submit === 'function') form.submit();\
}\
})()";

/// Takes the last character off the active field.
pub const BACKSPACE_SCRIPT: &'static str =
    "(function() {\
var target = document.activeElement;\
if (target && (target.localName === 'input' || target.localName === 'textarea')) {\
target.value = target.value.slice(0, -1);\
target.dispatchEvent(globalThis.__obscura_markTrusted(new Event('input', {bubbles:true})));\
}\
})()";

/// A coordinate as a script writes it: zero where it is no number.
pub open spec fn coordinate(params: JsonView, key: Seq<char>) -> Seq<char> {
    match params.get(key) {
        Some(v) => match v.number_text() {
            Some(t) => t,
            None => "0"@,
        },
        None => "0"@,
    }
}

fn read_coordinate(params: &Json, key: &str) -> (r: String)
    ensures
        r@ == coordinate(params@, key@),
{
    match params.get(key) {
        Some(v) => match v.number_text() {
            Some(t) => t,
            None => "0".to_owned(),
        },
        None => "0".to_owned(),
    }
}

/// The script that presses the mouse button at a point, for the nth time in a row.
pub open spec fn press_script(x: Seq<char>, y: Seq<char>, clicks: u64) -> Seq<char> {
    let at = x + ",clientY:"@ + y + ",button:0,detail:"@ + text::decimal_text(clicks as nat);
    TARGET_HEAD@ + x + ","@ + y + PRESS_DOWN@ + at + PRESS_CLICK@ + at + PRESS_TAIL@
}

fn write_press_script(x: &str, y: &str, clicks: u64) -> (r: String)
    ensures
        r@ == press_script(x@, y@, clicks),
{
    let at: String = x.to_owned().concat(",clientY:").concat(y).concat(",button:0,detail:").concat(
        text::decimal(clicks).as_str(),
    );
    TARGET_HEAD.to_owned().concat(x).concat(",").concat(y).concat(PRESS_DOWN).concat(
        at.as_str(),
    ).concat(PRESS_CLICK).concat(at.as_str()).concat(PRESS_TAIL)
}

/// The script that releases the mouse button at a point.
pub open spec fn release_script(x: Seq<char>, y: Seq<char>) -> Seq<char> {
    TARGET_HEAD@ + x + ","@ + y + RELEASE_UP@ + x + ",clientY:"@ + y + RELEASE_TAIL@
}

fn write_release_script(x: &str, y: &str) -> (r: String)
    ensures
        r@ == release_script(x@, y@),
{
    TARGET_HEAD.to_owned().concat(x).concat(",").concat(y).concat(RELEASE_UP).concat(x).concat(
        ",clientY:",
    ).concat(y).concat(RELEASE_TAIL)
}

/// A text with a backslash before every single quote.
pub open spec fn quotes_escaped(s: Seq<char>) -> Seq<char> {
    text::replaced(s, '\'', "\\'"@)
}

/// A text as it stands between the single quotes of a script's string: backslashes first,
/// so that those before the quotes are not doubled.
pub open spec fn escaped(s: Seq<char>) -> Seq<char> {
    quotes_escaped(text::replaced(s, '\\', "\\\\"@))
}

fn escape_quotes(s: &str) -> (r: String)
    ensures
        r@ == quotes_escaped(s@),
{
    text::replace_char(s, '\'', "\\'")
}

fn escape(s: &str) -> (r: String)
    ensures
        r@ == escaped(s@),
{
    escape_quotes(text::replace_char(s, '\\', "\\\\").as_str())
}

/// The script that presses or releases a key.
pub open spec fn key_script(head: Seq<char>, key: Seq<char>, code: Seq<char>) -> Seq<char> {
    head + quotes_escaped(key) + "',code:'"@ + quotes_escaped(code) + KEY_TAIL@
}

fn write_key_script(head: &str, key: &str, code: &str) -> (r: String)
    ensures
        r@ == key_script(head@, key@, code@),
{
    head.to_owned().concat(escape_quotes(key).as_str()).concat("',code:'").concat(
        escape_quotes(code).as_str(),
    ).concat(KEY_TAIL)
}

/// The script that types a text.
pub open spec fn type_script(t: Seq<char>) -> Seq<char> {
    TYPE_HEAD@ + escaped(t) + TYPE_TAIL@
}

fn write_type_script(t: &str) -> (r: String)
    ensures
        r@ == type_script(t@),
{
    TYPE_HEAD.to_owned().concat(escape(t).as_str()).concat(TYPE_TAIL)
}

/// What a mouse event does.
pub open spec fn mouse_plan(params: JsonView) -> PlanView {
    let kind = params.get_str_or("type"@, ""@);
    let x = coordinate(params, "x"@);
    let y = coordinate(params, "y"@);
    if kind == "mousePressed"@ {
        PlanView {
            needs_page: true,
            steps: Seq::<StepView>::empty().push(
                StepView::Evaluate(press_script(x, y, params.get_u64_or("clickCount"@, 1))),
            ).push(StepView::ProcessPendingNavigation),
        }
    } else if kind == "mouseReleased"@ {
        PlanView {
            needs_page: true,
            steps: Seq::<StepView>::empty().push(StepView::Evaluate(release_script(x, y))),
        }
    } else {
        PlanView { needs_page: false, steps: Seq::empty() }
    }
}

/// What is done for a text that a key types, beyond the key itself.
pub open spec fn typed(steps: Seq<StepView>, t: Seq<char>) -> Seq<StepView> {
    if t.len() > 0 && t != "\r"@ && t != "\n"@ {
        steps.push(StepView::Evaluate(type_script(t)))
    } else {
        steps
    }
}

/// What pressing a key does.
pub open spec fn key_down_steps(key: Seq<char>, code: Seq<char>, t: Seq<char>) -> Seq<StepView> {
    let pressed = Seq::<StepView>::empty().push(
        StepView::Evaluate(key_script(KEY_DOWN@, key, code)),
    );
    if key == "Enter"@ {
        typed(pressed, t).push(StepView::Evaluate(ENTER_SCRIPT@))
    } else if key == "Backspace"@ {
        typed(pressed, t).push(StepView::Evaluate(BACKSPACE_SCRIPT@))
    } else {
        typed(pressed, t)
    }
}

/// What a key event does.
pub open spec fn key_plan(params: JsonView) -> PlanView {
    let kind = params.get_str_or("type"@, ""@);
    let key = params.get_str_or("key"@, ""@);
    let code = params.get_str_or("code"@, ""@);
    let t = params.get_str_or("text"@, ""@);
    PlanView {
        needs_page: true,
        steps: if kind == "keyDown"@ || kind == "rawKeyDown"@ {
            key_down_steps(key, code, t)
        } else if kind == "keyUp"@ {
            Seq::<StepView>::empty().push(StepView::Evaluate(key_script(KEY_UP@, key, code)))
        } else if kind == "char"@ && t.len() > 0 {
            Seq::<StepView>::empty().push(StepView::Evaluate(type_script(t))).push(
                StepView::Settle(50),
            )
        } else {
            Seq::empty()
        },
    }
}

/// What an input event does, or why it cannot be done.
pub open spec fn input_plan(method: Seq<char>, params: JsonView) -> Result<PlanView, Seq<char>> {
    if method == "dispatchMouseEvent"@ {
        Ok(mouse_plan(params))
    } else if method == "dispatchKeyEvent"@ {
        Ok(key_plan(params))
    } else if method == "dispatchTouchEvent"@ || method == "setIgnoreInputEvents"@ {
        Ok(PlanView { needs_page: false, steps: Seq::empty() })
    } else {
        Err("Unknown Input method: "@ + method)
    }
}

fn push_step(steps: &mut Vec<PageStep>, s: PageStep)
    ensures
        step_views(final(steps)@) == step_views(old(steps)@).push(s@),
{
    let ghost v = s@;
    steps.push(s);
    assert(step_views(steps@) =~= step_views(old(steps)@).push(v));
}

fn no_steps() -> (r: Vec<PageStep>)
    ensures
        step_views(r@) == Seq::<StepView>::empty(),
{
    let r: Vec<PageStep> = Vec::new();
    assert(step_views(r@) =~= Seq::empty());
    r
}

fn plan_mouse(params: &Json) -> (r: InputPlan)
    ensures
        r@ == mouse_plan(params@),
{
    let kind: String = params.get_str_or("type", "");
    let x: String = read_coordinate(params, "x");
    let y: String = read_coordinate(params, "y");
    let mut steps: Vec<PageStep> = no_steps();
    if text::same(kind.as_str(), "mousePressed") {
        let clicks: u64 = params.get_u64_or("clickCount", 1);
        push_step(
            &mut steps,
            PageStep::Evaluate(write_press_script(x.as_str(), y.as_str(), clicks)),
        );
        push_step(&mut steps, PageStep::ProcessPendingNavigation);
        InputPlan { needs_page: true, steps }
    } else if text::same(kind.as_str(), "mouseReleased") {
        push_step(
            &mut steps,
            PageStep::Evaluate(write_release_script(x.as_str(), y.as_str())),
        );
        InputPlan { needs_page: true, steps }
    } else {
        InputPlan { needs_page: false, steps }
    }
}

fn plan_key_down(key: &str, code: &str, t: &str) -> (r: Vec<PageStep>)
    ensures
        step_views(r@) == key_down_steps(key@, code@, t@),
{
    let mut steps: Vec<PageStep> = no_steps();
    push_step(&mut steps, PageStep::Evaluate(write_key_script(KEY_DOWN, key, code)));
    if !t.is_empty() && !text::same(t, "\r") && !text::same(t, "\n") {
        push_step(&mut steps, PageStep::Evaluate(write_type_script(t)));
    }
    proof {
        reveal_strlit("Enter");
        reveal_strlit("Backspace");
        assert("Enter"@.len() != "Backspace"@.len());
    }
    if text::same(key, "Enter") {
        push_step(&mut steps, PageStep::Evaluate(ENTER_SCRIPT.to_owned()));
    }
    if text::same(key, "Backspace") {
        push_step(&mut steps, PageStep::Evaluate(BACKSPACE_SCRIPT.to_owned()));
    }
    steps
}

fn plan_key(params: &Json) -> (r: InputPlan)
    ensures
        r@ == key_plan(params@),
{
    let kind_text: String = params.get_str_or("type", "");
    let kind: &str = kind_text.as_str();
    let key: String = params.get_str_or("key", "");
    let code: String = params.get_str_or("code", "");
    let t: String = params.get_str_or("text", "");
    if text::same(kind, "keyDown") || text::same(kind, "rawKeyDown") {
        return InputPlan {
            needs_page: true,
            steps: plan_key_down(key.as_str(), code.as_str(), t.as_str()),
        };
    }
    let mut steps: Vec<PageStep> = no_steps();
    if text::same(kind, "keyUp") {
        push_step(
            &mut steps,
            PageStep::Evaluate(write_key_script(KEY_UP, key.as_str(), code.as_str())),
        );
    } else if text::same(kind, "char") && !t.as_str().is_empty() {
        push_step(&mut steps, PageStep::Evaluate(write_type_script(t.as_str())));
        push_step(&mut steps, PageStep::Settle(50));
    }
    InputPlan { needs_page: true, steps }
}

/// Says what an input event does.
pub fn handle(method: &str, params: &Json) -> (r: Result<InputPlan, String>)
    ensures
        match r {
            Ok(p) => input_plan(method@, params@) == Ok::<PlanView, Seq<char>>(p@),
            Err(e) => input_plan(method@, params@) == Err::<PlanView, Seq<char>>(e@),
        },
{
    if text::same(method, "dispatchMouseEvent") {
        Ok(plan_mouse(params))
    } else if text::same(method, "dispatchKeyEvent") {
        Ok(plan_key(params))
    } else if text::same(method, "dispatchTouchEvent") || text::same(
        method,
        "setIgnoreInputEvents",
    ) {
        Ok(InputPlan { needs_page: false, steps: no_steps() })
    } else {
        Err("Unknown Input method: ".to_owned().concat(method))
    }
}

/// What a script reads between the single quotes of a string that holds no escapes but those
/// of quotes and backslashes: these stand for themselves behind a backslash. No quote and no
/// line break may stand there bare.
pub open spec fn read_quoted(s: Seq<char>) -> Option<Seq<char>>
    decreases s.len(),
{
    if s.len() == 0 {
        Some(s)
    } else if s[0] == '\'' || s[0] == '\n' || s[0] == '\r' {
        None
    } else if s[0] == '\\' {
        if s.len() < 2 || (s[1] != '\'' && s[1] != '\\') {
            None
        } else {
            match read_quoted(s.skip(2)) {
                Some(t) => Some(seq![s[1]] + t),
                None => None,
            }
        }
    } else {
        match read_quoted(s.skip(1)) {
            Some(t) => Some(seq![s[0]] + t),
            None => None,
        }
    }
}

proof fn read_quoted_joins(a: Seq<char>, b: Seq<char>)
    requires
        read_quoted(a) is Some,
        read_quoted(b) is Some,
    ensures
        read_quoted(a + b) == Some(read_quoted(a)->0 + read_quoted(b)->0),
    decreases a.len(),
{
    if a.len() == 0 {
        assert(a + b =~= b);
        assert(read_quoted(a)->0 + read_quoted(b)->0 =~= read_quoted(b)->0);
    } else {
        let n: int = if a[0] == '\\' {
            2
        } else {
            1
        };
        read_quoted_joins(a.skip(n), b);
        assert((a + b).skip(n) =~= a.skip(n) + b);
        assert(read_quoted(a + b)->0 =~= read_quoted(a)->0 + read_quoted(b)->0);
    }
}

proof fn replaced_joins(a: Seq<char>, b: Seq<char>, c: char, with: Seq<char>)
    ensures
        text::replaced(a + b, c, with) == text::replaced(a, c, with) + text::replaced(b, c, with),
    decreases b.len(),
{
    if b.len() == 0 {
        assert(a + b =~= a);
        assert(text::replaced(a, c, with) + text::replaced(b, c, with) =~= text::replaced(
            a,
            c,
            with,
        ));
    } else {
        replaced_joins(a, b.drop_last(), c, with);
        assert((a + b).drop_last() =~= a + b.drop_last());
        assert(text::replaced(a + b, c, with) =~= text::replaced(a, c, with) + text::replaced(
            b,
            c,
            with,
        ));
    }
}

/// A text without line breaks that is typed reaches the script as it is: what stands between
/// the quotes is read as the text that was escaped.
pub proof fn escaped_text_is_read_back(t: Seq<char>)
    requires
        forall|i: int| 0 <= i < t.len() ==> (#[trigger] t[i]) != '\n' && t[i] != '\r',
    ensures
        read_quoted(escaped(t)) == Some(t),
    decreases t.len(),
{
    reveal_strlit("\\\\");
    reveal_strlit("\\'");
    if t.len() == 0 {
        assert(read_quoted(escaped(t))->0 =~= t);
    } else {
        let init = t.drop_last();
        let c = t.last();
        assert forall|i: int| 0 <= i < init.len() implies (#[trigger] init[i]) != '\n' && init[i]
            != '\r' by {
            assert(init[i] == t[i]);
        }
        assert(t[t.len() - 1] == c);
        escaped_text_is_read_back(init);
        let first = text::replaced(init, '\\', "\\\\"@);
        let piece = if c == '\\' {
            "\\\\"@
        } else {
            seq![c]
        };
        assert(text::replaced(t, '\\', "\\\\"@) =~= first + piece);
        replaced_joins(first, piece, '\'', "\\'"@);
        reveal_with_fuel(text::replaced, 3);
        reveal_with_fuel(read_quoted, 3);
        let tail = quotes_escaped(piece);
        assert(escaped(t) == escaped(init) + tail);
        if c == '\\' {
            assert(piece.drop_last() =~= seq!['\\']);
            assert(piece.drop_last().drop_last() =~= Seq::empty());
            assert(tail =~= seq!['\\', '\\']);
            assert(tail.skip(2) =~= Seq::empty());
        } else if c == '\'' {
            assert(piece.drop_last() =~= Seq::empty());
            assert(tail =~= seq!['\\', '\'']);
            assert(tail.skip(2) =~= Seq::empty());
        } else {
            assert(piece.drop_last() =~= Seq::empty());
            assert(tail =~= seq![c]);
            assert(tail.skip(1) =~= Seq::empty());
        }
        assert(read_quoted(tail)->0 =~= seq![c]);
        read_quoted_joins(escaped(init), tail);
        assert(init + seq![c] =~= t);
    }
}

} // verus!
