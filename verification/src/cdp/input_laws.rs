//! What holds of every input event.

use vstd::prelude::*;
use vstd::string::*;

use crate::cdp::input::{self, PlanView, StepView};
use crate::json::JsonView;
use crate::text;
use crate::text_laws;

verus! {

/// How some names are spelled: enough to tell them apart.
spec fn kinds_differ_spelled() -> bool {
    &&& "mousePressed"@.len() == 12
    &&& "mouseReleased"@.len() == 13
    &&& "keyDown"@.len() == 7
    &&& "rawKeyDown"@.len() == 10
    &&& "keyUp"@.len() == 5
    &&& "char"@.len() == 4
    &&& "Enter"@.len() == 5
    &&& "Backspace"@.len() == 9
    &&& "dispatchMouseEvent"@.len() == 18
    &&& "dispatchKeyEvent"@.len() == 16
    &&& "dispatchTouchEvent"@.len() == 18
    &&& "setIgnoreInputEvents"@.len() == 20
    &&& "keyUp"@[0] == 'k'
    &&& "Enter"@[0] == 'E'
    &&& "dispatchMouseEvent"@[8] == 'M'
    &&& "dispatchTouchEvent"@[8] == 'T'
}

#[verifier::spinoff_prover]
proof fn kinds_differ()
    ensures
        kinds_differ_spelled(),
{
    reveal_strlit("mousePressed");
    reveal_strlit("mouseReleased");
    reveal_strlit("keyDown");
    reveal_strlit("rawKeyDown");
    reveal_strlit("keyUp");
    reveal_strlit("char");
    reveal_strlit("Enter");
    reveal_strlit("Backspace");
    reveal_strlit("dispatchMouseEvent");
    reveal_strlit("dispatchKeyEvent");
    reveal_strlit("dispatchTouchEvent");
    reveal_strlit("setIgnoreInputEvents");
}

/// A script that adds a text to the active field: the text stands in it between single quotes, as
/// scripts read them, and the field is told of its new value.
pub open spec fn types_text(script: Seq<char>, t: Seq<char>) -> bool {
    exists|mid: Seq<char>|
        (#[trigger] input::read_quoted(mid)) == Some(t) && script
            == "(function() {\
var target = document.activeElement;\
if (target && (target.localName === 'input' || target.localName === 'textarea')) {\
target.value = (target.value || '') + '"@ + mid
            + "';\
target.dispatchEvent(globalThis.__obscura_markTrusted(new Event('input', {bubbles:true})));\
}\
})()"@
}

/// What stands between the head and the tail of the script that types a text is read as exactly
/// that text, whatever quotes and backslashes it holds.
pub proof fn typed_text_is_read_back(t: Seq<char>)
    requires
        forall|i: int| 0 <= i < t.len() ==> (#[trigger] t[i]) != '\n' && t[i] != '\r',
    ensures
        types_text(input::type_script(t), t),
        ({
            let script = input::type_script(t);
            let head = input::TYPE_HEAD@.len() as int;
            let tail = input::TYPE_TAIL@.len() as int;
            &&& head + tail <= script.len()
            &&& script.take(head) == input::TYPE_HEAD@
            &&& script.skip(script.len() - tail) == input::TYPE_TAIL@
            &&& input::read_quoted(script.subrange(head, script.len() - tail)) == Some(t)
        }),
{
    input::escaped_text_is_read_back(t);
    let mid = input::escaped(t);
    let script = input::type_script(t);
    let head = input::TYPE_HEAD@.len() as int;
    let tail = input::TYPE_TAIL@.len() as int;
    assert(script.take(head) =~= input::TYPE_HEAD@);
    assert(script.skip(script.len() - tail) =~= input::TYPE_TAIL@);
    assert(script.subrange(head, script.len() - tail) =~= mid);
}

/// A character that is typed runs the script that adds it to the active field, and then lets the
/// page work for fifty milliseconds.
pub proof fn characters_are_typed(p: JsonView, t: Seq<char>)
    requires
        p.get("type"@) == Some(JsonView::Str("char"@)),
        p.get("text"@) == Some(JsonView::Str(t)),
        forall|i: int| 0 <= i < t.len() ==> (#[trigger] t[i]) != '\n' && t[i] != '\r',
    ensures
        ({
            &&& input::input_plan("dispatchKeyEvent"@, p) matches Ok(plan)
            &&& plan.needs_page
            &&& t.len() == 0 ==> plan.steps.len() == 0
            &&& t.len() > 0 ==> plan.steps.len() == 2 && plan.steps[1] == StepView::Settle(50)
                && plan.steps[0] is Evaluate && types_text(plan.steps[0]->Evaluate_0, t)
        }),
{
    kinds_differ();
    typed_text_is_read_back(t);
}

/// The text of a member, where it is one, and nothing otherwise.
pub open spec fn text_of(p: JsonView, name: Seq<char>) -> Seq<char> {
    match p.get(name) {
        Some(JsonView::Str(s)) => s,
        _ => Seq::empty(),
    }
}

/// A script that tells the active element of a key: what its name and its code are, between
/// quotes.
pub open spec fn tells_of_key(
    script: Seq<char>,
    head: Seq<char>,
    key: Seq<char>,
    code: Seq<char>,
) -> bool {
    exists|a: Seq<char>, b: Seq<char>|
        (#[trigger] input::read_quoted(a)) == Some(key) && (#[trigger] input::read_quoted(b))
            == Some(code) && script == head + a + "',code:'"@ + b
            + "'}));\
target.dispatchEvent(evt);\
})()"@
}

proof fn plain_quotes_are_read_back(t: Seq<char>)
    requires
        forall|i: int|
            0 <= i < t.len() ==> (#[trigger] t[i]) != '\n' && t[i] != '\r' && t[i] != '\\',
    ensures
        input::read_quoted(input::quotes_escaped(t)) == Some(t),
{
    no_backslash_stays(t);
    input::escaped_text_is_read_back(t);
}

proof fn no_backslash_stays(t: Seq<char>)
    requires
        forall|i: int| 0 <= i < t.len() ==> (#[trigger] t[i]) != '\\',
    ensures
        text::replaced(t, '\\', "\\\\"@) == t,
    decreases t.len(),
{
    if t.len() > 0 {
        let init = t.drop_last();
        assert forall|i: int| 0 <= i < init.len() implies (#[trigger] init[i]) != '\\' by {
            assert(init[i] == t[i]);
        }
        no_backslash_stays(init);
        assert(t[t.len() - 1] != '\\');
        assert(init.push(t.last()) =~= t);
    }
}

/// The script that presses a key on the active element.
pub open spec fn down_head() -> Seq<char> {
    "(function() {\
var target = document.activeElement || document.body;\
var evt = globalThis.__obscura_markTrusted(new KeyboardEvent('keydown', {bubbles:true,cancelable:true,key:'"@
}

/// The script that releases a key on the active element.
pub open spec fn up_head() -> Seq<char> {
    "(function() {\
var target = document.activeElement || document.body;\
var evt = globalThis.__obscura_markTrusted(new KeyboardEvent('keyup', {bubbles:true,key:'"@
}

/// Pressing a key tells the active element of it; where the key types a text other than a line
/// break the text is added to the active field, Enter then starts a new line or submits, and
/// Backspace takes a character off.
#[verifier::spinoff_prover]
pub proof fn keys_are_pressed(p: JsonView, kind: Seq<char>)
    requires
        p.get("type"@) == Some(JsonView::Str(kind)),
        kind == "keyDown"@ || kind == "rawKeyDown"@,
        ({
            let key = text_of(p, "key"@);
            let code = text_of(p, "code"@);
            let t = text_of(p, "text"@);
            &&& forall|i: int|
                0 <= i < key.len() ==> (#[trigger] key[i]) != '\n' && key[i] != '\r' && key[i]
                    != '\\'
            &&& forall|i: int|
                0 <= i < code.len() ==> (#[trigger] code[i]) != '\n' && code[i] != '\r' && code[i]
                    != '\\'
            &&& forall|i: int| 0 <= i < t.len() ==> (#[trigger] t[i]) != '\n' && t[i] != '\r'
        }),
    ensures
        ({
            let key = text_of(p, "key"@);
            let code = text_of(p, "code"@);
            let t = text_of(p, "text"@);
            let n: int = if t.len() > 0 {
                2
            } else {
                1
            };
            &&& input::input_plan("dispatchKeyEvent"@, p) matches Ok(plan)
            &&& plan.needs_page
            &&& plan.steps.len() >= 1 && plan.steps[0] is Evaluate && tells_of_key(
                plan.steps[0]->Evaluate_0,
                down_head(),
                key,
                code,
            )
            &&& t.len() > 0 ==> plan.steps.len() >= 2 && plan.steps[1] is Evaluate && types_text(
                plan.steps[1]->Evaluate_0,
                t,
            )
            &&& key == "Enter"@ ==> plan.steps.len() == n + 1 && plan.steps[n]
                == StepView::Evaluate(
                "(function() {\
var target = document.activeElement;\
if (!target) return;\
target.dispatchEvent(globalThis.__obscura_markTrusted(new KeyboardEvent('keypress', {bubbles:true,key:'Enter',code:'Enter'})));\
if (target.localName === 'textarea') {\
target.value = (target.value || '') + '\\n';\
target.dispatchEvent(globalThis.__obscura_markTrusted(new Event('input', {bubbles:true})));\
} else {\
var form = target.form || (target.closest && target.closest('form'));\
if (form && typeof form.submit === 'function') form.submit();\
}\
})()"@,
            )
            &&& key == "Backspace"@ ==> plan.steps.len() == n + 1 && plan.steps[n]
                == StepView::Evaluate(
                "(function() {\
var target = document.activeElement;\
if (target && (target.localName === 'input' || target.localName === 'textarea')) {\
target.value = target.value.slice(0, -1);\
target.dispatchEvent(globalThis.__obscura_markTrusted(new Event('input', {bubbles:true})));\
}\
})()"@,
            )
            &&& key != "Enter"@ && key != "Backspace"@ ==> plan.steps.len() == n
        }),
{
    kinds_differ();
    reveal_strlit("");
    assert(""@ =~= Seq::<char>::empty());
    let key = text_of(p, "key"@);
    let code = text_of(p, "code"@);
    let t = text_of(p, "text"@);
    plain_quotes_are_read_back(key);
    plain_quotes_are_read_back(code);
    typed_text_is_read_back(t);
    reveal_strlit("\n");
    reveal_strlit("\r");
    assert("\n"@[0] == '\n');
    assert("\r"@[0] == '\r');
    assert(tells_of_key(input::key_script(input::KEY_DOWN@, key, code), down_head(), key, code));
}

/// A line break that a key types adds nothing to the active field.
pub proof fn line_breaks_are_not_typed(steps: Seq<StepView>, t: Seq<char>)
    ensures
        input::typed(steps, seq!['\n']) == steps,
        input::typed(steps, seq!['\r']) == steps,
        input::typed(steps, Seq::empty()) == steps,
        t.len() > 1 ==> input::typed(steps, t) == steps.push(
            StepView::Evaluate(input::type_script(t)),
        ),
{
    reveal_strlit("\n");
    reveal_strlit("\r");
    assert("\n"@ =~= seq!['\n']);
    assert("\r"@ =~= seq!['\r']);
}

/// Releasing a key tells the active element of it and does nothing else; any other kind of key
/// event does nothing.
pub proof fn keys_are_released(p: JsonView, kind: Seq<char>)
    requires
        p.get("type"@) == Some(JsonView::Str(kind)),
        ({
            let key = text_of(p, "key"@);
            let code = text_of(p, "code"@);
            &&& forall|i: int|
                0 <= i < key.len() ==> (#[trigger] key[i]) != '\n' && key[i] != '\r' && key[i]
                    != '\\'
            &&& forall|i: int|
                0 <= i < code.len() ==> (#[trigger] code[i]) != '\n' && code[i] != '\r' && code[i]
                    != '\\'
        }),
    ensures
        ({
            &&& input::input_plan("dispatchKeyEvent"@, p) matches Ok(plan)
            &&& plan.needs_page
            &&& kind == "keyUp"@ ==> plan.steps.len() == 1 && plan.steps[0] is Evaluate
                && tells_of_key(
                plan.steps[0]->Evaluate_0,
                up_head(),
                text_of(p, "key"@),
                text_of(p, "code"@),
            )
            &&& kind != "keyUp"@ && kind != "keyDown"@ && kind != "rawKeyDown"@ && kind
                != "char"@ ==> plan.steps.len() == 0
        }),
{
    kinds_differ();
    reveal_strlit("");
    assert(""@ =~= Seq::<char>::empty());
    let key = text_of(p, "key"@);
    let code = text_of(p, "code"@);
    plain_quotes_are_read_back(key);
    plain_quotes_are_read_back(code);
    assert(tells_of_key(input::key_script(input::KEY_UP@, key, code), up_head(), key, code));
}

/// A coordinate that is a small integer is written in figures, and one that is not given, or is
/// no number, as zero.
pub proof fn coordinates_are_written(p: JsonView, name: Seq<char>, n: u64)
    ensures
        p.get(name) is None ==> input::coordinate(p, name) == "0"@,
        (p.get(name) matches Some(JsonView::Str(t))) ==> input::coordinate(p, name) == "0"@,
        p.get(name) == Some(JsonView::Null) ==> input::coordinate(p, name) == "0"@,
        p.get(name) == Some(JsonView::UInt(n)) && n < 0x20_0000_0000_0000 ==> input::coordinate(
            p,
            name,
        ) == text::decimal_text(n as nat),
{
}

/// Pressing the mouse button runs a script at the point that is given, with the number of clicks
/// that is given or else one, and then goes where a script asked to go.
pub proof fn the_mouse_is_pressed(p: JsonView)
    requires
        p.get("type"@) == Some(JsonView::Str("mousePressed"@)),
    ensures
        ({
            let x = input::coordinate(p, "x"@);
            let y = input::coordinate(p, "y"@);
            let clicks = match p.get("clickCount"@) {
                Some(JsonView::UInt(n)) => n,
                _ => 1,
            };
            let at = x + ",clientY:"@ + y + ",button:0,detail:"@ + text::decimal_text(
                clicks as nat,
            );
            &&& input::input_plan("dispatchMouseEvent"@, p) matches Ok(plan)
            &&& plan.needs_page && plan.steps.len() == 2
            &&& plan.steps[0] == StepView::Evaluate(
                "(function() {\
var target = (document.elementFromPoint && document.elementFromPoint("@ + x + ","@ + y
                    + ")) || globalThis.__obscura_click_target || document.activeElement || document.body;\
if (!target) return;\
globalThis.__obscura_click_target = target;\
var evt = globalThis.__obscura_markTrusted(new MouseEvent('mousedown', {bubbles:true,cancelable:true,clientX:"@ + at
                    + "}));\
target.dispatchEvent(evt);\
var click = globalThis.__obscura_markTrusted(new MouseEvent('click', {bubbles:true,cancelable:true,clientX:"@ + at
                    + "}));\
var cancelled = !target.dispatchEvent(click);\
if (!cancelled) {\
var link = target.closest ? target.closest('a[href]') : null;\
if (!link && target.tagName === 'A' && target.getAttribute('href')) link = target;\
if (link) {\
var href = link.getAttribute('href');\
if (href && !href.startsWith('#') && !href.startsWith('javascript:')) {\
location.assign(href);\
}\
} else {\
var tag = target.tagName;\
var type = (target.getAttribute && target.getAttribute('type') || '').toLowerCase();\
if (tag === 'BUTTON' && type !== 'button' && type !== 'reset') {\
var form = target.closest ? target.closest('form') : null;\
if (form && typeof form.submit === 'function') { try { form.submit(target); } catch(e) {} }\
} else if (tag === 'INPUT' && (type === 'submit' || type === 'image')) {\
var form2 = target.closest ? target.closest('form') : null;\
if (form2 && typeof form2.submit === 'function') { try { form2.submit(target); } catch(e) {} }\
} else if (tag === 'INPUT' && (type === 'checkbox' || type === 'radio')) {\
target.checked = !target.checked;\
try { target.dispatchEvent(globalThis.__obscura_markTrusted(new Event('change', {bubbles:true}))); } catch(e) {}\
}\
}\
}\
})()"@,
            )
            &&& plan.steps[1] is ProcessPendingNavigation
        }),
{
    kinds_differ();
}

/// Releasing the mouse button runs a script at the point that is given; any other mouse event
/// needs no page and does nothing.
pub proof fn the_mouse_is_released(p: JsonView, kind: Seq<char>)
    requires
        p.get("type"@) == Some(JsonView::Str(kind)),
    ensures
        ({
            let x = input::coordinate(p, "x"@);
            let y = input::coordinate(p, "y"@);
            &&& input::input_plan("dispatchMouseEvent"@, p) matches Ok(plan)
            &&& kind == "mouseReleased"@ ==> plan.needs_page && plan.steps.len() == 1
                && plan.steps[0] == StepView::Evaluate(
                "(function() {\
var target = (document.elementFromPoint && document.elementFromPoint("@ + x + ","@ + y
                    + ")) || globalThis.__obscura_click_target || document.activeElement || document.body;\
if (!target) return;\
var evt = globalThis.__obscura_markTrusted(new MouseEvent('mouseup', {bubbles:true,cancelable:true,clientX:"@ + x + ",clientY:"@ + y
                    + ",button:0}));\
target.dispatchEvent(evt);\
})()"@,
            )
            &&& kind != "mouseReleased"@ && kind != "mousePressed"@ ==> !plan.needs_page
                && plan.steps.len() == 0
        }),
{
    kinds_differ();
}

/// A key event of any kind needs a page.
pub proof fn key_events_need_a_page(p: JsonView)
    ensures
        input::input_plan("dispatchKeyEvent"@, p) matches Ok(plan) && plan.needs_page,
{
    kinds_differ();
}

/// Touch events and the wish to ignore input are taken and do nothing; any other method is an
/// error that names it.
pub proof fn other_input_is_refused(method: Seq<char>, p: JsonView)
    ensures
        method == "dispatchTouchEvent"@ || method == "setIgnoreInputEvents"@ ==> {
            &&& input::input_plan(method, p) matches Ok(plan)
            &&& !plan.needs_page && plan.steps.len() == 0
        },
        method != "dispatchMouseEvent"@ && method != "dispatchKeyEvent"@ && method
            != "dispatchTouchEvent"@ && method != "setIgnoreInputEvents"@ ==> input::input_plan(
            method,
            p,
        ) == Err::<PlanView, Seq<char>>("Unknown Input method: "@ + method),
{
    kinds_differ();
}

/// A text is written between the quotes of a script character by character: a backslash and a quote
/// each behind a backslash, and any other as it is, line breaks too.
pub proof fn characters_are_escaped(s: Seq<char>, c: char)
    ensures
        input::escaped(Seq::empty()).len() == 0,
        input::escaped(s.push('\\')) == input::escaped(s) + seq!['\\', '\\'],
        input::escaped(s.push('\'')) == input::escaped(s) + seq!['\\', '\''],
        c != '\\' && c != '\'' ==> input::escaped(s.push(c)) == input::escaped(s) + seq![c],
        input::quotes_escaped(Seq::empty()).len() == 0,
        input::quotes_escaped(s.push('\'')) == input::quotes_escaped(s) + seq!['\\', '\''],
        c != '\'' ==> input::quotes_escaped(s.push(c)) == input::quotes_escaped(s) + seq![c],
{
    reveal_strlit("\\\\");
    reveal_strlit("\\'");
    assert("\\\\"@ =~= seq!['\\', '\\']);
    assert("\\'"@ =~= seq!['\\', '\'']);
    let a = text::replaced(s, '\\', "\\\\"@);
    text_laws::characters_are_replaced(s, '\\', '\'', "\\\\"@);
    text_laws::characters_are_replaced(s, '\\', c, "\\\\"@);
    text_laws::characters_are_replaced(s, '\'', c, "\\'"@);
    text_laws::characters_are_replaced(a, '\'', '\\', "\\'"@);
    text_laws::characters_are_replaced(a, '\'', c, "\\'"@);
    text_laws::characters_are_replaced(a.push('\\'), '\'', '\\', "\\'"@);
    assert(a + "\\\\"@ =~= a.push('\\').push('\\'));
    assert(input::escaped(s.push('\\')) =~= input::escaped(s) + seq!['\\', '\\']);
    if c != '\\' && c != '\'' {
        assert(input::escaped(s.push(c)) =~= input::escaped(s) + seq![c]);
    }
    if c != '\'' {
        assert(input::quotes_escaped(s.push(c)) =~= input::quotes_escaped(s) + seq![c]);
    }
}

/// Whatever the name and the code of a key are, they stand in the script with their quotes behind
/// backslashes; whatever the text is, it stands in the script that types it with its quotes and
/// backslashes behind backslashes.
pub proof fn keys_and_texts_are_written(p: JsonView, kind: Seq<char>)
    requires
        p.get("type"@) == Some(JsonView::Str(kind)),
    ensures
        ({
            let names = input::quotes_escaped(text_of(p, "key"@)) + "',code:'"@
                + input::quotes_escaped(text_of(p, "code"@))
                + "'}));\
target.dispatchEvent(evt);\
})()"@;
            let t = text_of(p, "text"@);
            let typing = "(function() {\
var target = document.activeElement;\
if (target && (target.localName === 'input' || target.localName === 'textarea')) {\
target.value = (target.value || '') + '"@ + input::escaped(t)
                + "';\
target.dispatchEvent(globalThis.__obscura_markTrusted(new Event('input', {bubbles:true})));\
}\
})()"@;
            &&& input::input_plan("dispatchKeyEvent"@, p) matches Ok(plan)
            &&& kind == "keyDown"@ || kind == "rawKeyDown"@ ==> plan.steps.len() >= 1
                && plan.steps[0] == StepView::Evaluate(down_head() + names)
            &&& (kind == "keyDown"@ || kind == "rawKeyDown"@) && t.len() > 1 ==> plan.steps.len()
                >= 2 && plan.steps[1] == StepView::Evaluate(typing)
            &&& kind == "keyUp"@ ==> plan.steps.len() == 1 && plan.steps[0] == StepView::Evaluate(
                up_head() + names,
            )
            &&& kind == "char"@ && t.len() > 0 ==> plan.steps.len() == 2 && plan.steps[0]
                == StepView::Evaluate(typing) && plan.steps[1] == StepView::Settle(50)
        }),
{
    kinds_differ();
    reveal_strlit("");
    assert(""@ =~= Seq::<char>::empty());
    let key = text_of(p, "key"@);
    let code = text_of(p, "code"@);
    let t = text_of(p, "text"@);
    line_breaks_are_not_typed(
        Seq::<StepView>::empty().push(
            StepView::Evaluate(input::key_script(input::KEY_DOWN@, key, code)),
        ),
        t,
    );
    let a = input::quotes_escaped(key);
    let b = "',code:'"@;
    let c = input::quotes_escaped(code);
    let d = input::KEY_TAIL@;
    assert(down_head() + a + b + c + d =~= down_head() + (a + b + c + d));
    assert(up_head() + a + b + c + d =~= up_head() + (a + b + c + d));
}

} // verus!
