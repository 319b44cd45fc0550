//! What input events do on a page.

use obscura::cdp::input::{handle, InputPlan, PageStep};
use obscura::json::Json;

fn plan(method: &str, params: &str) -> InputPlan {
    handle(method, &Json::parse(params).ok().unwrap()).ok().unwrap()
}

fn script(s: &PageStep) -> &str {
    match s {
        PageStep::Evaluate(t) => t.as_str(),
        _ => panic!("a script"),
    }
}

#[test]
fn pressing_the_mouse_clicks() {
    let p = plan("dispatchMouseEvent", "{\"type\":\"mousePressed\",\"x\":10,\"y\":20.50,\"clickCount\":2}");
    assert!(p.needs_page);
    assert_eq!(p.steps.len(), 2);
    assert_eq!(script(&p.steps[0]), "(function() {var target = (document.elementFromPoint && document.elementFromPoint(10,20.5)) || globalThis.__obscura_click_target || document.activeElement || document.body;if (!target) return;globalThis.__obscura_click_target = target;var evt = globalThis.__obscura_markTrusted(new MouseEvent('mousedown', {bubbles:true,cancelable:true,clientX:10,clientY:20.5,button:0,detail:2}));target.dispatchEvent(evt);var click = globalThis.__obscura_markTrusted(new MouseEvent('click', {bubbles:true,cancelable:true,clientX:10,clientY:20.5,button:0,detail:2}));var cancelled = !target.dispatchEvent(click);if (!cancelled) {var link = target.closest ? target.closest('a[href]') : null;if (!link && target.tagName === 'A' && target.getAttribute('href')) link = target;if (link) {var href = link.getAttribute('href');if (href && !href.startsWith('#') && !href.startsWith('javascript:')) {location.assign(href);}} else {var tag = target.tagName;var type = (target.getAttribute && target.getAttribute('type') || '').toLowerCase();if (tag === 'BUTTON' && type !== 'button' && type !== 'reset') {var form = target.closest ? target.closest('form') : null;if (form && typeof form.submit === 'function') { try { form.submit(target); } catch(e) {} }} else if (tag === 'INPUT' && (type === 'submit' || type === 'image')) {var form2 = target.closest ? target.closest('form') : null;if (form2 && typeof form2.submit === 'function') { try { form2.submit(target); } catch(e) {} }} else if (tag === 'INPUT' && (type === 'checkbox' || type === 'radio')) {target.checked = !target.checked;try { target.dispatchEvent(globalThis.__obscura_markTrusted(new Event('change', {bubbles:true}))); } catch(e) {}}}}})()");
    assert!(matches!(p.steps[1], PageStep::ProcessPendingNavigation));
}

#[test]
fn releasing_the_mouse_is_told() {
    let p = plan("dispatchMouseEvent", "{\"type\":\"mouseReleased\",\"x\":\"5\"}");
    assert!(p.needs_page);
    assert_eq!(p.steps.len(), 1);
    assert_eq!(script(&p.steps[0]), "(function() {var target = (document.elementFromPoint && document.elementFromPoint(0,0)) || globalThis.__obscura_click_target || document.activeElement || document.body;if (!target) return;var evt = globalThis.__obscura_markTrusted(new MouseEvent('mouseup', {bubbles:true,cancelable:true,clientX:0,clientY:0,button:0}));target.dispatchEvent(evt);})()");
    let moved = plan("dispatchMouseEvent", "{\"type\":\"mouseMoved\"}");
    assert!(!moved.needs_page && moved.steps.is_empty());
}

#[test]
fn clicks_count_from_one() {
    let p = plan("dispatchMouseEvent", "{\"type\":\"mousePressed\"}");
    assert!(script(&p.steps[0]).contains("elementFromPoint(0,0)"));
    assert!(script(&p.steps[0]).contains("clientX:0,clientY:0,button:0,detail:1}"));
}

#[test]
fn pressing_a_key_types() {
    let p = plan("dispatchKeyEvent", "{\"type\":\"keyDown\",\"key\":\"'\",\"code\":\"Quote\",\"text\":\"'\"}");
    assert!(p.needs_page);
    assert_eq!(p.steps.len(), 2);
    assert_eq!(script(&p.steps[0]), "(function() {var target = document.activeElement || document.body;var evt = globalThis.__obscura_markTrusted(new KeyboardEvent('keydown', {bubbles:true,cancelable:true,key:'\\'',code:'Quote'}));target.dispatchEvent(evt);})()");
    assert_eq!(script(&p.steps[1]), "(function() {var target = document.activeElement;if (target && (target.localName === 'input' || target.localName === 'textarea')) {target.value = (target.value || '') + '\\'';target.dispatchEvent(globalThis.__obscura_markTrusted(new Event('input', {bubbles:true})));}})()");
}

#[test]
fn enter_and_backspace_do_more() {
    let enter = plan("dispatchKeyEvent", "{\"type\":\"rawKeyDown\",\"key\":\"Enter\",\"text\":\"\\r\"}");
    assert_eq!(enter.steps.len(), 2);
    assert_eq!(script(&enter.steps[1]), "(function() {var target = document.activeElement;if (!target) return;target.dispatchEvent(globalThis.__obscura_markTrusted(new KeyboardEvent('keypress', {bubbles:true,key:'Enter',code:'Enter'})));if (target.localName === 'textarea') {target.value = (target.value || '') + '\\n';target.dispatchEvent(globalThis.__obscura_markTrusted(new Event('input', {bubbles:true})));} else {var form = target.form || (target.closest && target.closest('form'));if (form && typeof form.submit === 'function') form.submit();}})()");
    let back = plan("dispatchKeyEvent", "{\"type\":\"keyDown\",\"key\":\"Backspace\"}");
    assert_eq!(back.steps.len(), 2);
    assert_eq!(script(&back.steps[1]), "(function() {var target = document.activeElement;if (target && (target.localName === 'input' || target.localName === 'textarea')) {target.value = target.value.slice(0, -1);target.dispatchEvent(globalThis.__obscura_markTrusted(new Event('input', {bubbles:true})));}})()");
}

#[test]
fn releasing_a_key_is_told() {
    let p = plan("dispatchKeyEvent", "{\"type\":\"keyUp\",\"key\":\"a\",\"code\":\"KeyA\"}");
    assert_eq!(p.steps.len(), 1);
    assert_eq!(script(&p.steps[0]), "(function() {var target = document.activeElement || document.body;var evt = globalThis.__obscura_markTrusted(new KeyboardEvent('keyup', {bubbles:true,key:'a',code:'KeyA'}));target.dispatchEvent(evt);})()");
}

#[test]
fn characters_are_typed_and_settle() {
    let p = plan("dispatchKeyEvent", "{\"type\":\"char\",\"text\":\"\\\\\"}");
    assert_eq!(p.steps.len(), 2);
    assert_eq!(script(&p.steps[0]), "(function() {var target = document.activeElement;if (target && (target.localName === 'input' || target.localName === 'textarea')) {target.value = (target.value || '') + '\\\\';target.dispatchEvent(globalThis.__obscura_markTrusted(new Event('input', {bubbles:true})));}})()");
    assert!(matches!(p.steps[1], PageStep::Settle(50)));
    let none = plan("dispatchKeyEvent", "{\"type\":\"char\"}");
    assert!(none.needs_page && none.steps.is_empty());
    let other = plan("dispatchKeyEvent", "{\"type\":\"other\"}");
    assert!(other.needs_page && other.steps.is_empty());
}

#[test]
fn other_input_does_nothing() {
    for m in ["dispatchTouchEvent", "setIgnoreInputEvents"] {
        let p = plan(m, "{}");
        assert!(!p.needs_page && p.steps.is_empty());
    }
    assert_eq!(handle("dance", &Json::Null).err().unwrap(), "Unknown Input method: dance");
}
