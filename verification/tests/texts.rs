//! Strings, numerals, JSON and base 64.

use obscura::assoc::StringMap;
use obscura::base64::decode_base64;
use obscura::json::Json;
use obscura::text::{
    clone_opt, contains, decimal, ends_with, eq_ignore_ascii_case, join, parse_uint, replace_char,
    same, split, split_once, starts_with, strip_prefix, to_ascii_uppercase, trim_end,
};

#[test]
fn texts_are_searched() {
    assert!(starts_with("loader-1", "loader-"));
    assert!(!starts_with("load", "loader-"));
    assert!(ends_with("a.localhost", ".localhost"));
    assert!(!ends_with("localhost", ".localhost"));
    assert!(contains("xxPage.navigatexx", "Page.navigate"));
    assert!(contains("abc", ""));
    assert!(contains("", ""));
    assert!(!contains("", "a"));
    assert!(same("\u{e9}", "\u{e9}"));
    assert!(!same("e", "\u{e9}"));
}

#[test]
fn texts_are_split_and_joined() {
    assert_eq!(split("a=1; b=2; c", "; "), vec!["a=1", "b=2", "c"]);
    assert_eq!(split("", "; "), vec![""]);
    assert_eq!(split("a;; b", "; "), vec!["a;", "b"]);
    for t in ["", "; ", "a; b", "; a; ; b; "] {
        assert_eq!(join(&split(t, "; "), "; "), t);
    }
    assert_eq!(split_once("Page.navigate.now", '.'), Some(("Page".into(), "navigate.now".into())));
    assert_eq!(split_once("Page", '.'), None);
}

#[test]
fn numbers_are_written_and_read() {
    assert_eq!(decimal(0), "0");
    assert_eq!(decimal(18446744073709551615), "18446744073709551615");
    for n in [0u64, 9, 10, 65535, 65536, u64::MAX] {
        assert_eq!(parse_uint(&decimal(n), u64::MAX), Some(n));
    }
    assert_eq!(parse_uint("+8", 65535), Some(8));
    assert_eq!(parse_uint("008", 65535), Some(8));
    assert_eq!(parse_uint("65536", 65535), None);
    assert_eq!(parse_uint("18446744073709551616", u64::MAX), None);
    assert_eq!(parse_uint("", u64::MAX), None);
    assert_eq!(parse_uint("+", u64::MAX), None);
    assert_eq!(parse_uint("-1", u64::MAX), None);
    assert_eq!(parse_uint("1a", u64::MAX), None);
}

#[test]
fn texts_are_edited() {
    assert_eq!(to_ascii_uppercase("sha-1\u{e9}"), "SHA-1\u{e9}");
    assert!(eq_ignore_ascii_case("User-Agent", "user-agent"));
    assert!(!eq_ignore_ascii_case("User-Agents", "user-agent"));
    assert_eq!(replace_char("it's", '\'', "\\'"), "it\\'s");
    assert_eq!(trim_end("https::", ':'), "https");
    assert_eq!(trim_end(":", ':'), "");
    assert_eq!(strip_prefix("??a", '?'), "?a");
    assert_eq!(strip_prefix("a", '?'), "a");
    assert_eq!(clone_opt(&Some("a".to_string())), Some("a".to_string()));
}

#[test]
fn maps_keep_the_last_value() {
    let mut m = StringMap::new();
    m.insert("a", "1");
    m.insert("b", "2");
    m.insert("a", "3");
    assert_eq!(m.get("a"), Some("3"));
    assert_eq!(m.entries.len(), 2);
    let mut more = StringMap::new();
    more.insert("b", "4");
    more.insert("c", "4");
    m.extend(&more);
    assert_eq!(m.get("b"), Some("4"));
    let copy = m.duplicate();
    m.remove_value("4");
    assert!(!m.contains_key("b") && !m.contains_key("c") && m.contains_key("a"));
    m.remove("a");
    assert_eq!(m.get("a"), None);
    assert_eq!(copy.entries.len(), 3);
}

#[test]
fn json_is_read_and_written() {
    let j = Json::parse(" { \"b\" : [ 1 , -2 , 2.50 , null , true ] , \"a\" : \"x\\n\" } ").ok().unwrap();
    assert_eq!(j.to_text(), "{\"b\":[1,-2,2.5,null,true],\"a\":\"x\\n\"}");
    assert_eq!(j.duplicate().to_text(), j.to_text());
    assert_eq!(Json::of_value(&j.to_value()).to_text(), j.to_text());
    let again = Json::parse(&j.to_text()).ok().unwrap();
    assert_eq!(again.to_text(), j.to_text());
    assert_eq!(j.get_str("a"), Some("x\n"));
    assert!(Json::parse("{not valid json").is_err());
}

#[test]
fn json_members_are_set_once() {
    let j = Json::object().put("k", Json::UInt(1)).put("l", Json::Null).put("k", Json::string("v"));
    assert_eq!(j.to_text(), "{\"k\":\"v\",\"l\":null}");
    assert_eq!(j.get_str_or("k", "d"), "v");
    assert_eq!(j.get_str_or("m", "d"), "d");
    assert_eq!(j.get_u64_or("k", 7), 7);
    assert!(Json::Null.put("k", Json::Null).get("k").is_none());
    assert_eq!(Json::opt_string(&None).to_text(), "null");
}

#[test]
fn json_is_indented() {
    let j = Json::object().put("a", Json::UInt(1));
    assert_eq!(j.to_pretty_text(), "{\n  \"a\": 1\n}");
}

#[test]
fn json_numbers_are_displayed() {
    let show = |t: &str| Json::parse(t).ok().unwrap().number_text();
    assert_eq!(show("10"), Some("10".to_string()));
    assert_eq!(show("10.50"), Some("10.5".to_string()));
    assert_eq!(show("1e2"), Some("100".to_string()));
    assert_eq!(show("-3"), Some("-3".to_string()));
    assert_eq!(show("0.0"), Some("0".to_string()));
    assert_eq!(show("\"10\""), None);
}

#[test]
fn base64_is_decoded() {
    assert_eq!(decode_base64("aGVsbG8="), "hello");
    assert_eq!(decode_base64("aGVsbG8"), "hello");
    assert_eq!(decode_base64("aGVs\nbG8h"), "hello!");
    assert_eq!(decode_base64(""), "");
    assert_eq!(decode_base64("w6k="), "\u{e9}");
    assert_eq!(decode_base64("/w=="), "\u{fffd}");
    assert_eq!(decode_base64("a"), "h");
}
