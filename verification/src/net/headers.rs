//! What may stand in the head of an HTTP request, and what is read from that of a response.

use vstd::prelude::*;
use vstd::string::*;

use crate::assoc::StringMap;
use crate::assoc;
use crate::text;

verus! {

/// Whether a character may stand in a method or in the name of a header.
pub open spec fn token_char(c: char) -> bool {
    ||| '0' <= c <= '9'
    ||| 'A' <= c <= 'Z'
    ||| 'a' <= c <= 'z'
    ||| c == '!'
    ||| c == '#'
    ||| c == '$'
    ||| c == '%'
    ||| c == '&'
    ||| c == '\''
    ||| c == '*'
    ||| c == '+'
    ||| c == '-'
    ||| c == '.'
    ||| c == '^'
    ||| c == '_'
    ||| c == '`'
    ||| c == '|'
    ||| c == '~'
}

/// Whether a text is one or more token characters.
pub open spec fn token(s: Seq<char>) -> bool {
    s.len() > 0 && forall|i: int| 0 <= i < s.len() ==> token_char(#[trigger] s[i])
}

/// Whether a text may be the value of a header: no control characters but the tab.
pub open spec fn header_value(s: Seq<char>) -> bool {
    forall|i: int| 0 <= i < s.len() ==> (#[trigger] s[i]) == '\t' || s[i] >= ' ' && s[i] != '\x7f'
}

/// The name that a header is sent under, where it may be sent.
pub open spec fn header_name(s: Seq<char>) -> Option<Seq<char>> {
    if token(s) && s.len() <= 65535 {
        Some(text::lower_text(s))
    } else {
        None
    }
}

/// Calls `reqwest::Method::from_bytes`, which takes a token and keeps it as it is.
#[verifier::external_body]
pub(crate) fn parse_method(s: &str) -> (r: Option<String>)
    ensures
        r is Some == token(s@),
        r is Some ==> r->0@ == s@,
{
    reqwest::Method::from_bytes(s.as_bytes()).ok().map(|m| m.as_str().to_owned())
}

/// Calls `reqwest::header::HeaderValue::from_str`, which refuses control characters.
#[verifier::external_body]
pub(crate) fn valid_header_value(s: &str) -> (r: bool)
    ensures
        r == header_value(s@),
{
    reqwest::header::HeaderValue::from_str(s).is_ok()
}

/// Calls `reqwest::header::HeaderName::from_bytes`, which takes a token that is not too
/// long and puts it in lower case.
#[verifier::external_body]
pub(crate) fn parse_header_name(s: &str) -> (r: Option<String>)
    ensures
        text::opt(r) == header_name(s@),
{
    reqwest::header::HeaderName::from_bytes(s.as_bytes()).ok().map(|n| n.as_str().to_owned())
}

/// The headers of a response in the order in which they came: their names, and their values
/// where they can be read as text. A name may come more than once.
pub open spec fn received(h: Seq<(String, Option<String>)>) -> Seq<(Seq<char>, Option<Seq<char>>)> {
    h.map_values(|e: (String, Option<String>)| (e.0@, text::opt(e.1)))
}

/// The value that a header comes with first, if it comes.
pub open spec fn first_value(h: Seq<(Seq<char>, Option<Seq<char>>)>, name: Seq<char>) -> Option<
    Option<Seq<char>>,
>
    decreases h.len(),
{
    if h.len() == 0 {
        None
    } else if h[0].0 == name {
        Some(h[0].1)
    } else {
        first_value(h.skip(1), name)
    }
}

/// The value that a header comes with first, where it comes and can be read.
pub open spec fn first_text(h: Seq<(Seq<char>, Option<Seq<char>>)>, name: Seq<char>) -> Option<
    Seq<char>,
> {
    match first_value(h, name) {
        Some(v) => v,
        None => None,
    }
}

/// The values that a header comes with, in order, but for those that cannot be read.
pub open spec fn texts_named(h: Seq<(Seq<char>, Option<Seq<char>>)>, name: Seq<char>) -> Seq<
    Seq<char>,
>
    decreases h.len(),
{
    if h.len() == 0 {
        Seq::empty()
    } else {
        let rest = texts_named(h.drop_last(), name);
        match h.last().1 {
            Some(v) => if h.last().0 == name {
                rest.push(v)
            } else {
                rest
            },
            None => rest,
        }
    }
}

/// The headers of a response by name: of those with the same name the last, and nothing for
/// a value that cannot be read.
pub open spec fn by_name(h: Seq<(Seq<char>, Option<Seq<char>>)>) -> Seq<(Seq<char>, Seq<char>)>
    decreases h.len(),
{
    if h.len() == 0 {
        Seq::empty()
    } else {
        assoc::with(
            by_name(h.drop_last()),
            h.last().0,
            match h.last().1 {
                Some(v) => v,
                None => Seq::empty(),
            },
        )
    }
}

/// Headers with their names in lower case.
pub open spec fn lower_names(h: Seq<(Seq<char>, Option<Seq<char>>)>) -> Seq<
    (Seq<char>, Option<Seq<char>>),
> {
    h.map_values(|e: (Seq<char>, Option<Seq<char>>)| (text::lowered(e.0), e.1))
}

/// The value that a header comes with first, if it comes.
pub fn find_first<'a>(h: &'a Vec<(String, Option<String>)>, name: &str) -> (r: Option<
    &'a Option<String>,
>)
    ensures
        (match r {
            Some(v) => Some(text::opt(*v)),
            None => None,
        }) == first_value(received(h@), name@),
{
    let mut i: usize = 0;
    assert(received(h@).skip(0) =~= received(h@));
    while i < h.len()
        invariant
            i <= h.len(),
            first_value(received(h@), name@) == first_value(received(h@).skip(i as int), name@),
        decreases h.len() - i,
    {
        assert(received(h@).skip(i as int).skip(1) =~= received(h@).skip(i + 1));
        if text::same(h[i].0.as_str(), name) {
            return Some(&h[i].1);
        }
        i += 1;
    }
    None
}

/// The value that a header comes with first, where it comes and can be read.
pub fn find_text<'a>(h: &'a Vec<(String, Option<String>)>, name: &str) -> (r: Option<&'a str>)
    ensures
        text::opt_str(r) == first_text(received(h@), name@),
{
    match find_first(h, name) {
        Some(Some(v)) => Some(v.as_str()),
        _ => None,
    }
}

/// The values that a header comes with, in order, but for those that cannot be read.
pub fn find_texts(h: &Vec<(String, Option<String>)>, name: &str) -> (r: Vec<String>)
    ensures
        text::texts(r@) == texts_named(received(h@), name@),
{
    let mut out: Vec<String> = Vec::new();
    let mut i: usize = 0;
    assert(text::texts(out@) =~= Seq::empty());
    while i < h.len()
        invariant
            i <= h.len(),
            text::texts(out@) == texts_named(received(h@).subrange(0, i as int), name@),
        decreases h.len() - i,
    {
        assert(received(h@).subrange(0, i + 1).drop_last() =~= received(h@).subrange(0, i as int));
        if text::same(h[i].0.as_str(), name) {
            if let Some(v) = &h[i].1 {
                text::push_text(&mut out, v.clone());
            }
        }
        i += 1;
    }
    assert(received(h@).subrange(0, i as int) =~= received(h@));
    out
}

/// The headers of a response by name.
pub fn index_by_name(h: &Vec<(String, Option<String>)>) -> (r: StringMap)
    ensures
        r@ == by_name(received(h@)),
{
    proof {
        reveal_strlit("");
        assert(""@ =~= Seq::<char>::empty());
    }
    let mut out: StringMap = StringMap::new();
    let mut i: usize = 0;
    while i < h.len()
        invariant
            i <= h.len(),
            ""@ == Seq::<char>::empty(),
            out@ == by_name(received(h@).subrange(0, i as int)),
        decreases h.len() - i,
    {
        assert(received(h@).subrange(0, i + 1).drop_last() =~= received(h@).subrange(0, i as int));
        let value: &str = match &h[i].1 {
            Some(v) => v.as_str(),
            None => "",
        };
        out.insert(h[i].0.as_str(), value);
        i += 1;
    }
    assert(received(h@).subrange(0, i as int) =~= received(h@));
    out
}

/// The headers of a response by their names in lower case.
pub fn index_by_lower_name(h: &Vec<(String, Option<String>)>) -> (r: StringMap)
    ensures
        r@ == by_name(lower_names(received(h@))),
{
    let mut low: Vec<(String, Option<String>)> = Vec::new();
    let mut i: usize = 0;
    while i < h.len()
        invariant
            i <= h.len(),
            received(low@) =~= lower_names(received(h@)).subrange(0, i as int),
        decreases h.len() - i,
    {
        let ghost before = low@;
        let e: (String, Option<String>) = (
            text::to_lowercase(h[i].0.as_str()),
            text::clone_opt(&h[i].1),
        );
        low.push(e);
        assert(received(low@) =~= received(before).push((e.0@, text::opt(e.1))));
        i += 1;
    }
    assert(received(low@) =~= lower_names(received(h@)));
    index_by_name(&low)
}

} // verus!
