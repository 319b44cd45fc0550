//! What holds of URLs, digests and settings as page scripts meet them.

use vstd::prelude::*;
use vstd::string::*;

use crate::js::ops::{self, EditView, PortEdit};
use crate::json::{self, JsonView};
use crate::net::url::{self, UrlView};
use crate::text;
use crate::text_laws;

verus! {

/// How some names are spelled: enough to tell them apart.
spec fn parts_differ_spelled() -> bool {
    &&& "ok"@.len() == 2
    &&& "href"@.len() == 4
    &&& "protocol"@.len() == 8
    &&& "username"@.len() == 8
    &&& "password"@.len() == 8
    &&& "host"@.len() == 4
    &&& "hostname"@.len() == 8
    &&& "port"@.len() == 4
    &&& "pathname"@.len() == 8
    &&& "search"@.len() == 6
    &&& "hash"@.len() == 4
    &&& "origin"@.len() == 6
    &&& "href"@[1] == 'r'
    &&& "host"@[1] == 'o'
    &&& "href"@[0] == 'h'
    &&& "port"@[0] == 'p'
    &&& "hash"@[1] == 'a'
    &&& "protocol"@[0] == 'p'
    &&& "username"@[0] == 'u'
    &&& "protocol"@[1] == 'r'
    &&& "password"@[1] == 'a'
    &&& "hostname"@[0] == 'h'
    &&& "pathname"@[1] == 'a'
    &&& "password"@[0] == 'p'
    &&& "pathname"@[0] == 'p'
    &&& "password"@[2] == 's'
    &&& "pathname"@[2] == 't'
    &&& "host"@[0] == 'h'
    &&& "hash"@[0] == 'h'
    &&& "search"@[0] == 's'
    &&& "origin"@[0] == 'o'
}

#[verifier::spinoff_prover]
proof fn parts_differ()
    ensures
        parts_differ_spelled(),
{
    reveal_strlit("ok");
    reveal_strlit("href");
    reveal_strlit("protocol");
    reveal_strlit("username");
    reveal_strlit("password");
    reveal_strlit("host");
    reveal_strlit("hostname");
    reveal_strlit("port");
    reveal_strlit("pathname");
    reveal_strlit("search");
    reveal_strlit("hash");
    reveal_strlit("origin");
}

/// The parts of a URL that scripts read: its serialization, its scheme with a colon behind it, the
/// user and the password, the host with and without the port, the path, the query and the fragment
/// with their marks unless they are empty, and the origin.
pub proof fn scripts_read_parts(u: UrlView)
    ensures
        ({
            let j = u.components();
            let h = if u.hostname is Some {
                u.hostname->0
            } else {
                Seq::empty()
            };
            let p = if u.port is Some {
                text::decimal_text(u.port->0 as nat)
            } else {
                Seq::empty()
            };
            &&& j.get("ok"@) == Some(JsonView::Bool(true))
            &&& j.get("href"@) == Some(JsonView::Str(u.href))
            &&& j.get("protocol"@) == Some(JsonView::Str(u.scheme.push(':')))
            &&& j.get("username"@) == Some(JsonView::Str(u.username))
            &&& j.get("password"@) == Some(JsonView::Str(u.password))
            &&& j.get("hostname"@) == Some(JsonView::Str(h))
            &&& j.get("port"@) == Some(JsonView::Str(p))
            &&& h.len() > 0 && u.port is Some ==> j.get("host"@) == Some(
                JsonView::Str(h + seq![':'] + p),
            )
            &&& h.len() == 0 || u.port is None ==> j.get("host"@) == Some(JsonView::Str(h))
            &&& j.get("pathname"@) == Some(JsonView::Str(u.path))
            &&& u.query is None ==> j.get("search"@) == Some(JsonView::Str(Seq::empty()))
            &&& u.query matches Some(q) ==> j.get("search"@) == Some(
                JsonView::Str(
                    if q.len() > 0 {
                        seq!['?'] + q
                    } else {
                        q
                    },
                ),
            )
            &&& u.fragment is None ==> j.get("hash"@) == Some(JsonView::Str(Seq::empty()))
            &&& u.fragment matches Some(f) ==> j.get("hash"@) == Some(
                JsonView::Str(
                    if f.len() > 0 {
                        seq!['#'] + f
                    } else {
                        f
                    },
                ),
            )
            &&& j.get("origin"@) == Some(JsonView::Str(u.origin()))
        }),
{
    parts_differ();
    json::object_is_keyed();
    let j0 = JsonView::object();
    json::put_sets(j0, "ok"@, JsonView::Bool(true));
    let j1 = j0.put("ok"@, JsonView::Bool(true));
    json::put_sets(j1, "href"@, JsonView::Str(u.href));
    let j2 = j1.put("href"@, JsonView::Str(u.href));
    json::put_sets(j2, "protocol"@, JsonView::Str(u.scheme + ":"@));
    let j3 = j2.put("protocol"@, JsonView::Str(u.scheme + ":"@));
    json::put_sets(j3, "username"@, JsonView::Str(u.username));
    let j4 = j3.put("username"@, JsonView::Str(u.username));
    json::put_sets(j4, "password"@, JsonView::Str(u.password));
    let j5 = j4.put("password"@, JsonView::Str(u.password));
    json::put_sets(j5, "host"@, JsonView::Str(u.host_text()));
    let j6 = j5.put("host"@, JsonView::Str(u.host_text()));
    json::put_sets(j6, "hostname"@, JsonView::Str(u.hostname_text()));
    let j7 = j6.put("hostname"@, JsonView::Str(u.hostname_text()));
    json::put_sets(j7, "port"@, JsonView::Str(u.port_text()));
    let j8 = j7.put("port"@, JsonView::Str(u.port_text()));
    json::put_sets(j8, "pathname"@, JsonView::Str(u.path));
    let j9 = j8.put("pathname"@, JsonView::Str(u.path));
    json::put_sets(j9, "search"@, JsonView::Str(ops::marked("?"@, u.query)));
    let j10 = j9.put("search"@, JsonView::Str(ops::marked("?"@, u.query)));
    json::put_sets(j10, "hash"@, JsonView::Str(ops::marked("#"@, u.fragment)));
    let j11 = j10.put("hash"@, JsonView::Str(ops::marked("#"@, u.fragment)));
    json::put_sets(j11, "origin"@, JsonView::Str(u.origin()));
    reveal_strlit(":");
    reveal_strlit("?");
    reveal_strlit("#");
    assert(u.scheme + ":"@ =~= u.scheme.push(':'));
    assert(":"@ =~= seq![':']);
    assert("?"@ =~= seq!['?']);
    assert("#"@ =~= seq!['#']);
    if let Some(q) = u.query {
        if q.len() == 0 {
            assert(q =~= Seq::empty());
        }
    }
    if let Some(f) = u.fragment {
        if f.len() == 0 {
            assert(f =~= Seq::empty());
        }
    }
    if u.hostname is Some && u.hostname->0.len() == 0 {
        assert(u.hostname->0 =~= Seq::empty());
    }
}

/// The origin of a URL is the one that the text of the URL has, unless it holds too many URLs in
/// one another; then that of the URL in its path. What has none is `null`.
pub proof fn origins_are_told(t: Seq<char>, n: nat, o: Seq<char>, u: UrlView)
    ensures
        url::url_parsed(t) == Ok::<UrlView, Seq<char>>(u) && u.scheme != "blob"@
            && url::url_origin(t) == Some(o) ==> url::origin_within(t, n) == o,
        url::url_parsed(t) == Ok::<UrlView, Seq<char>>(u) && u.scheme == "blob"@
            && url::count_of(u.path, ':') <= 100 && url::url_origin(t) == Some(o)
            ==> url::origin_within(t, n) == o,
        url::url_parsed(t) == Ok::<UrlView, Seq<char>>(u) && u.scheme == "blob"@
            && url::count_of(u.path, ':') > 100 ==> url::origin_within(t, n + 1)
            == url::origin_within(u.path, n) && url::origin_within(t, 0) == "null"@,
        url::url_parsed(t) is Err && url::url_origin(t) is None ==> url::origin_within(t, n)
            == "null"@,
        u.origin() == url::origin_within(u.href, url::count_of(u.href, ':')),
        url::count_of(t.push(':'), ':') == url::count_of(t, ':') + 1,
        url::count_of(Seq::empty(), ':') == 0,
        url::count_of(t.push('/'), ':') == url::count_of(t, ':'),
{
    assert(t.push(':').drop_last() =~= t);
    assert(t.push('/').drop_last() =~= t);
}

/// A text is resolved against the base that is given, and stands for itself where none is.
pub proof fn texts_are_resolved(href: Seq<char>, base: Seq<char>)
    ensures
        base.len() == 0 ==> ops::url_against(href, base) == url::url_parsed(href),
        base.len() > 0 ==> match url::url_parsed(base) {
            Ok(_) => ops::url_against(href, base) == url::url_joined(base, href),
            Err(e) => ops::url_against(href, base) == Err::<UrlView, Seq<char>>(e),
        },
        match ops::url_against(href, base) {
            Ok(u) => ops::resolved_text(href, base) == u.href && ops::components_text(
                ops::ok_of(ops::url_against(href, base)),
            ) == json::json_text(u.components()),
            Err(_) => ops::resolved_text(href, base).len() == 0 && ops::components_text(
                ops::ok_of(ops::url_against(href, base)),
            ) == "{\"ok\":false}"@,
        },
{
}

/// Setting a part of a URL sets just that part, to the value as it is; the colons behind a scheme
/// and the mark before a query or a fragment do not count, and an empty password, query or
/// fragment is taken away.
pub proof fn parts_are_set(v: Seq<char>, s: Seq<char>, p: u16)
    ensures
        ops::edit_of("href"@, v) == EditView::Whole(v),
        v.len() > 0 && v.last() != ':' ==> ops::edit_of("protocol"@, v) == EditView::Scheme(v),
        ops::edit_of("protocol"@, v.push(':')) == ops::edit_of("protocol"@, v),
        ops::edit_of("username"@, v) == EditView::Username(v),
        v.len() > 0 ==> ops::edit_of("password"@, v) == EditView::Password(Some(v)),
        v.len() == 0 ==> ops::edit_of("password"@, v) == EditView::Password(None),
        v.len() > 0 ==> ops::edit_of("hostname"@, v) == EditView::Host(v, PortEdit::Keep),
        v.len() == 0 ==> ops::edit_of("hostname"@, v) is Nothing,
        v.len() == 0 ==> ops::edit_of("port"@, v) == EditView::Port(None),
        ops::edit_of("port"@, text::decimal_text(p as nat)) == EditView::Port(Some(p)),
        v.len() > 0 && text::parsed_uint(v, 65535) is None ==> ops::edit_of("port"@, v) is Nothing,
        ops::edit_of("pathname"@, v) == EditView::Path(v),
        v.len() > 0 && v[0] != '?' ==> ops::edit_of("search"@, v) == EditView::Query(Some(v)),
        v.len() > 0 ==> ops::edit_of("search"@, seq!['?'] + v) == EditView::Query(Some(v)),
        ops::edit_of("search"@, seq!['?']) == EditView::Query(None),
        ops::edit_of("search"@, Seq::empty()) == EditView::Query(None),
        v.len() > 0 && v[0] != '#' ==> ops::edit_of("hash"@, v) == EditView::Fragment(Some(v)),
        v.len() > 0 ==> ops::edit_of("hash"@, seq!['#'] + v) == EditView::Fragment(Some(v)),
        ops::edit_of("hash"@, seq!['#']) == EditView::Fragment(None),
        ops::edit_of("hash"@, Seq::empty()) == EditView::Fragment(None),
        ops::edit_of("host"@, v) == ops::host_edit(v),
        ops::edit_of("origin"@, v) is Nothing,
        s.len() < 4 || s.len() > 8 ==> ops::edit_of(s, v) is Nothing,
{
    parts_differ();
    text_laws::ends_are_trimmed(v, ':', 'a');
    text::parse_undoes_decimal(p as u64, 65535);
    text::decimal_text_denotes(p as nat);
    text_laws::ends_are_trimmed(v, '?', '#');
    text_laws::ends_are_trimmed(v, '#', '?');
    assert(seq!['?'] + Seq::<char>::empty() =~= seq!['?']);
    assert(seq!['#'] + Seq::<char>::empty() =~= seq!['#']);
    text_laws::ends_are_trimmed(Seq::empty(), '?', '#');
    text_laws::ends_are_trimmed(Seq::empty(), '#', '?');
}

/// A host with figures behind a colon sets the port too, with nothing behind the colon clears it,
/// and otherwise leaves it alone; a colon between brackets, or one that anything but figures
/// follows, belongs to the host. A port that is too large changes nothing.
pub proof fn hosts_are_taken_apart(h: Seq<char>, a: Seq<char>, rest: Seq<char>, p: u64)
    requires
        !h.contains(':'),
        !a.contains(']'),
    ensures
        ({
            let d = text::decimal_text(p as nat);
            let address = seq!['['] + a + seq![']'];
            let bare = h.len() == 0 || h[0] != '[';
            &&& bare ==> {
                &&& ops::host_edit(h) == EditView::Host(h, PortEdit::Keep)
                &&& ops::host_edit(h + seq![':']) == EditView::Host(h, PortEdit::Clear)
                &&& p <= 65535 ==> ops::host_edit(h + seq![':'] + d) == EditView::Host(
                    h,
                    PortEdit::To(p as u16),
                )
                &&& p > 65535 ==> ops::host_edit(h + seq![':'] + d) == EditView::Host(
                    h,
                    PortEdit::Keep,
                )
                &&& !rest.contains(':') && !text::all_digits(rest) ==> ops::host_edit(
                    h + seq![':'] + rest,
                ) == EditView::Host(h + seq![':'] + rest, PortEdit::Keep)
            }
            &&& ops::host_edit(address) == EditView::Host(address, PortEdit::Keep)
            &&& p <= 65535 ==> ops::host_edit(address + seq![':'] + d) == EditView::Host(
                address,
                PortEdit::To(p as u16),
            )
            &&& p > 65535 ==> ops::host_edit(address + seq![':'] + d) == EditView::Host(
                address,
                PortEdit::Keep,
            )
            &&& rest.len() > 0 && rest[0] != ':' ==> ops::host_edit(address + rest)
                == EditView::Host(address, PortEdit::Keep)
        }),
{
    let d = text::decimal_text(p as nat);
    text::decimal_text_denotes(p as nat);
    if p <= 65535 {
        text::parse_undoes_decimal(p, 65535);
    } else {
        text_laws::numbers_are_read(Seq::empty(), p, 65535, 'a', Seq::empty());
    }
    assert forall|i: int| 0 <= i < d.len() implies d[i] != ':' by {
        assert(text::is_digit(d[i]));
    }
    assert(!d.contains(':'));
    let none = Seq::<char>::empty();
    assert(!none.contains(':'));
    assert(h + seq![':'] + none =~= h + seq![':']);
    plain_host(h, none);
    plain_host(h, d);
    plain_host(h, rest);
    text_laws::characters_are_found(none, ':', h);
    let address = seq!['['] + a + seq![']'];
    bracketed(a, none);
    assert(address + none =~= address);
    bracketed(a, seq![':'] + d);
    assert(address + (seq![':'] + d) =~= address + seq![':'] + d);
    assert((seq![':'] + d).skip(1) =~= d);
    bracketed(a, rest);
}

proof fn plain_host(h: Seq<char>, rest: Seq<char>)
    requires
        !h.contains(':'),
    ensures
        h.len() == 0 || h[0] != '[' ==> {
            let v = h + seq![':'] + rest;
            &&& !rest.contains(':') && text::all_digits(rest) ==> ops::host_edit(v)
                == EditView::Host(
                h,
                if rest.len() == 0 {
                    PortEdit::Clear
                } else {
                    ops::port_edit(rest)
                },
            )
            &&& !rest.contains(':') && !text::all_digits(rest) ==> ops::host_edit(v)
                == EditView::Host(v, PortEdit::Keep)
        },
{
    let v = h + seq![':'] + rest;
    text_laws::characters_are_found(h, ':', rest);
    assert(v.subrange(0, h.len() as int) =~= h);
    assert(v.subrange((h.len() + 1) as int, v.len() as int) =~= rest);
    if h.len() == 0 {
        assert(v[0] == ':');
    } else {
        assert(v[0] == h[0]);
    }
}

proof fn bracketed(a: Seq<char>, rest: Seq<char>)
    requires
        !a.contains(']'),
    ensures
        ({
            let address = seq!['['] + a + seq![']'];
            ops::host_edit(address + rest) == EditView::Host(
                address,
                if rest.len() > 0 && rest[0] == ':' {
                    ops::port_edit(rest.skip(1))
                } else {
                    PortEdit::Keep
                },
            )
        }),
{
    let open = seq!['['] + a;
    let address = open + seq![']'];
    let v = address + rest;
    assert forall|i: int| 0 <= i < open.len() implies open[i] != ']' by {
        if i > 0 {
            assert(a.contains(a[i - 1]));
        }
    }
    assert(!open.contains(']'));
    text_laws::characters_are_found(open, ']', rest);
    assert(v =~= open + seq![']'] + rest);
    let close = open.len() as int;
    assert(v.subrange(0, close + 1) =~= address);
    assert(v.subrange(close + 1, v.len() as int) =~= rest);
}

/// What a change to a URL makes of it is what the part's own setter makes of it; what does not fit
/// leaves it as it was.
pub proof fn setters_are_called(href: Seq<char>, u: UrlView, v: Seq<char>, p: u16)
    requires
        url::url_parsed(href) == Ok::<UrlView, Seq<char>>(u),
        v.len() > 0,
    ensures
        ops::with_part(href, "href"@, v) == match url::url_parsed(v) {
            Ok(w) => Some(w),
            Err(_) => None,
        },
        v.last() != ':' ==> ops::with_part(href, "protocol"@, v) == if u.fits_scheme(v) {
            url::url_with_scheme(href, v)
        } else {
            Some(u)
        },
        ops::with_part(href, "username"@, v) == if u.fits_text(v) {
            url::url_with_username(href, v)
        } else {
            Some(u)
        },
        ops::with_part(href, "password"@, v) == if u.fits_text(v) {
            url::url_with_password(href, Some(v))
        } else {
            Some(u)
        },
        ops::with_part(href, "password"@, Seq::empty()) == url::url_with_password(href, None),
        ops::with_part(href, "hostname"@, v) == if u.fits_host(v) && url::url_with_host(
            href,
            v,
        ) is Some {
            url::url_with_host(href, v)
        } else {
            Some(u)
        },
        ops::with_part(href, "hostname"@, Seq::empty()) == Some(u),
        ops::with_part(href, "port"@, Seq::empty()) == url::url_with_port(href, None),
        ops::with_part(href, "port"@, text::decimal_text(p as nat)) == if u.fits_port() {
            url::url_with_port(href, Some(p))
        } else {
            Some(u)
        },
        ops::with_part(href, "pathname"@, v) == if u.fits_text(v) {
            url::url_with_path(href, v)
        } else {
            Some(u)
        },
        ops::with_part(href, "search"@, Seq::empty()) == url::url_with_query(href, None),
        v[0] != '?' ==> ops::with_part(href, "search"@, v) == if u.fits_query(v) {
            url::url_with_query(href, Some(v))
        } else {
            Some(u)
        },
        ops::with_part(href, "hash"@, Seq::empty()) == url::url_with_fragment(href, None),
        v[0] != '#' ==> ops::with_part(href, "hash"@, v) == if u.fits_fragment() {
            url::url_with_fragment(href, Some(v))
        } else {
            Some(u)
        },
        ops::with_part(href, "origin"@, v) == Some(u),
{
    parts_are_set(v, Seq::empty(), p);
    parts_are_set(Seq::empty(), Seq::empty(), p);
}

/// Setting a host sets the port after it, where one is given, unless the URL has it already, has no
/// host or is a file.
pub proof fn hosts_are_set(
    href: Seq<char>,
    u: UrlView,
    w: UrlView,
    h: Seq<char>,
    p: u16,
    part: Seq<char>,
    value: Seq<char>,
)
    requires
        url::url_parsed(href) == Ok::<UrlView, Seq<char>>(u),
        url::url_with_host(href, h) == Some(w),
    ensures
        ops::edited(u, href, EditView::Host(h, PortEdit::Keep)) == Some(w),
        w.port == Some(p) || w.hostname is None || w.scheme == "file"@ ==> ops::edited(
            u,
            href,
            EditView::Host(h, PortEdit::To(p)),
        ) == Some(w),
        w.port != Some(p) && w.hostname is Some && w.hostname->0.len() > 0 && w.scheme != "file"@
            && (url::url_parsed(w.href) matches Ok(x) && x.fits_port()) && url::url_with_port(
            w.href,
            Some(p),
        ) is Some ==> ops::edited(u, href, EditView::Host(h, PortEdit::To(p)))
            == url::url_with_port(w.href, Some(p)),
        w.port is Some && w.hostname is Some && w.hostname->0.len() > 0 && w.scheme != "file"@
            && url::url_parsed(w.href) is Ok && url::url_with_port(w.href, None) is Some
            ==> ops::edited(u, href, EditView::Host(h, PortEdit::Clear)) == url::url_with_port(
            w.href,
            None,
        ),
        w.port is None ==> ops::edited(u, href, EditView::Host(h, PortEdit::Clear)) == Some(w),
        value == h && !h.contains(':') && h.len() > 0 && h[0] != '[' && u.fits_host(h)
            ==> ops::with_part(href, "host"@, value) == Some(w),
        match ops::with_part(href, part, value) {
            Some(x) => ops::left_by_set(href, part, value) == Some(x),
            None => ops::left_by_set(href, part, value) == Some(u),
        },
{
    if !h.contains(':') && h.len() > 0 && h[0] != '[' {
        let none = Seq::<char>::empty();
        assert(!none.contains(']'));
        hosts_are_taken_apart(h, none, none, 0);
        parts_are_set(h, none, 0);
    }
}

/// A URL without its fragment, or without its query, is what stands before and behind it, and the
/// mark goes with it; nothing else of the URL changes.
pub proof fn marks_go_with_their_parts(u: UrlView, a: Seq<char>, q: Seq<char>, f: Seq<char>)
    ensures
        u.fragment is None ==> u.without_fragment().href == u.href,
        u.fragment == Some(f) && u.href == a + seq!['#'] + f ==> u.without_fragment().href == a,
        u.without_fragment().fragment is None && u.without_fragment().query == u.query
            && u.without_fragment().path == u.path && u.without_fragment().scheme == u.scheme,
        u.fragment is None && u.query == Some(q) && u.href == a + seq!['?'] + q
            ==> u.without_query().href == a,
        u.fragment == Some(f) && u.query == Some(q) && u.href == a + seq!['?'] + q + seq!['#'] + f
            ==> u.without_query().href == a + seq!['#'] + f,
        u.without_query().query is None && u.without_query().fragment == u.fragment
            && u.without_query().path == u.path && u.without_query().scheme == u.scheme,
{
    let n = u.href.len() as int;
    assert(u.href.take(n) =~= u.href);
    if u.fragment == Some(f) && u.href == a + seq!['#'] + f {
        assert(u.href.take(n - f.len() - 1) =~= a);
    }
    if u.fragment is None && u.query == Some(q) && u.href == a + seq!['?'] + q {
        assert(u.href.take(n - q.len() - 1) =~= a);
        assert(u.href.take(n - q.len() - 1) + u.href.skip(n) =~= a);
    }
    if u.fragment == Some(f) && u.query == Some(q) && u.href == a + seq!['?'] + q + seq!['#'] + f {
        let end = n - f.len() - 1;
        assert(u.href.take(end - q.len() - 1) =~= a);
        assert(u.href.skip(end) =~= seq!['#'] + f);
        assert(u.href.take(end - q.len() - 1) + u.href.skip(end) =~= a + seq!['#'] + f);
    }
}

/// What a URL has room for: its serialization and what is added, with every character that may be
/// written in twelve, or a hundred in a host, must stay below the largest number of 32 bits.
pub proof fn room_is_measured(u: UrlView, t: Seq<char>)
    ensures
        u.fits_scheme(t) == (u.href.len() + t.len() < 0xffff_ffff),
        u.fits_text(t) == (u.href.len() + 12 * t.len() + 4 < 0xffff_ffff),
        u.fits_port() == (u.href.len() + 6 < 0xffff_ffff),
        t.len() > 0 ==> u.fits_host(t) == (u.href.len() + 100 * t.len() + 2 < 0xffff_ffff),
        t.len() == 0 && u.port is Some && u.username.len() == 0 && u.password.len() == 0
            ==> !u.fits_host(t),
        u.href.len() < 0xffff_ffff ==> u.fits_fragment(),
        u.href.len() < 0xffff_ffff && u.fragment is None ==> u.fits_query(t),
{
}

/// A request may take the milliseconds that are set, where they are a number, and else thirty
/// seconds.
pub proof fn timeouts_are_set(n: u64, s: Seq<char>)
    ensures
        ops::timeout_of(None) == 30000,
        ops::timeout_of(Some(text::decimal_text(n as nat))) == n,
        text::parsed_uint(s, u64::MAX) is None ==> ops::timeout_of(Some(s)) == 30000,
{
    text::parse_undoes_decimal(n, u64::MAX);
}

/// How some names are spelled: enough to tell them apart.
spec fn algorithms_differ_spelled() -> bool {
    &&& "SHA-1"@.len() == 5
    &&& "SHA-256"@.len() == 7
    &&& "SHA-384"@.len() == 7
    &&& "SHA-512"@.len() == 7
    &&& "SHA-256"@[4] == '2'
    &&& "SHA-384"@[4] == '3'
    &&& "SHA-512"@[4] == '5'
}

#[verifier::spinoff_prover]
proof fn algorithms_differ()
    ensures
        algorithms_differ_spelled(),
{
    reveal_strlit("SHA-1");
    reveal_strlit("SHA-256");
    reveal_strlit("SHA-384");
    reveal_strlit("SHA-512");
}

/// The names of the algorithms in upper and in lower case.
pub proof fn names_of_algorithms(name: Seq<char>)
    ensures
        name == "SHA-1"@ || name == "sha-1"@ ==> text::upper_text(name) == "SHA-1"@
            && text::lower_text(name) == "sha-1"@,
        name == "SHA-256"@ || name == "sha-256"@ ==> text::upper_text(name) == "SHA-256"@
            && text::lower_text(name) == "sha-256"@,
        name == "SHA-384"@ || name == "sha-384"@ ==> text::upper_text(name) == "SHA-384"@
            && text::lower_text(name) == "sha-384"@,
        name == "SHA-512"@ || name == "sha-512"@ ==> text::upper_text(name) == "SHA-512"@
            && text::lower_text(name) == "sha-512"@,
        "SHA-1"@ != "SHA-256"@ && "SHA-1"@ != "SHA-384"@ && "SHA-1"@ != "SHA-512"@,
        "SHA-256"@ != "SHA-384"@ && "SHA-256"@ != "SHA-512"@ && "SHA-384"@ != "SHA-512"@,
{
    algorithms_differ();
    reveal_strlit("sha-1");
    reveal_strlit("sha-256");
    reveal_strlit("sha-384");
    reveal_strlit("sha-512");
    reveal_strlit("SHA-1");
    reveal_strlit("SHA-256");
    reveal_strlit("SHA-384");
    reveal_strlit("SHA-512");
    assert(text::upper_text("SHA-1"@) =~= "SHA-1"@);
    assert(text::upper_text("SHA-256"@) =~= "SHA-256"@);
    assert(text::upper_text("SHA-384"@) =~= "SHA-384"@);
    assert(text::upper_text("SHA-512"@) =~= "SHA-512"@);
    assert(text::upper_text("sha-1"@) =~= "SHA-1"@);
    assert(text::upper_text("sha-256"@) =~= "SHA-256"@);
    assert(text::upper_text("sha-384"@) =~= "SHA-384"@);
    assert(text::upper_text("sha-512"@) =~= "SHA-512"@);
    assert(text::lower_text("SHA-1"@) =~= "sha-1"@);
    assert(text::lower_text("SHA-256"@) =~= "sha-256"@);
    assert(text::lower_text("SHA-384"@) =~= "sha-384"@);
    assert(text::lower_text("SHA-512"@) =~= "sha-512"@);
    assert(text::lower_text("sha-1"@) =~= "sha-1"@);
    assert(text::lower_text("sha-256"@) =~= "sha-256"@);
    assert(text::lower_text("sha-384"@) =~= "sha-384"@);
    assert(text::lower_text("sha-512"@) =~= "sha-512"@);
}

/// A digest is made with the algorithm that is named, in any case of its letters, and with SHA-256
/// where none of the others is.
pub proof fn digests_are_made(name: Seq<char>, data: Seq<u8>)
    ensures
        text::lower_text(name) == "sha-1"@ ==> ops::digest(name, data) == ops::sha1_digest(data),
        text::lower_text(name) == "sha-256"@ ==> ops::digest(name, data) == ops::sha256_digest(
            data,
        ),
        text::lower_text(name) == "sha-384"@ ==> ops::digest(name, data) == ops::sha384_digest(
            data,
        ),
        text::lower_text(name) == "sha-512"@ ==> ops::digest(name, data) == ops::sha512_digest(
            data,
        ),
        text::lower_text(name) != "sha-1"@ && text::lower_text(name) != "sha-384"@
            && text::lower_text(name) != "sha-512"@ ==> ops::digest(name, data)
            == ops::sha256_digest(data),
{
    algorithms_differ();
    reveal_strlit("sha-1");
    reveal_strlit("sha-256");
    reveal_strlit("sha-384");
    reveal_strlit("sha-512");
    reveal_strlit("SHA-1");
    reveal_strlit("SHA-256");
    reveal_strlit("SHA-384");
    reveal_strlit("SHA-512");
    assert(text::upper_text("SHA-1"@) =~= "SHA-1"@);
    assert(text::upper_text("SHA-256"@) =~= "SHA-256"@);
    assert(text::upper_text("SHA-384"@) =~= "SHA-384"@);
    assert(text::upper_text("SHA-512"@) =~= "SHA-512"@);
    assert(text::lower_text("SHA-1"@) =~= "sha-1"@);
    assert(text::lower_text("SHA-256"@) =~= "sha-256"@);
    assert(text::lower_text("SHA-384"@) =~= "sha-384"@);
    assert(text::lower_text("SHA-512"@) =~= "sha-512"@);
    text_laws::case_changes_letters(name, "SHA-1"@, 0);
    text_laws::case_changes_letters(name, "SHA-256"@, 0);
    text_laws::case_changes_letters(name, "SHA-384"@, 0);
    text_laws::case_changes_letters(name, "SHA-512"@, 0);
}

/// A client for scripts' requests is found by its proxy, and by nothing where there is none.
pub proof fn clients_are_found_by_proxy(p: Seq<char>)
    ensures
        ops::client_key(Some(p)) == p,
        ops::client_key(None).len() == 0,
{
}

/// A host that is refused leaves the URL as it was, and a port that is refused leaves it with the
/// host alone.
pub proof fn refused_hosts_change_nothing(
    href: Seq<char>,
    u: UrlView,
    w: UrlView,
    h: Seq<char>,
    p: u16,
    e: PortEdit,
)
    ensures
        url::url_with_host(href, h) is None ==> ops::edited(u, href, EditView::Host(h, e)) == Some(u),
        url::url_with_host(href, h) == Some(w) && url::url_with_port(w.href, Some(p)) is None
            ==> ops::edited(u, href, EditView::Host(h, PortEdit::To(p))) == Some(w),
        url::url_with_host(href, h) == Some(w) && url::url_with_port(w.href, None) is None
            ==> ops::edited(u, href, EditView::Host(h, PortEdit::Clear)) == Some(w),
{
}

} // verus!
