//! What the functions on texts, values and lists give back, whatever they are called with.

use vstd::prelude::*;
use vstd::string::*;

use crate::assoc::{self, StringMap};
use crate::base64;
use crate::json::{self, Json, JsonView};
use crate::text;
use crate::text_laws;

verus! {

/// Two texts are the same where their characters are, and the same but for case where their letters
/// in lower case are.
pub proof fn texts_are_compared(a: &str, b: &str, same: bool, alike: bool)
    requires
        call_ensures(text::same, (a, b), same),
        call_ensures(text::eq_ignore_ascii_case, (a, b), alike),
    ensures
        same <==> a@ == b@,
        alike <==> text::lower_text(a@) == text::lower_text(b@),
        same ==> alike,
{
    text_laws::case_changes_letters(a@, b@, 0);
}

/// A text starts with, ends in and has another just where it can be parted so.
pub proof fn texts_are_searched(s: &str, p: &str, a: bool, b: bool, c: bool)
    requires
        call_ensures(text::starts_with, (s, p), a),
        call_ensures(text::ends_with, (s, p), b),
        call_ensures(text::contains, (s, p), c),
    ensures
        a <==> exists|t: Seq<char>| s@ == #[trigger] (p@ + t),
        b <==> exists|t: Seq<char>| s@ == #[trigger] (t + p@),
        c <==> exists|t: Seq<char>, u: Seq<char>| s@ == #[trigger] (t + p@ + u),
{
    text_laws::parts_of_texts(s@, p@, Seq::empty(), Seq::empty());
    if exists|t: Seq<char>| s@ == #[trigger] (p@ + t) {
        let t = choose|t: Seq<char>| s@ == #[trigger] (p@ + t);
        text_laws::parts_of_texts(s@, p@, Seq::empty(), t);
    }
    if exists|t: Seq<char>| s@ == #[trigger] (t + p@) {
        let t = choose|t: Seq<char>| s@ == #[trigger] (t + p@);
        text_laws::parts_of_texts(s@, p@, t, Seq::empty());
    }
    if exists|t: Seq<char>, u: Seq<char>| s@ == #[trigger] (t + p@ + u) {
        let (t, u) = choose|t: Seq<char>, u: Seq<char>| s@ == #[trigger] (t + p@ + u);
        text_laws::parts_of_texts(s@, p@, t, u);
    }
}

/// A text is parted at the first of a character.
pub proof fn texts_are_parted(s: &str, c: char, r: Option<(String, String)>)
    requires
        call_ensures(text::split_once, (s, c), r),
    ensures
        r is None <==> !s@.contains(c),
        (r matches Some(p) ==> s@ == p.0@ + seq![c] + p.1@ && !p.0@.contains(c)),
{
    text::first_of_is_least(s@, c);
    match text::first_of(s@, c) {
        Some(i) => {
            assert(s@ =~= s@.subrange(0, i) + seq![c] + s@.subrange(i + 1, s@.len() as int));
            assert(s@.contains(s@[i]));
        },
        None => {},
    }
}

/// Pieces that a text is split into have no separator, and with the separator between them are the
/// text.
pub proof fn texts_are_put_together(s: &str, sep: &str, v: Vec<String>, r: String, k: int)
    requires
        call_ensures(text::split, (s, sep), v),
        call_ensures(text::join, (&v, sep), r),
        sep@.len() > 0,
    ensures
        r@ == s@,
        0 <= k < v@.len() ==> !text::has_text(v@[k]@, sep@),
{
    text_laws::texts_are_split(s@, sep@, k);
    assert(text::texts(v@).len() == v@.len());
    if 0 <= k < v@.len() {
        assert(text::texts(v@)[k] == v@[k]@);
    }
}

/// A number that is written in figures is read back.
pub proof fn numbers_are_written_and_read(
    n: u64,
    s: String,
    t: &str,
    max: u64,
    r: Option<u64>,
)
    requires
        call_ensures(text::decimal, (n,), s),
        call_ensures(text::parse_uint, (t, max), r),
        t@ == s@,
    ensures
        n <= max ==> r == Some(n),
        n > max ==> r is None,
        s@.len() > 0,
        n < 10 ==> s@.len() == 1 && s@[0] as int == '0' as int + n,
        n >= 10 ==> s@.last() as int == '0' as int + n % 10,
{
    text_laws::numbers_are_read(Seq::empty(), n, max, 'a', Seq::empty());
    text::decimal_text_denotes(n as nat);
    text_laws::decimals_grow_by_figures((n / 10) as nat, (n % 10) as nat);
    assert(10 * (n / 10) as nat + (n % 10) as nat == n as nat);
}

/// Letters are put in upper case one by one, and nothing else is changed.
pub proof fn letters_are_raised(s: &str, r: String, i: int)
    requires
        call_ensures(text::to_ascii_uppercase, (s,), r),
    ensures
        r@.len() == s@.len(),
        0 <= i < s@.len() && 'a' <= s@[i] <= 'z' ==> r@[i] as int == s@[i] as int - 32,
        0 <= i < s@.len() && !('a' <= s@[i] <= 'z') ==> r@[i] == s@[i],
{
    text_laws::case_changes_letters(s@, s@, i);
}

/// A text is taken out of a list wherever it stands, and no other is.
pub proof fn texts_are_taken_out(v: &mut Vec<String>, s: &str, gone: Seq<char>)
    requires
        call_ensures(text::take_out, (v, s), ()),
        gone == s@,
    ensures
        text::texts(final(v)@) == text::texts(old(v)@).filter(|t: Seq<char>| t != gone),
{
    text_laws::others_are_kept(text::texts(old(v)@), gone);
}

/// A text is among others where one of them is the same.
pub proof fn texts_are_among_others(v: &Vec<String>, s: &str, r: bool, i: int)
    requires
        call_ensures(text::is_among, (v, s), r),
    ensures
        0 <= i < v@.len() && v@[i]@ == s@ ==> r,
        (forall|k: int| 0 <= k < v@.len() ==> (#[trigger] v@[k])@ != s@) ==> !r,
{
    let t = text::texts(v@);
    if 0 <= i < v@.len() {
        assert(t[i] == v@[i]@);
    }
    if r {
        let k = choose|k: int| 0 <= k < t.len() && t[k] == s@;
        assert(t[k] == v@[k]@);
    }
}

/// A run of a character is trimmed off the end of a text, down to the first other character, and one
/// off its beginning.
pub proof fn texts_are_trimmed(s: &str, c: char, a: String, b: String)
    requires
        call_ensures(text::trim_end, (s, c), a),
        call_ensures(text::strip_prefix, (s, c), b),
    ensures
        a@.len() <= s@.len(),
        s@.take(a@.len() as int) == a@,
        a@.len() > 0 ==> a@.last() != c,
        forall|i: int| a@.len() <= i < s@.len() ==> s@[i] == c,
        s@.len() > 0 && s@[0] == c ==> b@ == s@.skip(1),
        s@.len() == 0 || s@[0] != c ==> b@ == s@,
{
    trimmed_is_a_beginning(s@, c);
}

proof fn trimmed_is_a_beginning(s: Seq<char>, c: char)
    ensures
        ({
            let t = text::trimmed_end(s, c);
            &&& t.len() <= s.len()
            &&& s.take(t.len() as int) == t
            &&& t.len() > 0 ==> t.last() != c
            &&& forall|i: int| t.len() <= i < s.len() ==> s[i] == c
        }),
    decreases s.len(),
{
    let t = text::trimmed_end(s, c);
    if s.len() > 0 && s.last() == c {
        let u = s.drop_last();
        trimmed_is_a_beginning(u, c);
        assert(s.take(t.len() as int) =~= u.take(t.len() as int));
        assert forall|i: int| t.len() <= i < s.len() implies s[i] == c by {
            if i < u.len() {
                assert(u[i] == c);
            }
        }
    } else {
        assert(s.take(s.len() as int) =~= s);
    }
}

/// A text that was written in Base64 is read back.
pub proof fn base64_is_read(input: &str, r: String, t: Seq<char>)
    requires
        call_ensures(base64::decode_base64, (input,), r),
        input@ == base64::encoded(vstd::utf8::encode_utf8(t)),
    ensures
        r@ == t,
{
    text_laws::bytes_are_decoded(vstd::utf8::encode_utf8(t), Seq::empty(), Seq::empty(), '=');
    text::lossy_undoes_encode(t);
}

/// A name has the value that it was given last, and giving it one changes no other.
pub proof fn names_are_given_values(
    m: &mut StringMap,
    key: &str,
    value: &str,
    other: Seq<char>,
)
    requires
        call_ensures(StringMap::insert, (m, key, value), ()),
        assoc::distinct(old(m)@),
    ensures
        assoc::lookup(final(m)@, key@) == Some(value@),
        other != key@ ==> assoc::lookup(final(m)@, other) == assoc::lookup(old(m)@, other),
        assoc::distinct(final(m)@),
{
    assoc::with_sets(old(m)@, key@, value@, key@);
    assoc::with_sets(old(m)@, key@, value@, other);
}

/// A new name goes behind the others, and one that is there keeps its place.
pub proof fn names_keep_their_places(
    m: Seq<(Seq<char>, Seq<char>)>,
    key: Seq<char>,
    value: Seq<char>,
)
    ensures
        (forall|i: int| 0 <= i < m.len() ==> (#[trigger] m[i]).0 != key) ==> assoc::with(
            m,
            key,
            value,
        ) == m.push((key, value)),
        (exists|i: int| 0 <= i < m.len() && (#[trigger] m[i]).0 == key) ==> assoc::with(
            m,
            key,
            value,
        ).len() == m.len(),
        forall|i: int|
            0 <= i < m.len() ==> (#[trigger] assoc::with(m, key, value)[i]).0 == m[i].0 && (m[i].0
                != key ==> assoc::with(m, key, value)[i].1 == m[i].1),
{
    assoc::place_is_last(m, key);
}

/// Giving a map all that another has gives each name the value that it has there, and leaves the
/// names that are not there alone.
pub proof fn maps_are_put_together(
    m: &mut StringMap,
    more: &StringMap,
    i: int,
    other: Seq<char>,
)
    requires
        call_ensures(StringMap::extend, (m, more), ()),
        assoc::distinct(old(m)@),
        assoc::distinct(more@),
    ensures
        0 <= i < more@.len() ==> assoc::lookup(final(m)@, more@[i].0) == Some(more@[i].1),
        (forall|k: int| 0 <= k < more@.len() ==> (#[trigger] more@[k]).0 != other)
            ==> assoc::lookup(final(m)@, other) == assoc::lookup(old(m)@, other),
{
    assoc::with_all_lookup(old(m)@, more@, other);
    assoc::place_is_last(more@, other);
    if 0 <= i < more@.len() {
        assoc::with_all_lookup(old(m)@, more@, more@[i].0);
        assoc::place_is_last(more@, more@[i].0);
        let k = assoc::place(more@, more@[i].0)->0;
        if k < i {
            assert(more@[k].0 != more@[i].0);
        }
        if i < k {
            assert(more@[i].0 != more@[k].0);
        }
    }
}

/// The value of a name is that of the last entry with it.
pub proof fn names_are_looked_up(m: &StringMap, key: &str, r: Option<&str>, there: bool, i: int)
    requires
        call_ensures(StringMap::get, (m, key), r),
        call_ensures(StringMap::contains_key, (m, key), there),
    ensures
        there <==> r is Some,
        0 <= i < m.entries@.len() && m.entries@[i].0@ == key@ && (forall|j: int|
            i < j < m.entries@.len() ==> (#[trigger] m.entries@[j]).0@ != key@) ==> r is Some
            && r->0@ == m.entries@[i].1@,
        (forall|j: int| 0 <= j < m.entries@.len() ==> (#[trigger] m.entries@[j]).0@ != key@)
            ==> r is None,
{
    assoc::place_is_last(m@, key@);
    assert(m@.len() == m.entries@.len());
    assert forall|j: int| 0 <= j < m.entries@.len() implies m@[j].0 == (
    #[trigger] m.entries@[j]).0@ && m@[j].1 == m.entries@[j].1@ by {}
    if let Some(k) = assoc::place(m@, key@) {
        assert(m.entries@[k].0@ == m@[k].0);
        if 0 <= i < m.entries@.len() && m.entries@[i].0@ == key@ && k < i {
            assert(m@[i].0 == m.entries@[i].0@);
        }
    } else if 0 <= i < m.entries@.len() {
        assert(m@[i].0 == m.entries@[i].0@);
    }
}

/// What members of an object are read as: texts as texts, numbers from zero on as such, and anything
/// else, or nothing, as what is given for it.
pub proof fn members_are_read(v: JsonView, key: Seq<char>, s: Seq<char>, n: u64, d: u64)
    ensures
        v.get(key) == Some(JsonView::Str(s)) ==> v.get_str(key) == Some(s) && v.get_str_or(
            key,
            Seq::empty(),
        ) == s,
        v.get(key) is None ==> v.get_str(key) is None && v.get_str_or(key, s) == s && v.get_u64_or(
            key,
            d,
        ) == d,
        v.get(key) == Some(JsonView::UInt(n)) ==> v.get_u64_or(key, d) == n && v.get_str(
            key,
        ) is None,
        (v.get(key) matches Some(JsonView::Str(t))) ==> v.get_u64_or(key, d) == d,
        (v.get(key) matches Some(JsonView::Int(k))) ==> v.get_u64_or(key, d) == d,
        v.get(key) == Some(JsonView::Null) ==> v.get_str(key) is None && v.get_u64_or(key, d) == d,
        !(v is Object) ==> v.get(key) is None,
{
}

/// A member that is set is got back, and a value that is read as a text or a number is that.
pub proof fn members_are_set(j: Json, key: &str, value: Json, r: Json, other: Seq<char>)
    requires
        call_ensures(Json::put, (j, key, value), r),
        j@.keyed(),
    ensures
        r@.get(key@) == Some(value@),
        other != key@ ==> r@.get(other) == j@.get(other),
{
    json::put_sets(j@, key@, value@);
}

/// A member is found by its name.
pub proof fn members_are_found(j: &Json, key: &str, r: Option<&Json>, s: Option<&str>)
    requires
        call_ensures(Json::get, (j, key), r),
        call_ensures(Json::get_str, (j, key), s),
    ensures
        r is Some ==> j@.get(key@) == Some(r->0@),
        r is None ==> j@.get(key@) is None,
        s is Some ==> j@.get(key@) == Some(JsonView::Str(s->0@)),
        s is None ==> !(j@.get(key@) matches Some(JsonView::Str(t))),
{
}

/// What a text or nothing is as JSON.
pub proof fn optional_texts_are_values(s: Seq<char>)
    ensures
        json::opt_str_view(Some(s)) == JsonView::Str(s),
        json::opt_str_view(None) is Null,
{
}

/// A small integer is displayed in figures, and what is no number is not.
pub proof fn numbers_are_displayed(n: u64, s: Seq<char>)
    ensures
        n < 0x20_0000_0000_0000 ==> JsonView::UInt(n).number_text() == Some(
            text::decimal_text(n as nat),
        ),
        JsonView::Str(s).number_text() is None,
        JsonView::Null.number_text() is None,
        JsonView::Bool(true).number_text() is None,
{
}

/// A value that is taken out of a map leaves it with every name that had it, and nothing else does.
pub proof fn values_are_taken_out(m: &mut StringMap, value: &str, i: int)
    requires
        call_ensures(StringMap::remove_value, (m, value), ()),
    ensures
        forall|k: int| 0 <= k < final(m)@.len() ==> (#[trigger] final(m)@[k]).1 != value@,
        0 <= i < old(m)@.len() && old(m)@[i].1 != value@ ==> final(m)@.contains(old(m)@[i]),
{
    let gone = |k: Seq<char>, v: Seq<char>| v == value@;
    entries_are_taken_out(old(m)@, gone, i);
}

/// A name that is taken out of a map is not there any more, and every other name is.
pub proof fn names_are_taken_out(m: &mut StringMap, key: &str, i: int)
    requires
        call_ensures(StringMap::remove, (m, key), ()),
    ensures
        forall|k: int| 0 <= k < final(m)@.len() ==> (#[trigger] final(m)@[k]).0 != key@,
        0 <= i < old(m)@.len() && old(m)@[i].0 != key@ ==> final(m)@.contains(old(m)@[i]),
{
    let gone = |k: Seq<char>, v: Seq<char>| k == key@;
    entries_are_taken_out(old(m)@, gone, i);
}

/// Taking entries out of a list takes out those that are meant and keeps the others.
pub proof fn entries_are_taken_out(
    m: Seq<(Seq<char>, Seq<char>)>,
    gone: spec_fn(Seq<char>, Seq<char>) -> bool,
    i: int,
)
    ensures
        forall|k: int|
            0 <= k < assoc::without(m, gone).len() ==> !gone(
                (#[trigger] assoc::without(m, gone)[k]).0,
                assoc::without(m, gone)[k].1,
            ),
        0 <= i < m.len() && !gone(m[i].0, m[i].1) ==> assoc::without(m, gone).contains(m[i]),
    decreases m.len(),
{
    if m.len() > 0 {
        let rest = assoc::without(m.drop_last(), gone);
        entries_are_taken_out(m.drop_last(), gone, i);
        if !gone(m.last().0, m.last().1) {
            assert(rest.push(m.last())[rest.len() as int] == m.last());
        }
        if 0 <= i < m.len() - 1 && !gone(m[i].0, m[i].1) {
            assert(m.drop_last()[i] == m[i]);
            let k = choose|k: int| 0 <= k < rest.len() && rest[k] == m[i];
            assert(rest.push(m.last())[k] == m[i]);
        }
    }
}

/// A copy of a map or of a value is what it is a copy of.
pub proof fn copies_are_the_same(m: &StringMap, n: StringMap, j: &Json, k: Json)
    requires
        call_ensures(StringMap::duplicate, (m,), n),
        call_ensures(Json::duplicate, (j,), k),
    ensures
        n@ == m@,
        k@ == j@,
{
}

/// Values are read as what they are.
pub proof fn values_are_read(j: &Json, s: Option<&str>, n: Option<u64>, v: Option<&Vec<Json>>)
    requires
        call_ensures(Json::as_str, (j,), s),
        call_ensures(Json::as_u64, (j,), n),
        call_ensures(Json::as_array, (j,), v),
    ensures
        (j@ matches JsonView::Str(t) ==> s is Some && s->0@ == t && n is None && v is None),
        (j@ matches JsonView::UInt(k) ==> n == Some(k) && s is None && v is None),
        (j@ matches JsonView::Array(a) ==> v is Some && v->0@.len() == a.len() && s is None && n
            is None && forall|i: int| 0 <= i < a.len() ==> (#[trigger] v->0@[i])@ == a[i]),
        j@ is Null || j@ is Object || j@ is Bool || j@ is Int ==> s is None && n is None && v
            is None,
{
    if let JsonView::Array(a) = j@ {
        assert(json::views(v->0@).len() == v->0@.len());
        assert forall|i: int| 0 <= i < a.len() implies (#[trigger] v->0@[i])@ == a[i] by {
            assert(json::views(v->0@)[i] == v->0@[i]@);
        }
    }
}

/// A member that is a text or a number is read as that, and otherwise what is given for it is.
pub proof fn members_are_read_or_given(
    j: &Json,
    key: &str,
    default: &str,
    s: String,
    d: u64,
    n: u64,
)
    requires
        call_ensures(Json::get_str_or, (j, key, default), s),
        call_ensures(Json::get_u64_or, (j, key, d), n),
    ensures
        (j@.get(key@) matches Some(JsonView::Str(t)) ==> s@ == t && n == d),
        (j@.get(key@) matches Some(JsonView::UInt(k)) ==> n == k && s@ == default@),
        j@.get(key@) is None ==> s@ == default@ && n == d,
{
    members_are_read(j@, key@, default@, n, d);
}

/// Texts and nothing are made into values.
pub proof fn values_are_made(s: &str, t: &Option<String>, a: Json, b: Json, c: Json)
    requires
        call_ensures(Json::string, (s,), a),
        call_ensures(Json::opt_string, (t,), b),
        call_ensures(Json::object, (), c),
    ensures
        a@ == JsonView::Str(s@),
        *t is None ==> b@ is Null,
        (*t matches Some(x) ==> b@ == JsonView::Str(x@)),
        c@ == JsonView::Object(Seq::empty()),
{
}

} // verus!
