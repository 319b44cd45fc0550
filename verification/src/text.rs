//! Strings as sequences of characters: searching, splitting, numerals.

use vstd::prelude::*;
use vstd::string::*;

verus! {

/// `std`'s `String::push` appends one character.
pub assume_specification[ String::push ](s: &mut String, c: char)
    ensures
        final(s)@ == old(s)@.push(c),
;

/// What `str::to_lowercase` returns: the Unicode lowercase mapping of a text.
pub uninterp spec fn lowercase(s: Seq<char>) -> Seq<char>;

/// Calls `std`'s `str::to_lowercase`. The mapping follows the Unicode tables and
/// is only named here; on ASCII text it changes the letters `A` to `Z` alone.
#[verifier::external_body]
fn map_lowercase(s: &str) -> (r: String)
    ensures
        r@ == lowercase(s@),
        vstd::utf8::is_ascii_chars(s@) ==> r@ == lower_text(s@),
{
    s.to_lowercase()
}

/// A text in lower case.
pub open spec fn lowered(s: Seq<char>) -> Seq<char> {
    if vstd::utf8::is_ascii_chars(s) {
        lower_text(s)
    } else {
        lowercase(s)
    }
}

/// Puts a text in lower case.
pub fn to_lowercase(s: &str) -> (r: String)
    ensures
        r@ == lowered(s@),
{
    map_lowercase(s)
}

/// What `String::from_utf8_lossy` returns for a sequence of bytes.
pub uninterp spec fn utf8_lossy(bytes: Seq<u8>) -> Seq<char>;

/// Calls `std`'s `String::from_utf8_lossy`: ill-formed parts become replacement
/// characters. Bytes that encode a text give back that text.
#[verifier::external_body]
fn decode_lossy(bytes: &[u8]) -> (r: String)
    ensures
        r@ == utf8_lossy(bytes@),
        vstd::utf8::valid_utf8(bytes@) ==> vstd::utf8::encode_utf8(r@) == bytes@,
{
    String::from_utf8_lossy(bytes).into_owned()
}

/// The text that bytes stand for, with replacement characters for what is ill-formed.
pub open spec fn lossy(bytes: Seq<u8>) -> Seq<char> {
    if vstd::utf8::valid_utf8(bytes) {
        vstd::utf8::decode_utf8(bytes)
    } else {
        utf8_lossy(bytes)
    }
}

/// Reads bytes as text.
pub fn from_utf8_lossy(bytes: &[u8]) -> (r: String)
    ensures
        r@ == lossy(bytes@),
{
    let r: String = decode_lossy(bytes);
    proof {
        if vstd::utf8::valid_utf8(bytes@) {
            vstd::utf8::encode_utf8_decode_utf8(r@);
        }
    }
    r
}

/// A text that was encoded is read back.
pub proof fn lossy_undoes_encode(t: Seq<char>)
    ensures
        lossy(vstd::utf8::encode_utf8(t)) == t,
{
    vstd::utf8::encode_utf8_valid_utf8(t);
    vstd::utf8::encode_utf8_decode_utf8(t);
}

/// The view of an optional string.
pub open spec fn opt(s: Option<String>) -> Option<Seq<char>> {
    match s {
        Some(t) => Some(t@),
        None => None,
    }
}

/// The view of an optional text.
pub open spec fn opt_str(s: Option<&str>) -> Option<Seq<char>> {
    match s {
        Some(t) => Some(t@),
        None => None,
    }
}

/// Whether two texts hold the same characters.
pub fn same(a: &str, b: &str) -> (r: bool)
    ensures
        r == (a@ == b@),
{
    a.to_owned() == b.to_owned()
}

/// A copy of an optional string.
pub fn clone_opt(s: &Option<String>) -> (r: Option<String>)
    ensures
        r == *s,
{
    match s {
        Some(t) => Some(t.clone()),
        None => None,
    }
}

/// The characters of a text.
pub fn chars_of(s: &str) -> (r: Vec<char>)
    ensures
        r@ == s@,
{
    let mut out: Vec<char> = Vec::new();
    for c in it: s.chars()
        invariant
            it.seq() == s@,
            out@ == s@.subrange(0, it.index() as int),
    {
        out.push(c);
    }
    out
}

/// Whether `p` begins `s`.
pub open spec fn has_prefix(s: Seq<char>, p: Seq<char>) -> bool {
    p.len() <= s.len() && s.subrange(0, p.len() as int) == p
}

/// Whether `p` ends `s`.
pub open spec fn has_suffix(s: Seq<char>, p: Seq<char>) -> bool {
    p.len() <= s.len() && s.subrange(s.len() - p.len(), s.len() as int) == p
}

/// Whether `p` stands in `s` at position `i`.
pub open spec fn occurs_at(s: Seq<char>, p: Seq<char>, i: int) -> bool {
    0 <= i && i + p.len() <= s.len() && s.subrange(i, i + p.len()) == p
}

/// Whether `p` stands anywhere in `s`.
pub open spec fn has_text(s: Seq<char>, p: Seq<char>) -> bool {
    exists|i: int| occurs_at(s, p, i)
}

/// Whether `p` stands in `s` at position `i`.
pub fn matches_at(s: &Vec<char>, p: &Vec<char>, i: usize) -> (r: bool)
    ensures
        r == occurs_at(s@, p@, i as int),
{
    if i > s.len() || p.len() > s.len() - i {
        return false;
    }
    let mut k: usize = 0;
    while k < p.len()
        invariant
            i + p.len() <= s.len(),
            k <= p.len(),
            forall|j: int| 0 <= j < k ==> s[i + j] == p[j],
        decreases p.len() - k,
    {
        if s[i + k] != p[k] {
            assert(s@.subrange(i as int, i + p.len())[k as int] != p@[k as int]);
            return false;
        }
        k += 1;
    }
    assert(s@.subrange(i as int, i + p.len()) =~= p@);
    true
}

/// Whether `s` starts with `p`.
pub fn starts_with(s: &str, p: &str) -> (r: bool)
    ensures
        r == has_prefix(s@, p@),
{
    matches_at(&chars_of(s), &chars_of(p), 0)
}

/// Whether `s` ends with `p`.
pub fn ends_with(s: &str, p: &str) -> (r: bool)
    ensures
        r == has_suffix(s@, p@),
{
    let cs: Vec<char> = chars_of(s);
    let cp: Vec<char> = chars_of(p);
    if cp.len() > cs.len() {
        return false;
    }
    matches_at(&cs, &cp, cs.len() - cp.len())
}

/// Whether `p` stands anywhere in `s`.
pub fn contains(s: &str, p: &str) -> (r: bool)
    ensures
        r == has_text(s@, p@),
{
    let cs: Vec<char> = chars_of(s);
    let cp: Vec<char> = chars_of(p);
    let mut i: usize = 0;
    while i < cs.len()
        invariant
            cs@ == s@,
            cp@ == p@,
            i <= cs.len(),
            forall|j: int| 0 <= j < i ==> !occurs_at(s@, p@, j),
        decreases cs.len() - i,
    {
        if matches_at(&cs, &cp, i) {
            return true;
        }
        i += 1;
    }
    matches_at(&cs, &cp, i)
}

/// The position of the first `c` in `s`, if there is one.
pub open spec fn first_of(s: Seq<char>, c: char) -> Option<int>
    decreases s.len(),
{
    if s.len() == 0 {
        None
    } else if s[0] == c {
        Some(0)
    } else {
        match first_of(s.skip(1), c) {
            Some(i) => Some(i + 1),
            None => None,
        }
    }
}

/// `first_of` is the least position that holds `c`.
pub proof fn first_of_is_least(s: Seq<char>, c: char)
    ensures
        match first_of(s, c) {
            Some(i) => 0 <= i < s.len() && s[i] == c && forall|j: int| 0 <= j < i ==> s[j] != c,
            None => forall|j: int| 0 <= j < s.len() ==> s[j] != c,
        },
    decreases s.len(),
{
    if s.len() > 0 && s[0] != c {
        let t = s.skip(1);
        first_of_is_least(t, c);
        assert(forall|j: int| 1 <= j < s.len() ==> s[j] == t[j - 1]);
    }
}

/// The position of the first `c` in `s`.
pub fn find_char(s: &Vec<char>, c: char) -> (r: Option<usize>)
    ensures
        match r {
            Some(i) => first_of(s@, c) == Some(i as int) && i < s.len(),
            None => first_of(s@, c) is None,
        },
{
    proof {
        first_of_is_least(s@, c);
    }
    let mut i: usize = 0;
    while i < s.len()
        invariant
            i <= s.len(),
            forall|j: int| 0 <= j < i ==> s[j] != c,
            match first_of(s@, c) {
                Some(i) => 0 <= i < s.len() && s[i] == c && forall|j: int|
                    0 <= j < i ==> s[j] != c,
                None => forall|j: int| 0 <= j < s.len() ==> s[j] != c,
            },
        decreases s.len() - i,
    {
        if s[i] == c {
            return Some(i);
        }
        i += 1;
    }
    None
}

/// The position of the last `c` in `s`, if there is one.
pub open spec fn last_of(s: Seq<char>, c: char) -> Option<int>
    decreases s.len(),
{
    if s.len() == 0 {
        None
    } else if s.last() == c {
        Some(s.len() - 1)
    } else {
        last_of(s.drop_last(), c)
    }
}

/// The position of the last `c` in `s`.
pub fn rfind_char(s: &Vec<char>, c: char) -> (r: Option<usize>)
    ensures
        match r {
            Some(i) => last_of(s@, c) == Some(i as int) && i < s.len(),
            None => last_of(s@, c) is None,
        },
{
    let mut i: usize = s.len();
    assert(s@.subrange(0, i as int) =~= s@);
    while i > 0
        invariant
            i <= s.len(),
            last_of(s@, c) == last_of(s@.subrange(0, i as int), c),
        decreases i,
    {
        assert(s@.subrange(0, i as int).drop_last() =~= s@.subrange(0, i - 1));
        i -= 1;
        if s[i] == c {
            return Some(i);
        }
    }
    None
}

/// The text of a run of characters.
pub fn text_of(s: &Vec<char>, from: usize, to: usize) -> (r: String)
    requires
        from <= to <= s.len(),
    ensures
        r@ == s@.subrange(from as int, to as int),
{
    let mut out: String = String::new();
    let mut i: usize = from;
    while i < to
        invariant
            from <= i <= to <= s.len(),
            out@ == s@.subrange(from as int, i as int),
        decreases to - i,
    {
        out.push(s[i]);
        assert(s@.subrange(from as int, i + 1) =~= s@.subrange(from as int, i as int).push(
            s@[i as int],
        ));
        i += 1;
    }
    out
}

/// What stands before and after the first `c`.
pub open spec fn split_first(s: Seq<char>, c: char) -> Option<(Seq<char>, Seq<char>)> {
    match first_of(s, c) {
        Some(i) => Some((s.subrange(0, i), s.subrange(i + 1, s.len() as int))),
        None => None,
    }
}

/// Splits a text at the first `c`.
pub fn split_once(s: &str, c: char) -> (r: Option<(String, String)>)
    ensures
        match r {
            Some((a, b)) => split_first(s@, c) == Some((a@, b@)),
            None => split_first(s@, c) is None,
        },
{
    let cs: Vec<char> = chars_of(s);
    match find_char(&cs, c) {
        Some(i) => Some((text_of(&cs, 0, i), text_of(&cs, i + 1, cs.len()))),
        None => None,
    }
}

/// A text without `c`, a `c` and any text are split into just these two texts, and the first
/// alone is not split.
pub proof fn split_at_first(a: Seq<char>, c: char, b: Seq<char>)
    requires
        !a.contains(c),
    ensures
        split_first(a + seq![c] + b, c) == Some((a, b)),
        split_first(a, c) is None,
{
    let s = a + seq![c] + b;
    first_of_is_least(s, c);
    first_of_is_least(a, c);
    assert(s[a.len() as int] == c);
    assert forall|j: int| 0 <= j < a.len() implies s[j] != c by {
        assert(a.contains(a[j]));
    }
    let i = first_of(s, c)->0;
    assert(i == a.len());
    assert(s.subrange(0, i) =~= a);
    assert(s.subrange(i + 1, s.len() as int) =~= b);
}

/// The pieces of `s` between occurrences of `sep`, found from the left.
pub open spec fn pieces(s: Seq<char>, sep: Seq<char>) -> Seq<Seq<char>> {
    pieces_from(s, sep, 0, 0)
}

/// The pieces of `s` from `start` on, where `sep` is looked for from `i` on.
pub open spec fn pieces_from(s: Seq<char>, sep: Seq<char>, start: int, i: int) -> Seq<Seq<char>>
    decreases s.len() - i,
{
    if i < 0 || i >= s.len() || sep.len() == 0 {
        seq![s.subrange(start, s.len() as int)]
    } else if occurs_at(s, sep, i) {
        seq![s.subrange(start, i)] + pieces_from(s, sep, i + sep.len(), i + sep.len())
    } else {
        pieces_from(s, sep, start, i + 1)
    }
}

/// The views of a list of strings.
pub open spec fn texts(v: Seq<String>) -> Seq<Seq<char>> {
    v.map_values(|s: String| s@)
}

/// Splits a text at every `sep`.
pub fn split(s: &str, sep: &str) -> (r: Vec<String>)
    requires
        sep@.len() > 0,
    ensures
        texts(r@) == pieces(s@, sep@),
{
    let cs: Vec<char> = chars_of(s);
    let cp: Vec<char> = chars_of(sep);
    let mut out: Vec<String> = Vec::new();
    let mut start: usize = 0;
    let mut i: usize = 0;
    while i < cs.len()
        invariant
            cs@ == s@,
            cp@ == sep@,
            cp.len() > 0,
            start <= i <= cs.len(),
            texts(out@) + pieces_from(s@, sep@, start as int, i as int) == pieces(s@, sep@),
        decreases cs.len() - i,
    {
        if matches_at(&cs, &cp, i) {
            let ghost before = out@;
            let piece: String = text_of(&cs, start, i);
            out.push(piece);
            assert(texts(out@) =~= texts(before).push(piece@));
            start = i + cp.len();
            let ghost rest = pieces_from(s@, sep@, start as int, start as int);
            assert(texts(before) + (seq![piece@] + rest) =~= texts(out@) + rest);
            i = start;
        } else {
            i += 1;
        }
    }
    let ghost before = out@;
    let piece: String = text_of(&cs, start, cs.len());
    out.push(piece);
    assert(texts(out@) =~= texts(before) + seq![piece@]);
    out
}

/// The pieces put together with `sep` between them.
pub open spec fn joined(v: Seq<Seq<char>>, sep: Seq<char>) -> Seq<char>
    decreases v.len(),
{
    if v.len() == 0 {
        Seq::empty()
    } else if v.len() == 1 {
        v[0]
    } else {
        joined(v.drop_last(), sep) + sep + v.last()
    }
}

/// Joins texts with `sep` between them.
pub fn join(v: &Vec<String>, sep: &str) -> (r: String)
    ensures
        r@ == joined(texts(v@), sep@),
{
    let mut out: String = String::new();
    let mut i: usize = 0;
    while i < v.len()
        invariant
            i <= v.len(),
            out@ == joined(texts(v@).subrange(0, i as int), sep@),
        decreases v.len() - i,
    {
        let ghost done = texts(v@).subrange(0, i as int);
        let ghost next = texts(v@).subrange(0, i + 1);
        assert(next.drop_last() =~= done);
        if i > 0 {
            out.append(sep);
        }
        out.append(v[i].as_str());
        assert(next.last() == v[i as int]@);
        assert(out@ =~= joined(next, sep@));
        i += 1;
    }
    assert(texts(v@).subrange(0, i as int) =~= texts(v@));
    out
}

/// Putting a piece before others puts it and the separator before what they make.
proof fn joined_front(a: Seq<char>, v: Seq<Seq<char>>, sep: Seq<char>)
    requires
        v.len() > 0,
    ensures
        joined(seq![a] + v, sep) == a + sep + joined(v, sep),
    decreases v.len(),
{
    let w = seq![a] + v;
    if v.len() == 1 {
        assert(w.drop_last() =~= seq![a]);
        assert(joined(seq![a], sep) == a);
    } else {
        joined_front(a, v.drop_last(), sep);
        assert(w.drop_last() =~= seq![a] + v.drop_last());
        assert(joined(w, sep) =~= a + sep + joined(v, sep));
    }
}

proof fn pieces_from_join(s: Seq<char>, sep: Seq<char>, start: int, i: int)
    requires
        0 <= start <= i <= s.len(),
        sep.len() > 0,
    ensures
        pieces_from(s, sep, start, i).len() > 0,
        joined(pieces_from(s, sep, start, i), sep) == s.subrange(start, s.len() as int),
    decreases s.len() - i,
{
    if i >= s.len() {
        assert(joined(seq![s.subrange(start, s.len() as int)], sep) == s.subrange(
            start,
            s.len() as int,
        ));
    } else if occurs_at(s, sep, i) {
        let next = i + sep.len();
        pieces_from_join(s, sep, next, next);
        joined_front(s.subrange(start, i), pieces_from(s, sep, next, next), sep);
        assert(s.subrange(start, i) + sep + s.subrange(next, s.len() as int) =~= s.subrange(
            start,
            s.len() as int,
        ));
    } else {
        pieces_from_join(s, sep, start, i + 1);
    }
}

/// Joining what was split gives back the text.
pub proof fn join_undoes_split(s: Seq<char>, sep: Seq<char>)
    requires
        sep.len() > 0,
    ensures
        joined(pieces(s, sep), sep) == s,
{
    pieces_from_join(s, sep, 0, 0);
    assert(s.subrange(0, s.len() as int) =~= s);
}

/// Texts without those that equal one.
pub open spec fn texts_without(v: Seq<Seq<char>>, s: Seq<char>) -> Seq<Seq<char>>
    decreases v.len(),
{
    if v.len() == 0 {
        v
    } else if v.last() == s {
        texts_without(v.drop_last(), s)
    } else {
        texts_without(v.drop_last(), s).push(v.last())
    }
}

/// Texts with one more, unless it is there already.
pub open spec fn texts_with(v: Seq<Seq<char>>, s: Seq<char>) -> Seq<Seq<char>> {
    if v.contains(s) {
        v
    } else {
        v.push(s)
    }
}

/// Whether a text is among others.
pub fn is_among(v: &Vec<String>, s: &str) -> (r: bool)
    ensures
        r == texts(v@).contains(s@),
{
    let mut i: usize = 0;
    while i < v.len()
        invariant
            i <= v.len(),
            forall|j: int| 0 <= j < i ==> #[trigger] texts(v@)[j] != s@,
        decreases v.len() - i,
    {
        assert(texts(v@)[i as int] == v[i as int]@);
        if same(v[i].as_str(), s) {
            return true;
        }
        i += 1;
    }
    false
}

/// Takes out the texts that equal one.
pub fn take_out(v: &mut Vec<String>, s: &str)
    ensures
        texts(final(v)@) == texts_without(texts(old(v)@), s@),
{
    let ghost before = texts(v@);
    let mut kept: Vec<String> = Vec::new();
    let mut i: usize = 0;
    while i < v.len()
        invariant
            i <= v.len(),
            before == texts(v@),
            texts(kept@) == texts_without(before.subrange(0, i as int), s@),
        decreases v.len() - i,
    {
        assert(before.subrange(0, i + 1).drop_last() =~= before.subrange(0, i as int));
        if !same(v[i].as_str(), s) {
            let ghost so_far = kept@;
            let t: String = v[i].clone();
            kept.push(t);
            assert(texts(kept@) =~= texts(so_far).push(t@));
        }
        i += 1;
    }
    assert(before.subrange(0, i as int) =~= before);
    *v = kept;
}

/// Adds a text behind others.
pub fn push_text(out: &mut Vec<String>, t: String)
    ensures
        texts(final(out)@) == texts(old(out)@).push(t@),
{
    let ghost v = t@;
    out.push(t);
    assert(texts(out@) =~= texts(old(out)@).push(v));
}

/// The decimal digit of a number below ten.
pub open spec fn digit(d: int) -> char {
    (48 + d) as char
}

/// A number in decimal, without leading zeros.
pub open spec fn decimal_text(n: nat) -> Seq<char>
    decreases n,
{
    if n < 10 {
        seq![digit(n as int)]
    } else {
        decimal_text(n / 10).push(digit((n % 10) as int))
    }
}

/// Writes a number in decimal.
pub fn decimal(n: u64) -> (r: String)
    ensures
        r@ == decimal_text(n as nat),
    decreases n,
{
    let c: char = (48 + (n % 10) as u8) as char;
    if n < 10 {
        let mut out: String = String::new();
        out.push(c);
        assert(out@ =~= seq![digit(n as int)]);
        out
    } else {
        let mut out: String = decimal(n / 10);
        out.push(c);
        out
    }
}

/// Whether a character is an ASCII digit.
pub open spec fn is_digit(c: char) -> bool {
    '0' <= c <= '9'
}

/// Whether a text is made of ASCII digits alone.
pub open spec fn all_digits(s: Seq<char>) -> bool {
    forall|i: int| 0 <= i < s.len() ==> is_digit(#[trigger] s[i])
}

/// The number that a run of digits denotes.
pub open spec fn digits_value(s: Seq<char>) -> nat
    decreases s.len(),
{
    if s.len() == 0 {
        0
    } else {
        digits_value(s.drop_last()) * 10 + (s.last() as int - 48) as nat
    }
}

/// The unsigned number that a text denotes: an optional plus sign, then one or
/// more digits, of a value not above `max`.
pub open spec fn parsed_uint(s: Seq<char>, max: u64) -> Option<u64> {
    let t = if s.len() > 0 && s[0] == '+' {
        s.skip(1)
    } else {
        s
    };
    if t.len() > 0 && all_digits(t) && digits_value(t) <= max {
        Some(digits_value(t) as u64)
    } else {
        None
    }
}

/// More digits never make a number smaller.
proof fn digits_value_grows(s: Seq<char>, i: int)
    requires
        0 <= i <= s.len(),
    ensures
        digits_value(s.subrange(0, i)) <= digits_value(s),
    decreases s.len() - i,
{
    if i < s.len() {
        digits_value_grows(s, i + 1);
        assert(s.subrange(0, i + 1).drop_last() =~= s.subrange(0, i));
    } else {
        assert(s.subrange(0, i) =~= s);
    }
}

/// Reads an unsigned number not above `max`.
pub fn parse_uint(s: &str, max: u64) -> (r: Option<u64>)
    ensures
        r == parsed_uint(s@, max),
{
    let cs: Vec<char> = chars_of(s);
    let from: usize = if cs.len() > 0 && cs[0] == '+' {
        1
    } else {
        0
    };
    let ghost t = s@.subrange(from as int, s@.len() as int);
    assert(t == if s@.len() > 0 && s@[0] == '+' {
        s@.skip(1)
    } else {
        s@
    });
    if from == cs.len() {
        return None;
    }
    let mut n: u64 = 0;
    let mut i: usize = from;
    while i < cs.len()
        invariant
            cs@ == s@,
            from <= i <= cs.len(),
            t == s@.subrange(from as int, s@.len() as int),
            t.len() > 0,
            parsed_uint(s@, max) == if all_digits(t) && digits_value(t) <= max {
                Some(digits_value(t) as u64)
            } else {
                None
            },
            forall|j: int| 0 <= j < i - from ==> is_digit(#[trigger] t[j]),
            n == digits_value(t.subrange(0, i - from)),
            n <= max,
        decreases cs.len() - i,
    {
        let c: char = cs[i];
        assert(c == t[i - from]);
        if !(c >= '0' && c <= '9') {
            return None;
        }
        let d: u64 = c as u64 - 48;
        assert(t.subrange(0, i - from + 1).drop_last() =~= t.subrange(0, i - from));
        proof {
            digits_value_grows(t, i - from + 1);
        }
        if d > max || n > (max - d) / 10 {
            return None;
        }
        n = n * 10 + d;
        i += 1;
    }
    assert(t.subrange(0, i - from) =~= t);
    Some(n)
}

/// A decimal text is made of digits and denotes the number that was written.
pub proof fn decimal_text_denotes(n: nat)
    ensures
        decimal_text(n).len() > 0,
        all_digits(decimal_text(n)),
        digits_value(decimal_text(n)) == n,
    decreases n,
{
    if n >= 10 {
        decimal_text_denotes(n / 10);
        assert(decimal_text(n).drop_last() =~= decimal_text(n / 10));
    } else {
        assert(decimal_text(n).drop_last() =~= Seq::<char>::empty());
        assert(digits_value(Seq::<char>::empty()) == 0);
    }
}

/// Reading back a number that was written in decimal gives that number.
pub proof fn parse_undoes_decimal(n: u64, max: u64)
    requires
        n <= max,
    ensures
        parsed_uint(decimal_text(n as nat), max) == Some(n),
{
    decimal_text_denotes(n as nat);
    let s = decimal_text(n as nat);
    assert(is_digit(s[0]));
}

/// Two numbers with the same decimal text are the same.
pub proof fn decimal_text_injective(a: nat, b: nat)
    requires
        decimal_text(a) == decimal_text(b),
    ensures
        a == b,
{
    decimal_text_denotes(a);
    decimal_text_denotes(b);
}

/// An ASCII letter in upper case; any other character as it is.
pub open spec fn upper_char(c: char) -> char {
    if 'a' <= c <= 'z' {
        (c as int - 32) as char
    } else {
        c
    }
}

/// A text with its ASCII letters in upper case.
pub open spec fn upper_text(s: Seq<char>) -> Seq<char> {
    s.map_values(|c: char| upper_char(c))
}

/// Puts the ASCII letters of a text in upper case.
pub fn to_ascii_uppercase(s: &str) -> (r: String)
    ensures
        r@ == upper_text(s@),
{
    let cs: Vec<char> = chars_of(s);
    let mut out: String = String::new();
    let mut i: usize = 0;
    while i < cs.len()
        invariant
            cs@ == s@,
            i <= cs.len(),
            out@ == upper_text(s@.subrange(0, i as int)),
        decreases cs.len() - i,
    {
        let c: char = cs[i];
        let u: char = if c >= 'a' && c <= 'z' {
            (c as u8 - 32) as char
        } else {
            c
        };
        out.push(u);
        assert(upper_text(s@.subrange(0, i + 1)) =~= upper_text(s@.subrange(0, i as int)).push(
            upper_char(c),
        ));
        i += 1;
    }
    assert(s@.subrange(0, i as int) =~= s@);
    out
}

/// Whether two texts are the same but for the case of ASCII letters.
pub fn eq_ignore_ascii_case(a: &str, b: &str) -> (r: bool)
    ensures
        r == (upper_text(a@) == upper_text(b@)),
{
    to_ascii_uppercase(a) == to_ascii_uppercase(b)
}

/// An ASCII letter in lower case; any other character as it is.
pub open spec fn lower_char(c: char) -> char {
    if 'A' <= c <= 'Z' {
        (c as int + 32) as char
    } else {
        c
    }
}

/// A text with its ASCII letters in lower case.
pub open spec fn lower_text(s: Seq<char>) -> Seq<char> {
    s.map_values(|c: char| lower_char(c))
}

/// A text with `with` in the place of every `c`.
pub open spec fn replaced(s: Seq<char>, c: char, with: Seq<char>) -> Seq<char>
    decreases s.len(),
{
    if s.len() == 0 {
        s
    } else if s.last() == c {
        replaced(s.drop_last(), c, with) + with
    } else {
        replaced(s.drop_last(), c, with).push(s.last())
    }
}

/// Puts `with` in the place of every `c`.
pub fn replace_char(s: &str, c: char, with: &str) -> (r: String)
    ensures
        r@ == replaced(s@, c, with@),
{
    let cs: Vec<char> = chars_of(s);
    let mut out: String = String::new();
    let mut i: usize = 0;
    while i < cs.len()
        invariant
            cs@ == s@,
            i <= cs.len(),
            out@ == replaced(s@.subrange(0, i as int), c, with@),
        decreases cs.len() - i,
    {
        assert(s@.subrange(0, i + 1).drop_last() =~= s@.subrange(0, i as int));
        if cs[i] == c {
            out.append(with);
        } else {
            out.push(cs[i]);
        }
        i += 1;
    }
    assert(s@.subrange(0, i as int) =~= s@);
    out
}

/// A text without the run of `c` at its end.
pub open spec fn trimmed_end(s: Seq<char>, c: char) -> Seq<char>
    decreases s.len(),
{
    if s.len() > 0 && s.last() == c {
        trimmed_end(s.drop_last(), c)
    } else {
        s
    }
}

/// Takes the run of `c` off the end of a text.
pub fn trim_end(s: &str, c: char) -> (r: String)
    ensures
        r@ == trimmed_end(s@, c),
{
    let cs: Vec<char> = chars_of(s);
    let mut n: usize = cs.len();
    assert(s@.subrange(0, n as int) =~= s@);
    while n > 0 && cs[n - 1] == c
        invariant
            cs@ == s@,
            n <= cs.len(),
            trimmed_end(s@, c) == trimmed_end(s@.subrange(0, n as int), c),
        decreases n,
    {
        assert(s@.subrange(0, n as int).drop_last() =~= s@.subrange(0, n - 1));
        n -= 1;
    }
    text_of(&cs, 0, n)
}

/// A text without one leading `c`, if it has one.
pub open spec fn without_prefix(s: Seq<char>, c: char) -> Seq<char> {
    if s.len() > 0 && s[0] == c {
        s.skip(1)
    } else {
        s
    }
}

/// Takes one leading `c` off a text.
pub fn strip_prefix(s: &str, c: char) -> (r: String)
    ensures
        r@ == without_prefix(s@, c),
{
    let cs: Vec<char> = chars_of(s);
    if cs.len() > 0 && cs[0] == c {
        text_of(&cs, 1, cs.len())
    } else {
        s.to_owned()
    }
}

} // verus!
