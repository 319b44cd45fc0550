//! What holds of texts, numbers in texts, and bytes in texts.

use vstd::prelude::*;
use vstd::string::*;

use crate::base64;
use crate::text;

verus! {

/// A number in decimal: up to nine its one figure, and ten times a number and a figure is that
/// number with the figure behind it.
pub proof fn decimals_grow_by_figures(n: nat, d: nat)
    requires
        d < 10,
    ensures
        text::decimal_text(d).len() == 1,
        text::decimal_text(d)[0] as int == '0' as int + d,
        n > 0 ==> text::decimal_text(10 * n + d).len() == text::decimal_text(n).len() + 1,
        n > 0 ==> text::decimal_text(10 * n + d).drop_last() == text::decimal_text(n),
        n > 0 ==> text::decimal_text(10 * n + d).last() as int == '0' as int + d,
        text::decimal_text(0) == "0"@,
        text::decimal_text(7) == "7"@,
        text::decimal_text(10) == "10"@,
{
    if n > 0 {
        let m = 10 * n + d;
        assert(m / 10 == n);
        assert(m % 10 == d);
        assert(text::decimal_text(m).drop_last() =~= text::decimal_text(n));
    }
    reveal_strlit("0");
    reveal_strlit("7");
    reveal_strlit("10");
    assert(text::decimal_text(0) =~= "0"@);
    assert(text::decimal_text(7) =~= "7"@);
    reveal_with_fuel(text::decimal_text, 2);
    assert(text::decimal_text(10) =~= "10"@);
}

/// A text is a number where it is figures, perhaps behind a plus sign, and not too large; the
/// number is what the figures say.
pub proof fn numbers_are_read(s: Seq<char>, n: u64, max: u64, c: char, t: Seq<char>)
    ensures
        n <= max ==> text::parsed_uint(text::decimal_text(n as nat), max) == Some(n),
        n <= max ==> text::parsed_uint(seq!['+'] + text::decimal_text(n as nat), max) == Some(n),
        n > max ==> text::parsed_uint(text::decimal_text(n as nat), max) is None,
        text::parsed_uint(Seq::empty(), max) is None,
        text::parsed_uint(s, max) is Some ==> text::parsed_uint(s, max)->0 <= max,
        !('0' <= c <= '9') && (s.len() > 0 || c != '+') ==> text::parsed_uint(
            s + seq![c] + t,
            max,
        ) is None,
{
    text::decimal_text_denotes(n as nat);
    let d = text::decimal_text(n as nat);
    if n <= max {
        text::parse_undoes_decimal(n, max);
    }
    assert(text::is_digit(d[0]));
    let plus = seq!['+'] + d;
    assert(plus.skip(1) =~= d);
    let r = s + seq![c] + t;
    if !('0' <= c <= '9') && (s.len() > 0 || c != '+') {
        assert(r[s.len() as int] == c);
        let u = if r.len() > 0 && r[0] == '+' {
            r.skip(1)
        } else {
            r
        };
        if r[0] == '+' {
            assert(u[s.len() - 1] == c);
            assert(!text::is_digit(u[s.len() - 1]));
        } else {
            assert(!text::is_digit(u[s.len() as int]));
        }
    }
}

/// Upper and lower case change the letters of ASCII alone, each to its other form, and the two
/// agree on which texts are the same but for their case.
pub proof fn case_changes_letters(a: Seq<char>, b: Seq<char>, i: int)
    ensures
        text::upper_text(a).len() == a.len(),
        text::lower_text(a).len() == a.len(),
        0 <= i < a.len() && 'a' <= a[i] <= 'z' ==> text::upper_text(a)[i] as int == a[i] as int
            + 'A' as int - 'a' as int && text::lower_text(a)[i] == a[i],
        0 <= i < a.len() && 'A' <= a[i] <= 'Z' ==> text::lower_text(a)[i] as int == a[i] as int
            + 'a' as int - 'A' as int && text::upper_text(a)[i] == a[i],
        0 <= i < a.len() && !('a' <= a[i] <= 'z') && !('A' <= a[i] <= 'Z') ==> text::upper_text(
            a,
        )[i] == a[i] && text::lower_text(a)[i] == a[i],
        text::upper_text(a) == text::upper_text(b) <==> text::lower_text(a) == text::lower_text(b),
        vstd::utf8::is_ascii_chars(a) ==> text::lowered(a) == text::lower_text(a),
{
    if text::upper_text(a) == text::upper_text(b) {
        assert(text::upper_text(a).len() == text::upper_text(b).len());
        assert forall|k: int| 0 <= k < a.len() implies #[trigger] text::lower_text(a)[k]
            == text::lower_text(b)[k] by {
            assert(text::upper_text(a)[k] == text::upper_text(b)[k]);
        }
        assert(text::lower_text(a) =~= text::lower_text(b));
    }
    if text::lower_text(a) == text::lower_text(b) {
        assert(text::lower_text(a).len() == text::lower_text(b).len());
        assert forall|k: int| 0 <= k < a.len() implies #[trigger] text::upper_text(a)[k]
            == text::upper_text(b)[k] by {
            assert(text::lower_text(a)[k] == text::lower_text(b)[k]);
        }
        assert(text::upper_text(a) =~= text::upper_text(b));
    }
}

/// A text begins with another where it is that and something, ends in it where it is something and
/// that, and has it where it is something, that and something.
pub proof fn parts_of_texts(s: Seq<char>, p: Seq<char>, a: Seq<char>, b: Seq<char>)
    ensures
        text::has_prefix(p + b, p),
        text::has_suffix(a + p, p),
        text::has_text(a + p + b, p),
        text::has_prefix(s, p) ==> exists|t: Seq<char>| s == #[trigger] (p + t),
        text::has_suffix(s, p) ==> exists|t: Seq<char>| s == #[trigger] (t + p),
        text::has_text(s, p) ==> exists|t: Seq<char>, u: Seq<char>| s == #[trigger] (t + p + u),
{
    assert((p + b).subrange(0, p.len() as int) =~= p);
    assert((a + p).subrange(a.len() as int, (a + p).len() as int) =~= p);
    assert((a + p + b).subrange(a.len() as int, (a.len() + p.len()) as int) =~= p);
    assert(text::occurs_at(a + p + b, p, a.len() as int));
    if text::has_prefix(s, p) {
        let t = s.skip(p.len() as int);
        assert(s =~= s.subrange(0, p.len() as int) + t);
        assert(s == p + t);
    }
    if text::has_suffix(s, p) {
        let t = s.take(s.len() - p.len());
        assert(s =~= t + s.subrange(s.len() - p.len(), s.len() as int));
        assert(s == t + p);
    }
    if text::has_text(s, p) {
        let i = choose|i: int| text::occurs_at(s, p, i);
        let t = s.take(i);
        let u = s.skip(i + p.len());
        assert(s =~= t + s.subrange(i, i + p.len()) + u);
        assert(s == t + p + u);
    }
}

proof fn last_of_is_greatest(s: Seq<char>, c: char)
    ensures
        match text::last_of(s, c) {
            Some(i) => 0 <= i < s.len() && s[i] == c && forall|j: int|
                i < j < s.len() ==> s[j] != c,
            None => forall|j: int| 0 <= j < s.len() ==> s[j] != c,
        },
    decreases s.len(),
{
    if s.len() > 0 && s.last() != c {
        let t = s.drop_last();
        last_of_is_greatest(t, c);
        assert forall|j: int| 0 <= j < t.len() implies t[j] == s[j] by {}
        match text::last_of(s, c) {
            Some(i) => {
                assert(t[i] == s[i]);
                assert forall|j: int| i < j < s.len() implies s[j] != c by {
                    if j < t.len() {
                        assert(t[j] == s[j]);
                    }
                }
            },
            None => {
                assert forall|j: int| 0 <= j < s.len() implies s[j] != c by {
                    if j < t.len() {
                        assert(t[j] == s[j]);
                    }
                }
            },
        }
    }
}

/// The last of some characters in a text is the one that none of them follows, and the first the
/// one that follows none.
pub proof fn characters_are_found(a: Seq<char>, c: char, b: Seq<char>)
    ensures
        !b.contains(c) ==> text::last_of(a + seq![c] + b, c) == Some(a.len() as int),
        !b.contains(c) ==> text::last_of(b, c) is None,
        !a.contains(c) ==> text::first_of(a + seq![c] + b, c) == Some(a.len() as int),
        !a.contains(c) ==> text::first_of(a, c) is None,
{
    let s = a + seq![c] + b;
    let n = a.len() as int;
    assert(s[n] == c);
    last_of_is_greatest(s, c);
    last_of_is_greatest(b, c);
    text::first_of_is_least(s, c);
    text::first_of_is_least(a, c);
    if !b.contains(c) {
        assert forall|j: int| n < j < s.len() implies s[j] != c by {
            assert(b.contains(b[j - n - 1]));
        }
    }
    if !a.contains(c) {
        assert forall|j: int| 0 <= j < n implies s[j] != c by {
            assert(a.contains(a[j]));
        }
    }
}

/// Texts are put together with what goes between them before every one but the first.
pub proof fn texts_are_joined(v: Seq<Seq<char>>, s: Seq<char>, sep: Seq<char>)
    ensures
        text::joined(Seq::empty(), sep).len() == 0,
        v.len() == 0 ==> text::joined(v.push(s), sep) == s,
        v.len() > 0 ==> text::joined(v.push(s), sep) == text::joined(v, sep) + sep + s,
{
    assert(v.push(s).drop_last() =~= v);
}

proof fn pieces_hold_no_separator(s: Seq<char>, sep: Seq<char>, start: int, i: int, k: int)
    requires
        sep.len() > 0,
        0 <= start <= i <= s.len(),
        forall|j: int| start <= j < i ==> !text::occurs_at(s, sep, j),
        0 <= k < text::pieces_from(s, sep, start, i).len(),
    ensures
        !text::has_text(text::pieces_from(s, sep, start, i)[k], sep),
    decreases s.len() - i,
{
    let r = text::pieces_from(s, sep, start, i);
    if i >= s.len() {
        piece_is_clean(s, sep, start, s.len() as int);
    } else if text::occurs_at(s, sep, i) {
        if k == 0 {
            piece_is_clean(s, sep, start, i);
        } else {
            let n = i + sep.len();
            pieces_hold_no_separator(s, sep, n, n, k - 1);
            assert(r[k] == text::pieces_from(s, sep, n, n)[k - 1]);
        }
    } else {
        pieces_hold_no_separator(s, sep, start, i + 1, k);
    }
}

proof fn piece_is_clean(s: Seq<char>, sep: Seq<char>, start: int, end: int)
    requires
        sep.len() > 0,
        0 <= start <= end <= s.len(),
        forall|j: int| start <= j < end ==> !text::occurs_at(s, sep, j),
    ensures
        !text::has_text(s.subrange(start, end), sep),
{
    let p = s.subrange(start, end);
    if text::has_text(p, sep) {
        let i = choose|i: int| text::occurs_at(p, sep, i);
        assert(p.subrange(i, i + sep.len()) =~= s.subrange(start + i, start + i + sep.len()));
        assert(text::occurs_at(s, sep, start + i));
    }
}

/// A text is split at every separator: no piece has one, and the pieces with the separator between
/// them are the text.
pub proof fn texts_are_split(s: Seq<char>, sep: Seq<char>, k: int)
    requires
        sep.len() > 0,
    ensures
        text::joined(text::pieces(s, sep), sep) == s,
        0 <= k < text::pieces(s, sep).len() ==> !text::has_text(text::pieces(s, sep)[k], sep),
{
    text::join_undoes_split(s, sep);
    if 0 <= k < text::pieces(s, sep).len() {
        pieces_hold_no_separator(s, sep, 0, 0, k);
    }
}

/// Taking a text out of a list takes out every one that is the same and keeps all others, in their
/// order.
pub proof fn others_are_kept(v: Seq<Seq<char>>, s: Seq<char>)
    ensures
        text::texts_without(v, s) == v.filter(|t: Seq<char>| t != s),
    decreases v.len(),
{
    reveal(Seq::filter);
    if v.len() > 0 {
        others_are_kept(v.drop_last(), s);
    }
}

/// A character is replaced wherever it stands, and nothing else is.
pub proof fn characters_are_replaced(s: Seq<char>, c: char, d: char, with: Seq<char>)
    ensures
        text::replaced(Seq::empty(), c, with).len() == 0,
        text::replaced(s.push(c), c, with) == text::replaced(s, c, with) + with,
        d != c ==> text::replaced(s.push(d), c, with) == text::replaced(s, c, with).push(d),
{
    assert(s.push(c).drop_last() =~= s);
    assert(s.push(d).drop_last() =~= s);
}

/// A run of a character is taken off the end of a text, and one character off its beginning.
pub proof fn ends_are_trimmed(s: Seq<char>, c: char, d: char)
    ensures
        text::trimmed_end(s.push(c), c) == text::trimmed_end(s, c),
        d != c ==> text::trimmed_end(s.push(d), c) == s.push(d),
        text::trimmed_end(Seq::empty(), c).len() == 0,
        text::without_prefix(seq![c] + s, c) == s,
        d != c ==> text::without_prefix(seq![d] + s, c) == seq![d] + s,
        text::without_prefix(Seq::empty(), c).len() == 0,
{
    assert(s.push(c).drop_last() =~= s);
    assert((seq![c] + s).skip(1) =~= s);
}

/// The alphabet of base 64.
pub open spec fn alphabet() -> Seq<char> {
    "ABCDEFGHIJKLMNOPQRSTUVWXYZabcdefghijklmnopqrstuvwxyz0123456789+/"@
}

proof fn alphabet_is_used(n: int)
    requires
        0 <= n < 64,
    ensures
        alphabet().len() == 64,
        base64::sextet_char(n) == alphabet()[n],
{
    reveal_strlit("ABCDEFGHIJKLMNOPQRSTUVWXYZabcdefghijklmnopqrstuvwxyz0123456789+/");
    let a = alphabet();
    assert(a.len() == 64);
    if n < 26 {
        upper_part(n);
    } else if n < 52 {
        lower_part(n);
    } else {
        other_part(n);
    }
}

#[verifier::spinoff_prover]
proof fn upper_part(n: int)
    requires
        0 <= n < 26,
    ensures
        base64::sextet_char(n) == alphabet()[n],
{
    reveal_strlit("ABCDEFGHIJKLMNOPQRSTUVWXYZabcdefghijklmnopqrstuvwxyz0123456789+/");
    let a = alphabet();
    assert(a[0] == 'A');
    assert(a[1] == 'B');
    assert(a[2] == 'C');
    assert(a[3] == 'D');
    assert(a[4] == 'E');
    assert(a[5] == 'F');
    assert(a[6] == 'G');
    assert(a[7] == 'H');
    assert(a[8] == 'I');
    assert(a[9] == 'J');
    assert(a[10] == 'K');
    assert(a[11] == 'L');
    assert(a[12] == 'M');
    assert(a[13] == 'N');
    assert(a[14] == 'O');
    assert(a[15] == 'P');
    assert(a[16] == 'Q');
    assert(a[17] == 'R');
    assert(a[18] == 'S');
    assert(a[19] == 'T');
    assert(a[20] == 'U');
    assert(a[21] == 'V');
    assert(a[22] == 'W');
    assert(a[23] == 'X');
    assert(a[24] == 'Y');
    assert(a[25] == 'Z');
}

#[verifier::spinoff_prover]
proof fn lower_part(n: int)
    requires
        26 <= n < 52,
    ensures
        base64::sextet_char(n) == alphabet()[n],
{
    reveal_strlit("ABCDEFGHIJKLMNOPQRSTUVWXYZabcdefghijklmnopqrstuvwxyz0123456789+/");
    let a = alphabet();
    assert(a[26] == 'a');
    assert(a[27] == 'b');
    assert(a[28] == 'c');
    assert(a[29] == 'd');
    assert(a[30] == 'e');
    assert(a[31] == 'f');
    assert(a[32] == 'g');
    assert(a[33] == 'h');
    assert(a[34] == 'i');
    assert(a[35] == 'j');
    assert(a[36] == 'k');
    assert(a[37] == 'l');
    assert(a[38] == 'm');
    assert(a[39] == 'n');
    assert(a[40] == 'o');
    assert(a[41] == 'p');
    assert(a[42] == 'q');
    assert(a[43] == 'r');
    assert(a[44] == 's');
    assert(a[45] == 't');
    assert(a[46] == 'u');
    assert(a[47] == 'v');
    assert(a[48] == 'w');
    assert(a[49] == 'x');
    assert(a[50] == 'y');
    assert(a[51] == 'z');
}

#[verifier::spinoff_prover]
proof fn other_part(n: int)
    requires
        52 <= n < 64,
    ensures
        base64::sextet_char(n) == alphabet()[n],
{
    reveal_strlit("ABCDEFGHIJKLMNOPQRSTUVWXYZabcdefghijklmnopqrstuvwxyz0123456789+/");
    let a = alphabet();
    assert(a[52] == '0');
    assert(a[53] == '1');
    assert(a[54] == '2');
    assert(a[55] == '3');
    assert(a[56] == '4');
    assert(a[57] == '5');
    assert(a[58] == '6');
    assert(a[59] == '7');
    assert(a[60] == '8');
    assert(a[61] == '9');
    assert(a[62] == '+');
    assert(a[63] == '/');
}

proof fn four_figures(x: int, y: int, z: int, w: int)
    requires
        0 <= x,
        0 <= y < 64,
        0 <= z < 64,
        0 <= w < 64,
    ensures
        ({
            let n = x * 262144 + y * 4096 + z * 64 + w;
            &&& n / 262144 == x
            &&& n / 4096 % 64 == y
            &&& n / 64 % 64 == z
            &&& n % 64 == w
        }),
{
    let n = x * 262144 + y * 4096 + z * 64 + w;
    assert(n / 4096 == x * 64 + y);
    assert(n / 64 == x * 4096 + y * 64 + z);
}

/// Three bytes are four characters of the alphabet, as the number of 24 bits that they are is
/// written to base 64; a single last byte is two and two equals signs, and two last bytes are
/// three and one.
pub proof fn bytes_are_encoded(a: u8, b: u8, c: u8, rest: Seq<u8>)
    ensures
        base64::encoded(Seq::empty()).len() == 0,
        ({
            let n = a * 65536 + b * 256 + c;
            base64::encoded(seq![a, b, c] + rest) == seq![
                alphabet()[n / 262144],
                alphabet()[n / 4096 % 64],
                alphabet()[n / 64 % 64],
                alphabet()[n % 64],
            ] + base64::encoded(rest)
        }),
        ({
            let n = a * 65536;
            base64::encoded(seq![a]) == seq![
                alphabet()[n / 262144],
                alphabet()[n / 4096 % 64],
                '=',
                '=',
            ]
        }),
        ({
            let n = a * 65536 + b * 256;
            base64::encoded(seq![a, b]) == seq![
                alphabet()[n / 262144],
                alphabet()[n / 4096 % 64],
                alphabet()[n / 64 % 64],
                '=',
            ]
        }),
{
    let s = seq![a, b, c] + rest;
    assert(s.skip(3) =~= rest);
    let x = (a / 4) as int;
    let y = a % 4 * 16 + b / 16;
    let z = b % 16 * 4 + c / 64;
    let w = (c % 64) as int;
    assert(a * 65536 + b * 256 + c == x * 262144 + y * 4096 + z * 64 + w);
    four_figures(x, y, z, w);
    alphabet_is_used(x);
    alphabet_is_used(y);
    alphabet_is_used(z);
    alphabet_is_used(w);
    let y1 = a % 4 * 16;
    assert(a * 65536 == x * 262144 + y1 * 4096);
    four_figures(x, y1, 0, 0);
    alphabet_is_used(y1);
    let z1 = b % 16 * 4;
    assert(a * 65536 + b * 256 == x * 262144 + y * 4096 + z1 * 64);
    four_figures(x, y, z1, 0);
    alphabet_is_used(z1);
}

/// What base 64 stands for is what was encoded, wherever characters that stand for nothing, such
/// as line breaks, are put in.
pub proof fn bytes_are_decoded(b: Seq<u8>, s: Seq<char>, t: Seq<char>, c: char)
    ensures
        base64::decoded(base64::encoded(b)) == b,
        !('A' <= c <= 'Z') && !('a' <= c <= 'z') && !('0' <= c <= '9') && c != '+' && c != '/'
            ==> base64::decoded(s + seq![c] + t) == base64::decoded(s + t),
{
    base64::decode_undoes_encode(b);
    if base64::sextet(c) is None {
        sextets_skip(s, t, c);
    }
}

proof fn alphabet_is_read(n: int)
    requires
        0 <= n < 64,
    ensures
        base64::sextet(alphabet()[n]) == Some(n as u8),
{
    alphabet_is_used(n);
}

/// Four characters of the alphabet, as figures to base 64, are the three bytes of the number that
/// they write; three characters at the end are the first two of them, and two are the first. A
/// single one makes a byte of its six bits.
#[verifier::spinoff_prover]
pub proof fn characters_are_decoded(x: int, y: int, z: int, w: int, rest: Seq<char>)
    requires
        0 <= x < 64,
        0 <= y < 64,
        0 <= z < 64,
        0 <= w < 64,
    ensures
        ({
            let n = x * 262144 + y * 4096 + z * 64 + w;
            let a = alphabet();
            &&& base64::decoded(seq![a[x], a[y], a[z], a[w]] + rest) == seq![
                (n / 65536) as u8,
                (n / 256 % 256) as u8,
                (n % 256) as u8,
            ] + base64::decoded(rest)
            &&& base64::decoded(seq![a[x], a[y], a[z]]) == seq![
                (n / 65536) as u8,
                (n / 256 % 256) as u8,
            ]
            &&& base64::decoded(seq![a[x], a[y]]) == seq![(n / 65536) as u8]
            &&& base64::decoded(seq![a[x]]) == seq![(x * 4) as u8]
        }),
{
    let n = x * 262144 + y * 4096 + z * 64 + w;
    let a = alphabet();
    alphabet_is_read(x);
    alphabet_is_read(y);
    alphabet_is_read(z);
    alphabet_is_read(w);
    three_bytes(x, y, z, w);
    reveal_with_fuel(base64::sextets, 5);
    let s = seq![a[x], a[y], a[z], a[w]] + rest;
    assert(s.skip(1).skip(1).skip(1).skip(1) =~= rest);
    let v = base64::sextets(rest);
    let four = seq![x as u8, y as u8, z as u8, w as u8] + v;
    assert(base64::sextets(s) =~= four);
    assert(four.skip(4) =~= v);
    let s3 = seq![a[x], a[y], a[z]];
    assert(s3.skip(1).skip(1).skip(1) =~= Seq::empty());
    assert(base64::sextets(s3) =~= seq![x as u8, y as u8, z as u8]);
    let s2 = seq![a[x], a[y]];
    assert(s2.skip(1).skip(1) =~= Seq::empty());
    assert(base64::sextets(s2) =~= seq![x as u8, y as u8]);
    let s1 = seq![a[x]];
    assert(s1.skip(1) =~= Seq::empty());
    assert(base64::sextets(s1) =~= seq![x as u8]);
}

proof fn three_bytes(x: int, y: int, z: int, w: int)
    requires
        0 <= x < 64,
        0 <= y < 64,
        0 <= z < 64,
        0 <= w < 64,
    ensures
        ({
            let n = x * 262144 + y * 4096 + z * 64 + w;
            &&& n / 65536 == x * 4 + y / 16
            &&& n / 256 % 256 == y % 16 * 16 + z / 4
            &&& n % 256 == z % 4 * 64 + w
        }),
{
    let n = x * 262144 + y * 4096 + z * 64 + w;
    let p = x * 4 + y / 16;
    let q = y % 16 * 16 + z / 4;
    let r = z % 4 * 64 + w;
    assert(n == p * 65536 + q * 256 + r);
    assert(n / 256 == p * 256 + q);
}

proof fn sextets_skip(s: Seq<char>, t: Seq<char>, c: char)
    requires
        base64::sextet(c) is None,
    ensures
        base64::sextets(s + seq![c] + t) == base64::sextets(s + t),
    decreases s.len(),
{
    let u = s + seq![c] + t;
    if s.len() == 0 {
        assert(u.skip(1) =~= t);
        assert(s + t =~= t);
        assert(u[0] == c);
    } else {
        let r = s.skip(1);
        sextets_skip(r, t, c);
        assert(u.skip(1) =~= r + seq![c] + t);
        assert((s + t).skip(1) =~= r + t);
        assert(u[0] == (s + t)[0]);
    }
}

} // verus!
