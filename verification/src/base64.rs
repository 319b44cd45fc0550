//! Base 64 with the standard alphabet.

use vstd::prelude::*;
use vstd::string::*;

use base64::Engine;

use crate::text;

verus! {

/// The character that stands for six bits.
pub open spec fn sextet_char(n: int) -> char {
    if n < 26 {
        (65 + n) as char
    } else if n < 52 {
        (97 + n - 26) as char
    } else if n < 62 {
        (48 + n - 52) as char
    } else if n == 62 {
        '+'
    } else {
        '/'
    }
}

/// Bytes in base 64: four characters for three bytes, the last four filled up with
/// equals signs.
pub open spec fn encoded(b: Seq<u8>) -> Seq<char>
    decreases b.len(),
{
    if b.len() == 0 {
        Seq::empty()
    } else if b.len() == 1 {
        seq![sextet_char((b[0] / 4) as int), sextet_char(b[0] % 4 * 16), '=', '=']
    } else if b.len() == 2 {
        seq![
            sextet_char((b[0] / 4) as int),
            sextet_char(b[0] % 4 * 16 + b[1] / 16),
            sextet_char(b[1] % 16 * 4),
            '=',
        ]
    } else {
        seq![
            sextet_char((b[0] / 4) as int),
            sextet_char(b[0] % 4 * 16 + b[1] / 16),
            sextet_char(b[1] % 16 * 4 + b[2] / 64),
            sextet_char((b[2] % 64) as int),
        ] + encoded(b.skip(3))
    }
}

/// Calls `base64`'s `Engine::encode` with the standard engine. The text that it makes
/// room for must fit in memory.
#[verifier::external_body]
pub(crate) fn encode(bytes: &[u8]) -> (r: String)
    requires
        bytes@.len() / 3 * 4 + 4 <= isize::MAX,
    ensures
        r@ == encoded(bytes@),
{
    base64::engine::general_purpose::STANDARD.encode(bytes)
}

/// The six bits that a character stands for, if it stands for any.
pub open spec fn sextet(c: char) -> Option<u8> {
    if 'A' <= c <= 'Z' {
        Some((c as int - 65) as u8)
    } else if 'a' <= c <= 'z' {
        Some((c as int - 97 + 26) as u8)
    } else if '0' <= c <= '9' {
        Some((c as int - 48 + 52) as u8)
    } else if c == '+' {
        Some(62)
    } else if c == '/' {
        Some(63)
    } else {
        None
    }
}

/// The six bits of every character that stands for some; the others are passed over.
pub open spec fn sextets(s: Seq<char>) -> Seq<u8>
    decreases s.len(),
{
    if s.len() == 0 {
        Seq::empty()
    } else {
        match sextet(s[0]) {
            Some(v) => seq![v] + sextets(s.skip(1)),
            None => sextets(s.skip(1)),
        }
    }
}

/// The bytes that groups of four times six bits make. A short last group makes one byte
/// fewer than it has members, and one byte where it has one member.
pub open spec fn assembled(v: Seq<u8>) -> Seq<u8>
    decreases v.len(),
{
    if v.len() == 0 {
        Seq::empty()
    } else if v.len() == 1 {
        seq![(v[0] * 4) as u8]
    } else if v.len() == 2 {
        seq![(v[0] * 4 + v[1] / 16) as u8]
    } else if v.len() == 3 {
        seq![(v[0] * 4 + v[1] / 16) as u8, (v[1] % 16 * 16 + v[2] / 4) as u8]
    } else {
        seq![
            (v[0] * 4 + v[1] / 16) as u8,
            (v[1] % 16 * 16 + v[2] / 4) as u8,
            (v[2] % 4 * 64 + v[3]) as u8,
        ] + assembled(v.skip(4))
    }
}

/// The bytes that a text in base 64 stands for.
pub open spec fn decoded(s: Seq<char>) -> Seq<u8> {
    assembled(sextets(s))
}

proof fn sextet_of_char(n: int)
    requires
        0 <= n < 64,
    ensures
        sextet(sextet_char(n)) == Some(n as u8),
{
}

/// Reading off the characters of the first group and then the others.
proof fn sextets_unfold(a: char, b: char, c: char, d: char, rest: Seq<char>)
    ensures
        sextets(seq![a, b, c, d] + rest) == (match sextet(a) {
            Some(v) => seq![v],
            None => Seq::empty(),
        } + match sextet(b) {
            Some(v) => seq![v],
            None => Seq::empty(),
        } + match sextet(c) {
            Some(v) => seq![v],
            None => Seq::empty(),
        } + match sextet(d) {
            Some(v) => seq![v],
            None => Seq::empty(),
        }) + sextets(rest),
{
    let s = seq![a, b, c, d] + rest;
    assert(s.skip(1).skip(1).skip(1).skip(1) =~= rest);
    reveal_with_fuel(sextets, 5);
}

/// What base 64 was made of comes back: decoding undoes encoding.
pub proof fn decode_undoes_encode(b: Seq<u8>)
    ensures
        decoded(encoded(b)) == b,
    decreases b.len(),
{
    if b.len() == 0 {
        assert(decoded(encoded(b)) =~= b);
    } else if b.len() == 1 {
        let e = encoded(b);
        sextet_of_char((b[0] / 4) as int);
        sextet_of_char(b[0] % 4 * 16);
        sextets_unfold(e[0], e[1], e[2], e[3], Seq::empty());
        assert(seq![e[0], e[1], e[2], e[3]] + Seq::empty() =~= e);
        assert(sextets(Seq::empty()) =~= Seq::empty());
        assert(sextets(e) =~= seq![(b[0] / 4) as u8, (b[0] % 4 * 16) as u8]);
        assert(decoded(e) =~= b);
    } else if b.len() == 2 {
        let e = encoded(b);
        sextet_of_char((b[0] / 4) as int);
        sextet_of_char(b[0] % 4 * 16 + b[1] / 16);
        sextet_of_char(b[1] % 16 * 4);
        sextets_unfold(e[0], e[1], e[2], e[3], Seq::empty());
        assert(seq![e[0], e[1], e[2], e[3]] + Seq::empty() =~= e);
        assert(sextets(Seq::empty()) =~= Seq::empty());
        assert(sextets(e) =~= seq![
            (b[0] / 4) as u8,
            (b[0] % 4 * 16 + b[1] / 16) as u8,
            (b[1] % 16 * 4) as u8,
        ]);
        assert(decoded(e) =~= b);
    } else {
        let e = encoded(b);
        let rest = encoded(b.skip(3));
        sextet_of_char((b[0] / 4) as int);
        sextet_of_char(b[0] % 4 * 16 + b[1] / 16);
        sextet_of_char(b[1] % 16 * 4 + b[2] / 64);
        sextet_of_char((b[2] % 64) as int);
        sextets_unfold(e[0], e[1], e[2], e[3], rest);
        assert(seq![e[0], e[1], e[2], e[3]] + rest =~= e);
        let v = sextets(e);
        assert(v =~= seq![
            (b[0] / 4) as u8,
            (b[0] % 4 * 16 + b[1] / 16) as u8,
            (b[1] % 16 * 4 + b[2] / 64) as u8,
            (b[2] % 64) as u8,
        ] + sextets(rest));
        assert(v.skip(4) =~= sextets(rest));
        decode_undoes_encode(b.skip(3));
        assert(decoded(e) =~= seq![b[0], b[1], b[2]] + decoded(rest));
        assert(decoded(e) =~= b);
    }
}

fn sextet_of(c: char) -> (r: Option<u8>)
    ensures
        r == sextet(c),
{
    if c >= 'A' && c <= 'Z' {
        Some(c as u8 - 65)
    } else if c >= 'a' && c <= 'z' {
        Some(c as u8 - 97 + 26)
    } else if c >= '0' && c <= '9' {
        Some(c as u8 - 48 + 52)
    } else if c == '+' {
        Some(62)
    } else if c == '/' {
        Some(63)
    } else {
        None
    }
}

fn sextets_of(s: &str) -> (r: Vec<u8>)
    ensures
        r@ == sextets(s@),
        forall|i: int| 0 <= i < r.len() ==> r[i] < 64,
{
    let cs: Vec<char> = text::chars_of(s);
    let mut out: Vec<u8> = Vec::new();
    let mut i: usize = 0;
    assert(s@.skip(0) =~= s@);
    while i < cs.len()
        invariant
            cs@ == s@,
            i <= cs.len(),
            sextets(s@) == out@ + sextets(s@.skip(i as int)),
            forall|j: int| 0 <= j < out.len() ==> out[j] < 64,
        decreases cs.len() - i,
    {
        let ghost before = out@;
        assert(s@.skip(i as int).skip(1) =~= s@.skip(i + 1));
        if let Some(v) = sextet_of(cs[i]) {
            out.push(v);
            assert(before + (seq![v] + sextets(s@.skip(i + 1))) =~= out@ + sextets(
                s@.skip(i + 1),
            ));
        }
        i += 1;
    }
    assert(sextets(s@.skip(i as int)) =~= Seq::empty());
    assert(out@ + sextets(s@.skip(i as int)) =~= out@);
    out
}

fn assemble(v: &Vec<u8>) -> (r: Vec<u8>)
    requires
        forall|i: int| 0 <= i < v.len() ==> v[i] < 64,
    ensures
        r@ == assembled(v@),
{
    let mut out: Vec<u8> = Vec::new();
    let mut i: usize = 0;
    assert(v@.skip(0) =~= v@);
    while i < v.len()
        invariant
            i <= v.len(),
            forall|j: int| 0 <= j < v.len() ==> v[j] < 64,
            assembled(v@) == out@ + assembled(v@.skip(i as int)),
        decreases v.len() - i,
    {
        let ghost before = out@;
        let ghost group = v@.skip(i as int);
        let left: usize = v.len() - i;
        let b0: u8 = v[i];
        let b1: u8 = if left > 1 {
            v[i + 1]
        } else {
            0
        };
        let b2: u8 = if left > 2 {
            v[i + 2]
        } else {
            0
        };
        let b3: u8 = if left > 3 {
            v[i + 3]
        } else {
            0
        };
        out.push(b0 * 4 + b1 / 16);
        if left > 2 {
            out.push(b1 % 16 * 16 + b2 / 4);
        }
        if left > 3 {
            out.push(b2 % 4 * 64 + b3);
        }
        if left >= 4 {
            assert(group.skip(4) =~= v@.skip(i + 4));
            i += 4;
        } else {
            i = v.len();
            assert(v@.skip(i as int) =~= Seq::empty());
        }
        assert(before + assembled(group) =~= out@ + assembled(v@.skip(i as int)));
    }
    assert(v@.skip(i as int) =~= Seq::empty());
    assert(out@ + assembled(v@.skip(i as int)) =~= out@);
    out
}

/// The text of the bytes that a text in base 64 stands for; what is ill-formed of it
/// becomes replacement characters.
pub fn decode_base64(input: &str) -> (r: String)
    ensures
        r@ == text::lossy(decoded(input@)),
{
    let out: Vec<u8> = assemble(&sextets_of(input));
    text::from_utf8_lossy(out.as_slice())
}

/// A text comes back from its bytes in base 64.
pub proof fn text_survives_base64(t: Seq<char>)
    ensures
        text::lossy(decoded(encoded(vstd::utf8::encode_utf8(t)))) == t,
{
    decode_undoes_encode(vstd::utf8::encode_utf8(t));
    text::lossy_undoes_encode(t);
}

} // verus!
