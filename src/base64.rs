//! Base64 with the standard alphabet and `=` padding, as used for byte
//! payloads in host-call responses.

use crate::text::push_char;
use vstd::prelude::*;

verus! {

/// The digit for the six-bit value `v`: `A`-`Z`, `a`-`z`, `0`-`9`, `+`, `/`.
pub open spec fn digit64(v: int) -> char {
    if v < 26 {
        ((v + 65) as u8) as char
    } else if v < 52 {
        ((v + 71) as u8) as char
    } else if v < 62 {
        ((v - 4) as u8) as char
    } else if v == 62 {
        '+'
    } else {
        '/'
    }
}

/// The six-bit value of a digit; -1 for a character that is no digit.
pub open spec fn digit_value(c: char) -> int {
    if 'A' <= c && c <= 'Z' {
        c as int - 65
    } else if 'a' <= c && c <= 'z' {
        c as int - 71
    } else if '0' <= c && c <= '9' {
        c as int + 4
    } else if c == '+' {
        62
    } else if c == '/' {
        63
    } else {
        -1
    }
}

/// The four digits for three bytes.
pub open spec fn quad(a: u8, b: u8, c: u8) -> Seq<char> {
    seq![
        digit64(a as int / 4),
        digit64((a as int % 4) * 16 + b as int / 16),
        digit64((b as int % 16) * 4 + c as int / 64),
        digit64(c as int % 64),
    ]
}

/// The encoding of `d`: four digits for every three bytes, the last group
/// padded with `=`.
pub open spec fn encoded(d: Seq<u8>) -> Seq<char>
    decreases d.len(),
{
    if d.len() == 0 {
        Seq::empty()
    } else if d.len() == 1 {
        seq![digit64(d[0] as int / 4), digit64((d[0] as int % 4) * 16), '=', '=']
    } else if d.len() == 2 {
        seq![
            digit64(d[0] as int / 4),
            digit64((d[0] as int % 4) * 16 + d[1] as int / 16),
            digit64((d[1] as int % 16) * 4),
            '=',
        ]
    } else {
        quad(d[0], d[1], d[2]) + encoded(d.skip(3))
    }
}

fn digit_char(v: u8) -> (c: char)
    requires
        v < 64,
    ensures
        c == digit64(v as int),
{
    if v < 26 {
        (v + 65) as char
    } else if v < 52 {
        (v + 71) as char
    } else if v < 62 {
        (v - 4) as char
    } else if v == 62 {
        '+'
    } else {
        '/'
    }
}

proof fn lemma_encoded_step(d: Seq<u8>, i: int)
    requires
        0 <= i,
        i + 3 <= d.len(),
    ensures
        encoded(d.skip(i)) == quad(d[i], d[i + 1], d[i + 2]) + encoded(d.skip(i + 3)),
{
    assert(d.skip(i).skip(3) =~= d.skip(i + 3));
}

/// The base64 text of `data`.
pub fn encode(data: &[u8]) -> (r: String)
    ensures
        r@ == encoded(data@),
{
    let n = data.len();
    let mut out = String::new();
    let mut i: usize = 0;
    assert(data@.skip(0) =~= data@);
    while n - i >= 3
        invariant
            n == data@.len(),
            i <= n,
            encoded(data@) == out@ + encoded(data@.skip(i as int)),
        decreases n - i,
    {
        proof {
            lemma_encoded_step(data@, i as int);
        }
        let (a, b, c) = (data[i], data[i + 1], data[i + 2]);
        push_char(&mut out, digit_char(a / 4));
        push_char(&mut out, digit_char((a % 4) * 16 + b / 16));
        push_char(&mut out, digit_char((b % 16) * 4 + c / 64));
        push_char(&mut out, digit_char(c % 64));
        assert(out@.subrange(out@.len() - 4, out@.len() as int) =~= quad(a, b, c));
        i = i + 3;
    }
    let ghost rest = data@.skip(i as int);
    if n - i == 1 {
        let a = data[i];
        push_char(&mut out, digit_char(a / 4));
        push_char(&mut out, digit_char((a % 4) * 16));
        push_char(&mut out, '=');
        push_char(&mut out, '=');
    } else if n - i == 2 {
        let (a, b) = (data[i], data[i + 1]);
        push_char(&mut out, digit_char(a / 4));
        push_char(&mut out, digit_char((a % 4) * 16 + b / 16));
        push_char(&mut out, digit_char((b % 16) * 4));
        push_char(&mut out, '=');
    }
    assert(out@ =~= encoded(data@));
    out
}

/// The bytes of one group of four characters; `last` tells whether it ends
/// the text, the only place padding may stand. Bits that padding drops must
/// be zero.
pub open spec fn group(c0: char, c1: char, c2: char, c3: char, last: bool) -> Option<Seq<u8>> {
    let (v0, v1, v2, v3) = (digit_value(c0), digit_value(c1), digit_value(c2), digit_value(c3));
    if v0 < 0 || v1 < 0 {
        None
    } else if c2 == '=' && c3 == '=' {
        if last && v1 % 16 == 0 {
            Some(seq![(v0 * 4 + v1 / 16) as u8])
        } else {
            None
        }
    } else if v2 < 0 {
        None
    } else if c3 == '=' {
        if last && v2 % 4 == 0 {
            Some(seq![(v0 * 4 + v1 / 16) as u8, ((v1 % 16) * 16 + v2 / 4) as u8])
        } else {
            None
        }
    } else if v3 < 0 {
        None
    } else {
        Some(
            seq![
                (v0 * 4 + v1 / 16) as u8,
                ((v1 % 16) * 16 + v2 / 4) as u8,
                ((v2 % 4) * 64 + v3) as u8,
            ],
        )
    }
}

/// The bytes that the base64 text `s` stands for; `None` where `s` is not
/// canonical base64.
pub open spec fn decoded(s: Seq<char>) -> Option<Seq<u8>>
    decreases s.len(),
{
    if s.len() == 0 {
        Some(Seq::empty())
    } else if s.len() < 4 {
        None
    } else {
        match (group(s[0], s[1], s[2], s[3], s.len() == 4), decoded(s.skip(4))) {
            (Some(a), Some(b)) => Some(a + b),
            _ => None,
        }
    }
}

pub open spec fn prepend(a: Seq<u8>, rest: Option<Seq<u8>>) -> Option<Seq<u8>> {
    match rest {
        Some(b) => Some(a + b),
        None => None,
    }
}

proof fn lemma_digit_round_trip(v: int)
    requires
        0 <= v < 64,
    ensures
        digit_value(digit64(v)) == v,
        digit64(v) != '=',
{
}

proof fn lemma_quad_round_trip(a: u8, b: u8, c: u8, last: bool)
    ensures
        ({
            let q = quad(a, b, c);
            group(q[0], q[1], q[2], q[3], last) == Some(seq![a, b, c])
        }),
{
    let (v0, v1, v2, v3) = (
        a as int / 4,
        (a as int % 4) * 16 + b as int / 16,
        (b as int % 16) * 4 + c as int / 64,
        c as int % 64,
    );
    lemma_digit_round_trip(v0);
    lemma_digit_round_trip(v1);
    lemma_digit_round_trip(v2);
    lemma_digit_round_trip(v3);
    assert(v0 * 4 + v1 / 16 == a as int) by (nonlinear_arith)
        requires v0 == a as int / 4, v1 == (a as int % 4) * 16 + b as int / 16, 0 <= b < 256, 0 <= a < 256;
    assert((v1 % 16) * 16 + v2 / 4 == b as int) by (nonlinear_arith)
        requires v1 == (a as int % 4) * 16 + b as int / 16, v2 == (b as int % 16) * 4 + c as int / 64, 0 <= b < 256, 0 <= a < 256, 0 <= c < 256;
    assert((v2 % 4) * 64 + v3 == c as int) by (nonlinear_arith)
        requires v2 == (b as int % 16) * 4 + c as int / 64, v3 == c as int % 64, 0 <= b < 256, 0 <= c < 256;
    assert(seq![(v0 * 4 + v1 / 16) as u8, ((v1 % 16) * 16 + v2 / 4) as u8, ((v2 % 4) * 64 + v3) as u8]
        =~= seq![a, b, c]);
}

proof fn lemma_one_byte_round_trip(d: Seq<u8>)
    requires
        d.len() == 1,
    ensures
        decoded(encoded(d)) == Some(d),
{
    let e = encoded(d);
    let (v0, v1) = (d[0] as int / 4, (d[0] as int % 4) * 16);
    lemma_digit_round_trip(v0);
    lemma_digit_round_trip(v1);
    assert(v0 * 4 + v1 / 16 == d[0] as int) by (nonlinear_arith)
        requires
            v0 == d[0] as int / 4,
            v1 == (d[0] as int % 4) * 16,
            0 <= d[0] < 256,
    ;
    assert(v1 % 16 == 0) by (nonlinear_arith)
        requires
            v1 == (d[0] as int % 4) * 16,
    ;
    assert(e == seq![digit64(v0), digit64(v1), '=', '=']);
    assert(e.skip(4) =~= Seq::<char>::empty());
    assert(decoded(e.skip(4)) == Some(Seq::<u8>::empty()));
    assert(group(e[0], e[1], e[2], e[3], true) == Some(seq![(v0 * 4 + v1 / 16) as u8]));
    assert(seq![(v0 * 4 + v1 / 16) as u8] + Seq::<u8>::empty() =~= d);
}

proof fn lemma_two_byte_round_trip(d: Seq<u8>)
    requires
        d.len() == 2,
    ensures
        decoded(encoded(d)) == Some(d),
{
    let e = encoded(d);
    let (a, b) = (d[0] as int, d[1] as int);
    let (v0, v1, v2) = (a / 4, (a % 4) * 16 + b / 16, (b % 16) * 4);
    lemma_digit_round_trip(v0);
    lemma_digit_round_trip(v1);
    lemma_digit_round_trip(v2);
    assert(v0 * 4 + v1 / 16 == a) by (nonlinear_arith)
        requires
            v0 == a / 4,
            v1 == (a % 4) * 16 + b / 16,
            0 <= a < 256,
            0 <= b < 256,
    ;
    assert((v1 % 16) * 16 + v2 / 4 == b) by (nonlinear_arith)
        requires
            v1 == (a % 4) * 16 + b / 16,
            v2 == (b % 16) * 4,
            0 <= a < 256,
            0 <= b < 256,
    ;
    assert(v2 % 4 == 0) by (nonlinear_arith)
        requires
            v2 == (b % 16) * 4,
    ;
    assert(e == seq![digit64(v0), digit64(v1), digit64(v2), '=']);
    assert(e.skip(4) =~= Seq::<char>::empty());
    assert(decoded(e.skip(4)) == Some(Seq::<u8>::empty()));
    assert(group(e[0], e[1], e[2], e[3], true) == Some(
        seq![(v0 * 4 + v1 / 16) as u8, ((v1 % 16) * 16 + v2 / 4) as u8],
    ));
    assert(seq![(v0 * 4 + v1 / 16) as u8, ((v1 % 16) * 16 + v2 / 4) as u8] + Seq::<u8>::empty()
        =~= d);
}

/// Decoding the encoding of any bytes gives those bytes back.
pub proof fn lemma_round_trip(d: Seq<u8>)
    ensures
        decoded(encoded(d)) == Some(d),
    decreases d.len(),
{
    if d.len() == 0 {
    } else if d.len() == 1 {
        lemma_one_byte_round_trip(d);
    } else if d.len() == 2 {
        lemma_two_byte_round_trip(d);
    } else {
        let e = encoded(d);
        let rest = d.skip(3);
        lemma_round_trip(rest);
        lemma_quad_round_trip(d[0], d[1], d[2], e.len() == 4);
        let q = quad(d[0], d[1], d[2]);
        assert(e == q + encoded(rest));
        assert(e.skip(4) =~= encoded(rest));
        assert(e[0] == q[0] && e[1] == q[1] && e[2] == q[2] && e[3] == q[3]);
        assert(seq![d[0], d[1], d[2]] + rest =~= d);
    }
}

fn digit_value_of(c: char) -> (r: Option<u8>)
    ensures
        match r {
            Some(v) => v as int == digit_value(c) && v < 64,
            None => digit_value(c) < 0,
        },
{
    if 'A' <= c && c <= 'Z' {
        Some((c as u32 - 65) as u8)
    } else if 'a' <= c && c <= 'z' {
        Some((c as u32 - 71) as u8)
    } else if '0' <= c && c <= '9' {
        Some((c as u32 + 4) as u8)
    } else if c == '+' {
        Some(62)
    } else if c == '/' {
        Some(63)
    } else {
        None
    }
}

proof fn lemma_decoded_step(s: Seq<char>, i: int)
    requires
        0 <= i,
        i + 4 <= s.len(),
    ensures
        decoded(s.skip(i)) == match (
            group(s[i], s[i + 1], s[i + 2], s[i + 3], i + 4 == s.len()),
            decoded(s.skip(i + 4)),
        ) {
            (Some(a), Some(b)) => Some(a + b),
            _ => None,
        },
{
    assert(s.skip(i).skip(4) =~= s.skip(i + 4));
}

/// The bytes that the base64 text `text` stands for, or `None` where it is
/// not canonical base64.
pub fn decode(text: &str) -> (r: Option<Vec<u8>>)
    ensures
        match r {
            Some(v) => decoded(text@) == Some(v@),
            None => decoded(text@) is None,
        },
{
    let cs = crate::text::chars_of(text);
    let n = cs.len();
    let mut out: Vec<u8> = Vec::new();
    let mut i: usize = 0;
    assert(cs@.skip(0) =~= cs@);
    while i < n
        invariant
            cs@ == text@,
            n == cs@.len(),
            i <= n,
            decoded(cs@) == prepend(out@, decoded(cs@.skip(i as int))),
        decreases n - i,
    {
        if n - i < 4 {
            assert(decoded(cs@.skip(i as int)) is None);
            return None;
        }
        proof {
            lemma_decoded_step(cs@, i as int);
        }
        let (c0, c1, c2, c3) = (cs[i], cs[i + 1], cs[i + 2], cs[i + 3]);
        let last = i + 4 == n;
        let (v0, v1) = match (digit_value_of(c0), digit_value_of(c1)) {
            (Some(v0), Some(v1)) => (v0, v1),
            _ => return None,
        };
        let ghost before = out@;
        if c2 == '=' && c3 == '=' {
            if !last || v1 % 16 != 0 {
                return None;
            }
            out.push(v0 * 4 + v1 / 16);
        } else {
            let v2 = match digit_value_of(c2) {
                Some(v) => v,
                None => return None,
            };
            if c3 == '=' {
                if !last || v2 % 4 != 0 {
                    return None;
                }
                out.push(v0 * 4 + v1 / 16);
                out.push((v1 % 16) * 16 + v2 / 4);
            } else {
                let v3 = match digit_value_of(c3) {
                    Some(v) => v,
                    None => return None,
                };
                out.push(v0 * 4 + v1 / 16);
                out.push((v1 % 16) * 16 + v2 / 4);
                out.push((v2 % 4) * 64 + v3);
            }
        }
        proof {
            let g = group(c0, c1, c2, c3, last);
            assert(g is Some);
            assert(out@ =~= before + g->0);
            match decoded(cs@.skip(i + 4)) {
                Some(b) => assert(before + (g->0 + b) =~= out@ + b),
                None => {},
            }
        }
        i = i + 4;
    }
    assert(cs@.skip(n as int) =~= Seq::<char>::empty());
    assert(out@ + Seq::<u8>::empty() =~= out@);
    Some(out)
}

} // verus!
