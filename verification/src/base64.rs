//! Standard base64 (RFC 4648, with `=` padding), used for blobs and Arrow IPC
//! messages.

use vstd::prelude::*;
use crate::text::push_char;

verus! {

/// The alphabet: `A`-`Z`, `a`-`z`, `0`-`9`, `+`, `/`.
pub open spec fn b64_char(v: int) -> char {
    if v < 26 {
        (65 + v) as char
    } else if v < 52 {
        (97 + v - 26) as char
    } else if v < 62 {
        (48 + v - 52) as char
    } else if v == 62 {
        '+'
    } else {
        '/'
    }
}

/// The four 6-bit values of the three bytes `b0 b1 b2`.
pub open spec fn sextets(b0: u8, b1: u8, b2: u8) -> (int, int, int, int) {
    (b0 as int / 4, (b0 % 4) * 16 + b1 / 16, (b1 % 16) * 4 + b2 / 64, b2 as int % 64)
}

/// The four characters for a group of `n` (1 to 3) bytes, missing ones taken
/// as zero, padded with `=`.
pub open spec fn encode_group(b0: u8, b1: u8, b2: u8, n: int) -> Seq<char> {
    let s = sextets(b0, b1, b2);
    seq![
        b64_char(s.0),
        b64_char(s.1),
        if n > 1 { b64_char(s.2) } else { '=' },
        if n > 2 { b64_char(s.3) } else { '=' },
    ]
}

/// The base64 encoding of `b`.
pub open spec fn base64_text(b: Seq<u8>) -> Seq<char>
    decreases b.len(),
{
    if b.len() == 0 {
        seq![]
    } else if b.len() <= 3 {
        encode_group(
            b[0],
            if b.len() > 1 { b[1] } else { 0 },
            if b.len() > 2 { b[2] } else { 0 },
            b.len() as int,
        )
    } else {
        encode_group(b[0], b[1], b[2], 3) + base64_text(b.skip(3))
    }
}

fn alphabet(v: u8) -> (c: char)
    requires
        v < 64,
    ensures
        c == b64_char(v as int),
{
    if v < 26 {
        (65u8 + v) as char
    } else if v < 52 {
        (97u8 + v - 26) as char
    } else if v < 62 {
        (48u8 + v - 52) as char
    } else if v == 62 {
        '+'
    } else {
        '/'
    }
}

/// Encodes `bytes` in standard base64 with padding.
pub fn base64_string(bytes: &[u8]) -> (r: String)
    ensures
        r@ == base64_text(bytes@),
{
    let mut out = String::new();
    let mut i: usize = 0;
    assert(bytes@.skip(0) == bytes@);
    while i < bytes.len()
        invariant
            i <= bytes.len(),
            base64_text(bytes@) == out@ + base64_text(bytes@.skip(i as int)),
        decreases bytes.len() - i,
    {
        let ghost rest = bytes@.skip(i as int);
        let n = bytes.len() - i;
        let b0 = bytes[i];
        let b1 = if n > 1 { bytes[i + 1] } else { 0 };
        let b2 = if n > 2 { bytes[i + 2] } else { 0 };
        let ghost before = out@;
        push_char(&mut out, alphabet(b0 / 4));
        push_char(&mut out, alphabet((b0 % 4) * 16 + b1 / 16));
        push_char(&mut out, if n > 1 { alphabet((b1 % 16) * 4 + b2 / 64) } else { '=' });
        push_char(&mut out, if n > 2 { alphabet(b2 % 64) } else { '=' });
        let g = if n < 3 { n } else { 3 };
        assert(out@ =~= before + encode_group(b0, b1, b2, g as int));
        if n <= 3 {
            assert(bytes@.skip(bytes.len() as int) =~= Seq::<u8>::empty());
            i = bytes.len();
        } else {
            assert(rest.skip(3) =~= bytes@.skip(i + 3));
            i = i + 3;
        }
    }
    out
}

/// The 6-bit value of an alphabet character.
pub open spec fn sextet_of(c: char) -> int {
    if 'A' <= c <= 'Z' {
        c as int - 65
    } else if 'a' <= c <= 'z' {
        c as int - 97 + 26
    } else if '0' <= c <= '9' {
        c as int - 48 + 52
    } else if c == '+' {
        62
    } else {
        63
    }
}

/// The bytes of one group of four characters; `=` marks the missing ones.
pub open spec fn decode_group(c0: char, c1: char, c2: char, c3: char) -> Seq<u8> {
    let v0 = sextet_of(c0);
    let v1 = sextet_of(c1);
    let v2 = sextet_of(c2);
    let v3 = sextet_of(c3);
    let x0 = (v0 * 4 + v1 / 16) as u8;
    let x1 = ((v1 % 16) * 16 + v2 / 4) as u8;
    let x2 = ((v2 % 4) * 64 + v3) as u8;
    if c2 == '=' {
        seq![x0]
    } else if c3 == '=' {
        seq![x0, x1]
    } else {
        seq![x0, x1, x2]
    }
}

/// Standard base64 decoding, group by group.
pub open spec fn base64_decode(s: Seq<char>) -> Seq<u8>
    decreases s.len(),
{
    if s.len() < 4 {
        seq![]
    } else {
        decode_group(s[0], s[1], s[2], s[3]) + base64_decode(s.skip(4))
    }
}

proof fn lemma_b64_char(v: int)
    requires
        0 <= v < 64,
    ensures
        sextet_of(b64_char(v)) == v,
        b64_char(v) != '=',
{
}

proof fn lemma_group_round_trip(b0: u8, b1: u8, b2: u8, n: int)
    requires
        1 <= n <= 3,
        n < 2 ==> b1 == 0,
        n < 3 ==> b2 == 0,
    ensures
        decode_group(
            encode_group(b0, b1, b2, n)[0],
            encode_group(b0, b1, b2, n)[1],
            encode_group(b0, b1, b2, n)[2],
            encode_group(b0, b1, b2, n)[3],
        ) == if n == 1 {
            seq![b0]
        } else if n == 2 {
            seq![b0, b1]
        } else {
            seq![b0, b1, b2]
        },
{
    let s = sextets(b0, b1, b2);
    lemma_b64_char(s.0);
    lemma_b64_char(s.1);
    lemma_b64_char(s.2);
    lemma_b64_char(s.3);
    assert(s.0 * 4 + s.1 / 16 == b0);
    assert((s.1 % 16) * 16 + s.2 / 4 == b1);
    assert((s.2 % 4) * 64 + s.3 == b2);
    let g = encode_group(b0, b1, b2, n);
    if n == 1 {
        assert(decode_group(g[0], g[1], g[2], g[3]) =~= seq![b0]);
    } else if n == 2 {
        assert(decode_group(g[0], g[1], g[2], g[3]) =~= seq![b0, b1]);
    } else {
        assert(decode_group(g[0], g[1], g[2], g[3]) =~= seq![b0, b1, b2]);
    }
}

/// Base64 loses nothing: decoding the encoding of any bytes gives them back.
pub proof fn lemma_base64_round_trip(b: Seq<u8>)
    ensures
        base64_decode(base64_text(b)) == b,
    decreases b.len(),
{
    if b.len() == 0 {
    } else if b.len() <= 3 {
        let b1: u8 = if b.len() > 1 { b[1] } else { 0 };
        let b2: u8 = if b.len() > 2 { b[2] } else { 0 };
        let g = base64_text(b);
        lemma_group_round_trip(b[0], b1, b2, b.len() as int);
        assert(g.skip(4) =~= Seq::<char>::empty());
        assert(base64_decode(g.skip(4)) =~= Seq::<u8>::empty());
        if b.len() == 1 {
            assert(b =~= seq![b[0]]);
        } else if b.len() == 2 {
            assert(b =~= seq![b[0], b[1]]);
        } else {
            assert(b =~= seq![b[0], b[1], b[2]]);
        }
        assert(base64_decode(g) =~= b);
    } else {
        let g = encode_group(b[0], b[1], b[2], 3);
        let rest = base64_text(b.skip(3));
        lemma_base64_round_trip(b.skip(3));
        lemma_group_round_trip(b[0], b[1], b[2], 3);
        let t = g + rest;
        assert(t.skip(4) =~= rest);
        assert(t[0] == g[0] && t[1] == g[1] && t[2] == g[2] && t[3] == g[3]);
        assert(b =~= seq![b[0], b[1], b[2]] + b.skip(3));
    }
}

/// Every three bytes (and a final one or two) become four characters.
pub proof fn lemma_base64_length(b: Seq<u8>)
    ensures
        base64_text(b).len() == 4 * ((b.len() + 2) / 3),
    decreases b.len(),
{
    if b.len() > 3 {
        lemma_base64_length(b.skip(3));
    }
}

/// A character of the base64 alphabet: `A`-`Z`, `a`-`z`, `0`-`9`, `+`, `/`.
pub open spec fn is_alphabet_char(c: char) -> bool {
    ||| 'A' <= c <= 'Z'
    ||| 'a' <= c <= 'z'
    ||| '0' <= c <= '9'
    ||| c == '+'
    ||| c == '/'
}

/// How many `=` close the encoding of `n` bytes.
pub open spec fn padding(n: nat) -> nat {
    ((3 - n % 3) % 3) as nat
}

proof fn lemma_b64_char_in_alphabet(v: int)
    requires
        0 <= v < 64,
    ensures
        is_alphabet_char(b64_char(v)),
{
}

/// The encoding is alphabet characters followed by exactly the padding `=`s
/// that the length calls for.
pub proof fn lemma_base64_shape(b: Seq<u8>)
    ensures
        base64_text(b).len() >= padding(b.len()),
        forall|i: int|
            0 <= i < base64_text(b).len() - padding(b.len()) ==> is_alphabet_char(
                #[trigger] base64_text(b)[i],
            ),
        forall|i: int|
            base64_text(b).len() - padding(b.len()) <= i < base64_text(b).len() ==> #[trigger] base64_text(
                b,
            )[i] == '=',
    decreases b.len(),
{
    let t = base64_text(b);
    if b.len() == 0 {
    } else {
        let b1: u8 = if b.len() > 1 { b[1] } else { 0 };
        let b2: u8 = if b.len() > 2 { b[2] } else { 0 };
        let sx = sextets(b[0], b1, b2);
        lemma_b64_char_in_alphabet(sx.0);
        lemma_b64_char_in_alphabet(sx.1);
        lemma_b64_char_in_alphabet(sx.2);
        lemma_b64_char_in_alphabet(sx.3);
        if b.len() > 3 {
            lemma_base64_shape(b.skip(3));
            let g = encode_group(b[0], b[1], b[2], 3);
            let rest = base64_text(b.skip(3));
            assert(t == g + rest);
            assert(padding(b.len()) == padding(b.skip(3).len()));
            assert forall|i: int| 0 <= i < t.len() - padding(b.len()) implies is_alphabet_char(
                #[trigger] t[i],
            ) by {
                if i >= 4 {
                    assert(t[i] == rest[i - 4]);
                }
            }
            assert forall|i: int| t.len() - padding(b.len()) <= i < t.len() implies #[trigger] t[i]
                == '=' by {
                assert(t[i] == rest[i - 4]);
            }
        }
    }
}

} // verus!
