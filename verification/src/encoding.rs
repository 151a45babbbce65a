//! Base64 in the standard alphabet (RFC 4648), as the `base64` crate's
//! `STANDARD` engine writes and reads it.

use vstd::prelude::*;
use base64::Engine;

verus! {

/// The character of a six-bit value in the standard alphabet
/// `A-Z a-z 0-9 + /`.
pub open spec fn b64_char(v: int) -> char {
    if v < 26 {
        (65 + v) as char
    } else if v < 52 {
        (71 + v) as char
    } else if v < 62 {
        (v - 4) as char
    } else if v == 62 {
        '+'
    } else {
        '/'
    }
}

/// The base64 text of a byte string: each group of three bytes becomes four
/// characters; a final group of one or two bytes becomes two or three
/// characters, followed by `=` to a multiple of four when `pad` holds.
pub open spec fn base64_text(d: Seq<u8>, pad: bool) -> Seq<char>
    decreases d.len(),
{
    if d.len() == 0 {
        seq![]
    } else if d.len() == 1 {
        let a = d[0] as int;
        seq![b64_char(a / 4), b64_char((a % 4) * 16)] + if pad {
            seq!['=', '=']
        } else {
            seq![]
        }
    } else if d.len() == 2 {
        let a = d[0] as int;
        let b = d[1] as int;
        seq![b64_char(a / 4), b64_char((a % 4) * 16 + b / 16), b64_char((b % 16) * 4)] + if pad {
            seq!['=']
        } else {
            seq![]
        }
    } else {
        let a = d[0] as int;
        let b = d[1] as int;
        let c = d[2] as int;
        seq![b64_char(a / 4), b64_char((a % 4) * 16 + b / 16), b64_char((b % 16) * 4 + c / 64), b64_char(c % 64)]
            + base64_text(d.subrange(3, d.len() as int), pad)
    }
}

/// The length of the base64 text of `n` bytes.
pub proof fn lemma_base64_len(d: Seq<u8>, pad: bool)
    ensures
        base64_text(d, pad).len() == 4 * (d.len() / 3) + (if d.len() % 3 == 0 {
            0int
        } else if pad {
            4int
        } else {
            d.len() as int % 3 + 1
        }),
    decreases d.len(),
{
    if d.len() >= 3 {
        lemma_base64_len(d.subrange(3, d.len() as int), pad);
    }
}

/// A six-bit value's character is never the padding `=`, and different
/// values have different characters.
proof fn lemma_b64_char(v: int, w: int)
    requires
        0 <= v < 64,
        0 <= w < 64,
    ensures
        b64_char(v) != '=',
        b64_char(v) == b64_char(w) ==> v == w,
{
    let cv = b64_char(v) as u32;
    let cw = b64_char(w) as u32;
    assert(cv != 61);
    assert(b64_char(v) == b64_char(w) ==> cv == cw);
}

/// The three bytes of a group are determined by its four characters.
proof fn lemma_group_determines_bytes(a1: int, b1: int, c1: int, a2: int, b2: int, c2: int)
    requires
        0 <= a1 < 256,
        0 <= b1 < 256,
        0 <= c1 < 256,
        0 <= a2 < 256,
        0 <= b2 < 256,
        0 <= c2 < 256,
        a1 / 4 == a2 / 4,
        (a1 % 4) * 16 + b1 / 16 == (a2 % 4) * 16 + b2 / 16,
        (b1 % 16) * 4 + c1 / 64 == (b2 % 16) * 4 + c2 / 64,
        c1 % 64 == c2 % 64,
    ensures
        a1 == a2,
        b1 == b2,
        c1 == c2,
{
}

/// Padded base64 text determines the bytes it encodes: decoding the padded
/// encoding of some bytes gives those bytes back.
pub proof fn law_padded_base64_decodes_uniquely(d1: Seq<u8>, d2: Seq<u8>)
    requires
        base64_text(d1, true) == base64_text(d2, true),
    ensures
        d1 == d2,
    decreases d1.len(),
{
    let e = base64_text(d1, true);
    lemma_base64_len(d1, true);
    lemma_base64_len(d2, true);
    if d1.len() == 0 || d2.len() == 0 {
        assert(d1.len() == 0 && d2.len() == 0);
        assert(d1 =~= d2);
    } else {
        let a1 = d1[0] as int;
        let a2 = d2[0] as int;
        let b1 = if d1.len() >= 2 { d1[1] as int } else { 0 };
        let b2 = if d2.len() >= 2 { d2[1] as int } else { 0 };
        let c1 = if d1.len() >= 3 { d1[2] as int } else { 0 };
        let c2 = if d2.len() >= 3 { d2[2] as int } else { 0 };
        lemma_b64_char(a1 / 4, a2 / 4);
        lemma_b64_char((a1 % 4) * 16 + b1 / 16, (a2 % 4) * 16 + b2 / 16);
        lemma_b64_char((b1 % 16) * 4 + c1 / 64, (b2 % 16) * 4 + c2 / 64);
        lemma_b64_char(c1 % 64, c2 % 64);
        lemma_b64_char((a1 % 4) * 16, (a2 % 4) * 16);
        lemma_b64_char((b1 % 16) * 4, (b2 % 16) * 4);
        assert(e[0] == b64_char(a1 / 4) && e[0] == b64_char(a2 / 4));
        if d1.len() == 1 {
            assert(e[2] == '=');
        } else {
            assert(e[2] != '=');
        }
        if d2.len() == 1 {
            assert(e[2] == '=');
        } else {
            assert(e[2] != '=');
        }
        if d1.len() <= 2 {
            assert(e[3] == '=');
        } else {
            assert(e[3] != '=');
        }
        if d2.len() <= 2 {
            assert(e[3] == '=');
        } else {
            assert(e[3] != '=');
        }
        assert(e[1] == b64_char((a1 % 4) * 16 + b1 / 16));
        assert(e[1] == b64_char((a2 % 4) * 16 + b2 / 16));
        if d1.len() >= 2 && d2.len() >= 2 {
            assert(e[2] == b64_char((b1 % 16) * 4 + c1 / 64));
            assert(e[2] == b64_char((b2 % 16) * 4 + c2 / 64));
        }
        if d1.len() >= 3 && d2.len() >= 3 {
            assert(e[3] == b64_char(c1 % 64));
            assert(e[3] == b64_char(c2 % 64));
            lemma_group_determines_bytes(a1, b1, c1, a2, b2, c2);
            let r1 = d1.subrange(3, d1.len() as int);
            let r2 = d2.subrange(3, d2.len() as int);
            assert(base64_text(r1, true) =~= e.subrange(4, e.len() as int));
            assert(base64_text(r2, true) =~= e.subrange(4, e.len() as int));
            law_padded_base64_decodes_uniquely(r1, r2);
            assert(d1 =~= seq![d1[0], d1[1], d1[2]] + r1);
            assert(d2 =~= seq![d2[0], d2[1], d2[2]] + r2);
        } else if d1.len() == 2 && d2.len() == 2 {
            lemma_group_determines_bytes(a1, b1, 0, a2, b2, 0);
            assert(d1 =~= d2);
        } else {
            assert(d1.len() == 1 && d2.len() == 1);
            assert(a1 == a2);
            assert(d1 =~= d2);
        }
    }
}

/// `STANDARD.encode`: the padded base64 text of the bytes. The crate panics
/// when the output length overflows `usize`, which the bound rules out.
#[verifier::external_body]
pub(crate) fn encode_standard(data: &[u8]) -> (s: String)
    requires
        data@.len() <= usize::MAX / 2,
    ensures
        s@ == base64_text(data@, true),
{
    base64::engine::general_purpose::STANDARD.encode(data)
}

/// `STANDARD.decode`, whose configuration requires canonical padding and
/// rejects non-zero trailing bits: the text decodes exactly when it is the
/// padded encoding of some bytes, and then to those bytes. On failure the
/// crate's `DecodeError` is turned into its `Display` text, which is not
/// stated here.
#[verifier::external_body]
pub(crate) fn decode_standard(text: &str) -> (r: Result<Vec<u8>, String>)
    ensures
        r matches Ok(d) ==> base64_text(d@, true) == text@,
        (exists|d: Seq<u8>| base64_text(d, true) == text@) ==> r is Ok,
{
    base64::engine::general_purpose::STANDARD.decode(text).map_err(|e| e.to_string())
}

} // verus!
