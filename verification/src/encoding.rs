//! Base64 text of UTF-8 strings (the standard alphabet, with padding), as
//! used to carry project data in a URL.

use vstd::prelude::*;
use vstd::utf8::{decode_utf8, encode_utf8, valid_utf8};

verus! {

/// The base64 digit of a value below 64 (standard alphabet).
pub open spec fn b64_digit(v: int) -> char {
    if v < 26 {
        (65 + v) as char
    } else if v < 52 {
        (97 + v - 26) as char
    } else if v < 62 {
        (48 + v - 52) as char
    } else if v == 62 {
        '+'
    } else {
        '/'
    }
}

/// The base64 text of `b`: four digits for each three bytes, the last group
/// padded with `=`.
pub open spec fn b64_encode(b: Seq<u8>) -> Seq<char>
    decreases b.len(),
{
    if b.len() == 0 {
        Seq::empty()
    } else if b.len() == 1 {
        let x = b[0] as int;
        seq![b64_digit(x / 4), b64_digit((x % 4) * 16), '=', '=']
    } else if b.len() == 2 {
        let x = b[0] as int;
        let y = b[1] as int;
        seq![b64_digit(x / 4), b64_digit((x % 4) * 16 + y / 16), b64_digit((y % 16) * 4), '=']
    } else {
        let x = b[0] as int;
        let y = b[1] as int;
        let z = b[2] as int;
        seq![
            b64_digit(x / 4),
            b64_digit((x % 4) * 16 + y / 16),
            b64_digit((y % 16) * 4 + z / 64),
            b64_digit(z % 64),
        ] + b64_encode(b.skip(3))
    }
}

proof fn lemma_b64_digit(v: int)
    requires
        0 <= v < 64,
    ensures
        b64_digit(v) != '=',
        v < 26 ==> b64_digit(v) as int == 65 + v,
        26 <= v < 52 ==> b64_digit(v) as int == 97 + v - 26,
        52 <= v < 62 ==> b64_digit(v) as int == 48 + v - 52,
        v == 62 ==> b64_digit(v) as int == 43,
        v == 63 ==> b64_digit(v) as int == 47,
{
}

proof fn lemma_b64_digit_injective(u: int, v: int)
    requires
        0 <= u < 64,
        0 <= v < 64,
        b64_digit(u) == b64_digit(v),
    ensures
        u == v,
{
    lemma_b64_digit(u);
    lemma_b64_digit(v);
}

/// Distinct byte sequences have distinct base64 texts.
proof fn lemma_b64_encode_injective(b: Seq<u8>, c: Seq<u8>)
    requires
        b64_encode(b) == b64_encode(c),
    ensures
        b == c,
    decreases b.len(),
{
    let e = b64_encode(b);
    if b.len() == 0 || c.len() == 0 {
        if b.len() != 0 || c.len() != 0 {
            assert(b64_encode(b).len() > 0 || b64_encode(c).len() > 0);
        }
        assert(b =~= c);
    } else {
        let x = b[0] as int;
        let x2 = c[0] as int;
        lemma_b64_digit(x / 4);
        lemma_b64_digit(x2 / 4);
        assert(e[0] == b64_digit(x / 4) && e[0] == b64_digit(x2 / 4));
        lemma_b64_digit_injective(x / 4, x2 / 4);
        if b.len() >= 3 && c.len() >= 3 {
            let y = b[1] as int;
            let z = b[2] as int;
            let y2 = c[1] as int;
            let z2 = c[2] as int;
            let e2 = b64_encode(c);
            assert(e[1] == b64_digit((x % 4) * 16 + y / 16));
            assert(e2[1] == b64_digit((x2 % 4) * 16 + y2 / 16));
            assert(e[2] == b64_digit((y % 16) * 4 + z / 64));
            assert(e2[2] == b64_digit((y2 % 16) * 4 + z2 / 64));
            assert(e[3] == b64_digit(z % 64));
            assert(e2[3] == b64_digit(z2 % 64));
            lemma_b64_digit_injective((x % 4) * 16 + y / 16, (x2 % 4) * 16 + y2 / 16);
            lemma_b64_digit_injective((y % 16) * 4 + z / 64, (y2 % 16) * 4 + z2 / 64);
            lemma_b64_digit_injective(z % 64, z2 % 64);
            assert(x == x2 && y == y2 && z == z2);
            let r1 = b64_encode(b.skip(3));
            let r2 = b64_encode(c.skip(3));
            assert(e.skip(4) =~= r1);
            assert(b64_encode(c).skip(4) =~= r2);
            lemma_b64_encode_injective(b.skip(3), c.skip(3));
            assert(b =~= seq![b[0], b[1], b[2]] + b.skip(3));
            assert(c =~= seq![c[0], c[1], c[2]] + c.skip(3));
        } else {
            // Both texts have exactly one group, whose padding tells the
            // lengths apart.
            if b.len() >= 3 {
                lemma_b64_digit((b[2] as int) % 64);
                lemma_b64_digit(((b[1] as int) % 16) * 4 + (b[2] as int) / 64);
                assert(e[3] != '=');
            }
            if c.len() >= 3 {
                lemma_b64_digit((c[2] as int) % 64);
                lemma_b64_digit(((c[1] as int) % 16) * 4 + (c[2] as int) / 64);
                assert(b64_encode(c)[3] != '=');
            }
            if b.len() == 2 {
                lemma_b64_digit(((b[1] as int) % 16) * 4);
            }
            if c.len() == 2 {
                lemma_b64_digit(((c[1] as int) % 16) * 4);
            }
            assert(b.len() == c.len());
            let e2 = b64_encode(c);
            if b.len() == 1 {
                assert(e[1] == b64_digit((x % 4) * 16));
                assert(e2[1] == b64_digit((x2 % 4) * 16));
                lemma_b64_digit_injective((x % 4) * 16, (x2 % 4) * 16);
                assert(x == x2);
            } else {
                let y = b[1] as int;
                let y2 = c[1] as int;
                assert(e[1] == b64_digit((x % 4) * 16 + y / 16));
                assert(e2[1] == b64_digit((x2 % 4) * 16 + y2 / 16));
                assert(e[2] == b64_digit((y % 16) * 4));
                assert(e2[2] == b64_digit((y2 % 16) * 4));
                lemma_b64_digit_injective((x % 4) * 16 + y / 16, (x2 % 4) * 16 + y2 / 16);
                lemma_b64_digit_injective((y % 16) * 4, (y2 % 16) * 4);
                assert(x == x2 && y == y2);
            }
            assert(b =~= c);
        }
    }
}

/// What the standard base64 engine decodes from a text: the bytes whose
/// padded base64 text it is, or nothing when it is no such text.
pub open spec fn b64_decode(text: Seq<char>) -> Option<Seq<u8>> {
    if exists|b: Seq<u8>| #[trigger] b64_encode(b) == text {
        Some(choose|b: Seq<u8>| #[trigger] b64_encode(b) == text)
    } else {
        None
    }
}

/// Decoding the base64 text of `b` gives `b`.
pub proof fn lemma_b64_round_trip(b: Seq<u8>)
    ensures
        b64_decode(b64_encode(b)) == Some(b),
{
    let t = b64_encode(b);
    assert(exists|c: Seq<u8>| #[trigger] b64_encode(c) == t);
    let c = choose|c: Seq<u8>| #[trigger] b64_encode(c) == t;
    lemma_b64_encode_injective(b, c);
}

/// `base64::engine::general_purpose::STANDARD.encode`: the padded base64
/// text of the bytes.
#[verifier::external_body]
fn b64_encode_bytes(bytes: &[u8]) -> (r: String)
    requires
        4 * ((bytes@.len() + 2) / 3) <= usize::MAX,
    ensures
        r@ == b64_encode(bytes@),
{
    base64::Engine::encode(&base64::engine::general_purpose::STANDARD, bytes)
}

/// `base64::engine::general_purpose::STANDARD.decode`: with canonical
/// padding required and trailing bits refused, it accepts exactly the
/// padded base64 texts of byte sequences and gives those bytes back; an
/// error becomes `None`.
#[verifier::external_body]
fn b64_decode_text(text: &str) -> (r: Option<Vec<u8>>)
    ensures
        match r {
            Some(b) => b64_encode(b@) == text@,
            None => forall|b: Seq<u8>| #[trigger] b64_encode(b) != text@,
        },
{
    base64::Engine::decode(&base64::engine::general_purpose::STANDARD, text).ok()
}

/// `String::from_utf8`: the text of valid UTF-8 bytes, else nothing.
#[verifier::external_body]
fn string_from_utf8(bytes: Vec<u8>) -> (r: Option<String>)
    ensures
        match r {
            Some(s) => valid_utf8(bytes@) && s@ == decode_utf8(bytes@),
            None => !valid_utf8(bytes@),
        },
{
    String::from_utf8(bytes).ok()
}

/// The text a base64 text decodes to, when its bytes are UTF-8.
pub open spec fn decoded_text(text: Seq<char>) -> Option<Seq<char>> {
    match b64_decode(text) {
        Some(b) => if valid_utf8(b) {
            Some(decode_utf8(b))
        } else {
            None
        },
        None => None,
    }
}

/// The base64 text of the UTF-8 bytes of `data` (always present); decoding
/// it gives `data` back.
pub fn encode_base64(data: &str) -> (r: Option<String>)
    requires
        4 * ((encode_utf8(data@).len() + 2) / 3) <= usize::MAX,
    ensures
        match r {
            Some(s) => s@ == b64_encode(encode_utf8(data@)) && decoded_text(s@) == Some(data@),
            None => false,
        },
{
    let bytes = data.as_bytes();
    let s = b64_encode_bytes(bytes);
    proof {
        lemma_b64_round_trip(encode_utf8(data@));
        vstd::utf8::encode_utf8_valid_utf8(data@);
        vstd::utf8::encode_utf8_decode_utf8(data@);
    }
    Some(s)
}

/// The text whose UTF-8 bytes `data` encodes in base64; `None` when `data`
/// is not valid base64 or its bytes are not UTF-8.
pub fn decode_base64(data: &str) -> (r: Option<String>)
    ensures
        crate::regex_support::opt_string(r) == decoded_text(data@),
{
    match b64_decode_text(data) {
        Some(bytes) => {
            proof {
                lemma_b64_round_trip(bytes@);
            }
            string_from_utf8(bytes)
        },
        None => None,
    }
}

} // verus!
