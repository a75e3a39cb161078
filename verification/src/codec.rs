//! The address codec: a reversible hex encoding of byte strings, used to carry
//! a target URL or anchor inside a proxy endpoint's query string, and its
//! decoder, which also requires the decoded bytes to be UTF-8 text.
use vstd::prelude::*;
use vstd::utf8::valid_utf8;

verus! {

/// Why a token failed to decode: it is not a hex string, or the bytes it
/// denotes are not UTF-8 text.
#[derive(Clone, Copy, Debug, PartialEq, Eq, Structural)]
pub enum DecodeError {
    InvalidHex,
    InvalidUtf8,
}

/// The lowercase hex digit for a value below 16.
pub open spec fn hex_digit(n: u8) -> u8
    recommends
        n < 16,
{
    if n < 10 {
        (48 + n) as u8
    } else {
        (87 + n) as u8
    }
}

/// Numeric value of a hex digit byte, upper or lower case; 255 where it is none.
pub open spec fn hex_val(c: u8) -> u8 {
    if 48 <= c <= 57 {
        (c - 48) as u8
    } else if 97 <= c <= 102 {
        (c - 87) as u8
    } else if 65 <= c <= 70 {
        (c - 55) as u8
    } else {
        255
    }
}

pub open spec fn is_hex_digit(c: u8) -> bool {
    hex_val(c) < 16
}

/// Hex encoding: two lowercase digits per byte, high digit first.
pub open spec fn hex_encode_spec(b: Seq<u8>) -> Seq<u8> {
    Seq::new(
        2 * b.len(),
        |i: int|
            if i % 2 == 0 {
                hex_digit(b[i / 2] / 16)
            } else {
                hex_digit(b[i / 2] % 16)
            },
    )
}

/// Hex decoding: defined exactly on even-length strings of hex digits.
pub open spec fn hex_decode_spec(t: Seq<u8>) -> Option<Seq<u8>> {
    if t.len() % 2 == 0 && (forall|i: int| 0 <= i < t.len() ==> is_hex_digit(#[trigger] t[i])) {
        Some(Seq::new(t.len() / 2, |i: int| (16 * hex_val(t[2 * i]) + hex_val(t[2 * i + 1])) as u8))
    } else {
        None
    }
}

/// What decoding a token yields: the denoted text, or the first reason it is
/// no token.
pub open spec fn decode_url_spec(token: Seq<u8>) -> Result<Seq<u8>, DecodeError> {
    match hex_decode_spec(token) {
        Some(b) => if valid_utf8(b) {
            Ok(b)
        } else {
            Err(DecodeError::InvalidUtf8)
        },
        None => Err(DecodeError::InvalidHex),
    }
}

fn hex_digit_exec(n: u8) -> (r: u8)
    requires
        n < 16,
    ensures
        r == hex_digit(n),
{
    if n < 10 {
        48 + n
    } else {
        87 + n
    }
}

fn hex_val_exec(c: u8) -> (r: u8)
    ensures
        r == hex_val(c),
{
    if 48 <= c && c <= 57 {
        c - 48
    } else if 97 <= c && c <= 102 {
        c - 87
    } else if 65 <= c && c <= 70 {
        c - 55
    } else {
        255
    }
}

/// Encodes text (or any byte string) into a hex token.
pub fn encode(text: &[u8]) -> (r: Vec<u8>)
    ensures
        r@ == hex_encode_spec(text@),
{
    let mut out: Vec<u8> = Vec::new();
    let mut i: usize = 0;
    let n = text.len();
    proof {
        assert(out@ =~= hex_encode_spec(text@).subrange(0, 0));
    }
    while i < n
        invariant
            n == text@.len(),
            0 <= i <= n,
            out@ == hex_encode_spec(text@).subrange(0, 2 * i as int),
        decreases n - i,
    {
        let b = text[i];
        out.push(hex_digit_exec(b / 16));
        out.push(hex_digit_exec(b % 16));
        proof {
            assert(hex_encode_spec(text@)[2 * i as int] == hex_digit(text@[i as int] / 16));
            assert(hex_encode_spec(text@)[2 * i as int + 1] == hex_digit(text@[i as int] % 16));
            assert(out@ =~= hex_encode_spec(text@).subrange(0, 2 * (i + 1)));
        }
        i += 1;
    }
    proof {
        assert(hex_encode_spec(text@).subrange(0, 2 * i as int) =~= hex_encode_spec(text@));
    }
    out
}

/// Decodes a hex token back into the text it denotes.
pub fn decode_url(token: &[u8]) -> (r: Result<Vec<u8>, DecodeError>)
    ensures
        match r {
            Ok(text) => decode_url_spec(token@) == Ok::<Seq<u8>, DecodeError>(text@),
            Err(e) => decode_url_spec(token@) == Err::<Seq<u8>, DecodeError>(e),
        },
{
    let n = token.len();
    if n % 2 != 0 {
        return Err(DecodeError::InvalidHex);
    }
    let mut out: Vec<u8> = Vec::new();
    let mut i: usize = 0;
    while i < n / 2
        invariant
            n == token@.len(),
            n % 2 == 0,
            0 <= i <= n / 2,
            out@.len() == i,
            forall|k: int| 0 <= k < 2 * i ==> is_hex_digit(#[trigger] token@[k]),
            forall|k: int|
                0 <= k < i ==> out@[k] == (16 * hex_val(token@[2 * k]) + hex_val(
                    token@[2 * k + 1],
                )) as u8,
        decreases n / 2 - i,
    {
        let hi = hex_val_exec(token[2 * i]);
        let lo = hex_val_exec(token[2 * i + 1]);
        if hi >= 16 {
            return Err(DecodeError::InvalidHex);
        }
        if lo >= 16 {
            return Err(DecodeError::InvalidHex);
        }
        out.push(16 * hi + lo);
        i += 1;
    }
    proof {
        assert(forall|k: int| 0 <= k < n ==> is_hex_digit(#[trigger] token@[k]));
        let d = hex_decode_spec(token@)->Some_0;
        assert(out@ =~= d);
    }
    if utf8_check(out.as_slice()) {
        Ok(out)
    } else {
        Err(DecodeError::InvalidUtf8)
    }
}

/// Relies on str::from_utf8, which accepts exactly the byte strings that are
/// valid UTF-8 text.
#[verifier::external_body]
fn utf8_check(v: &[u8]) -> (r: bool)
    ensures
        r == valid_utf8(v@),
{
    core::str::from_utf8(v).is_ok()
}

proof fn lemma_hex_digit_val(n: u8)
    requires
        n < 16,
    ensures
        is_hex_digit(hex_digit(n)),
        hex_val(hex_digit(n)) == n,
{
}

/// Round trip of the codec on the hex layer: decoding an encoded byte string
/// gives it back, whatever it held.
pub proof fn lemma_hex_round_trip(b: Seq<u8>)
    ensures
        hex_decode_spec(hex_encode_spec(b)) == Some(b),
{
    let t = hex_encode_spec(b);
    assert(t.len() == 2 * b.len());
    assert forall|i: int| 0 <= i < t.len() implies is_hex_digit(#[trigger] t[i]) by {
        if i % 2 == 0 {
            lemma_hex_digit_val(b[i / 2] / 16);
        } else {
            lemma_hex_digit_val(b[i / 2] % 16);
        }
    }
    let d = hex_decode_spec(t)->Some_0;
    assert forall|i: int| 0 <= i < b.len() implies d[i] == b[i] by {
        assert(t[2 * i] == hex_digit(b[i] / 16));
        assert(t[2 * i + 1] == hex_digit(b[i] % 16));
        lemma_hex_digit_val(b[i] / 16);
        lemma_hex_digit_val(b[i] % 16);
        assert(d[i] == (16 * (b[i] / 16) + b[i] % 16) as u8);
    }
    assert(d =~= b);
}

/// Round trip of the whole codec: any UTF-8 text, once encoded, decodes back
/// to itself.
pub proof fn lemma_round_trip(t: Seq<u8>)
    requires
        valid_utf8(t),
    ensures
        decode_url_spec(hex_encode_spec(t)) == Ok::<Seq<u8>, DecodeError>(t),
{
    lemma_hex_round_trip(t);
}

} // verus!
