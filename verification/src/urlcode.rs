//! Percent-encoding of byte strings, as used inside config entry file names,
//! together with its exact specification and the decoding direction.

use vstd::prelude::*;
use vstd::utf8::encode_utf8;
use crate::hexcode::is_hex_byte;
use crate::hexcode::hex_val;

verus! {

/// Whether `b` is kept as itself by percent-encoding: an ASCII alphanumeric
/// or one of `-`, `.`, `_`, `~`.
pub open spec fn is_url_safe(b: u8) -> bool {
    (0x30 <= b <= 0x39) || (0x41 <= b <= 0x5a) || (0x61 <= b <= 0x7a) || b == 0x2d || b == 0x2e
        || b == 0x5f || b == 0x7e
}

/// The ASCII byte of the uppercase hex digit for `n` (`n < 16`).
pub open spec fn hex_digit_upper(n: u8) -> u8
    recommends
        n < 16,
{
    if n < 10 {
        (0x30 + n) as u8
    } else {
        (0x37 + n) as u8
    }
}

/// The percent-encoding of one byte.
pub open spec fn pct_byte(b: u8) -> Seq<u8> {
    if is_url_safe(b) {
        seq![b]
    } else {
        seq![0x25u8, hex_digit_upper(b / 16), hex_digit_upper(b % 16)]
    }
}

/// The percent-encoding of a byte string.
pub open spec fn pct_encode(bytes: Seq<u8>) -> Seq<u8>
    decreases bytes.len(),
{
    if bytes.len() == 0 {
        seq![]
    } else {
        pct_byte(bytes[0]) + pct_encode(bytes.drop_first())
    }
}

/// The percent-decoding of a byte string: a percent sign followed by two hex
/// digits of either case becomes that byte; every other byte passes through
/// unchanged.
pub open spec fn pct_decode(bytes: Seq<u8>) -> Seq<u8>
    decreases bytes.len(),
{
    if bytes.len() == 0 {
        seq![]
    } else if bytes[0] == 0x25 && bytes.len() >= 3 && is_hex_byte(bytes[1]) && is_hex_byte(
        bytes[2],
    ) {
        seq![(hex_val(bytes[1]) * 16 + hex_val(bytes[2])) as u8] + pct_decode(bytes.skip(3))
    } else {
        seq![bytes[0]] + pct_decode(bytes.drop_first())
    }
}

/// Relies on urlencoding::encode: every byte except an ASCII alphanumeric or
/// one of `- . _ ~` comes out percent-encoded with uppercase hex digits.
#[verifier::external_body]
pub(crate) fn url_encode(data: &str) -> (r: String)
    ensures
        encode_utf8(r@) == pct_encode(encode_utf8(data@)),
{
    urlencoding::encode(data).into_owned()
}

/// Relies on urlencoding::decode_binary: a percent sign followed by two hex
/// digits becomes that byte, and every other byte passes through unchanged.
#[verifier::external_body]
pub(crate) fn url_decode_bytes(data: &Vec<u8>) -> (r: Vec<u8>)
    ensures
        r@ == pct_decode(data@),
{
    urlencoding::decode_binary(data.as_slice()).into_owned()
}

/// Relies on String::from_utf8 of std: it succeeds exactly on valid UTF-8
/// and then carries the input bytes over unchanged.
#[verifier::external_body]
pub(crate) fn string_from_utf8(bytes: Vec<u8>) -> (r: Option<String>)
    ensures
        r is Some <==> vstd::utf8::valid_utf8(bytes@),
        r is Some ==> encode_utf8(r->0@) == bytes@,
{
    match String::from_utf8(bytes) {
        Ok(s) => Some(s),
        Err(_) => None,
    }
}

/// Percent-decoding inverts percent-encoding.
pub proof fn lemma_pct_roundtrip(bytes: Seq<u8>)
    ensures
        pct_decode(pct_encode(bytes)) == bytes,
    decreases bytes.len(),
{
    if bytes.len() > 0 {
        lemma_pct_roundtrip(bytes.drop_first());
        let b = bytes[0];
        let e = pct_encode(bytes);
        if is_url_safe(b) {
            assert(e == seq![b] + pct_encode(bytes.drop_first()));
            assert(e[0] == b && b != 0x25);
            assert(e.drop_first() == pct_encode(bytes.drop_first()));
            assert(pct_decode(e) =~= bytes);
        } else {
            let h1 = hex_digit_upper(b / 16);
            let h2 = hex_digit_upper(b % 16);
            assert(e == seq![0x25u8, h1, h2] + pct_encode(bytes.drop_first()));
            assert(is_hex_byte(h1) && is_hex_byte(h2));
            assert(hex_val(h1) == b / 16 && hex_val(h2) == b % 16);
            assert(hex_val(h1) * 16 + hex_val(h2) == b) by (nonlinear_arith)
                requires
                    hex_val(h1) == b / 16 && hex_val(h2) == b % 16,
            ;
            assert(e.skip(3) =~= pct_encode(bytes.drop_first()));
            assert(pct_decode(e) =~= bytes);
        }
    }
}

/// Percent-encoded byte strings never contain a `#` byte.
pub proof fn lemma_pct_encode_no_hash(bytes: Seq<u8>)
    ensures
        forall|i: int| 0 <= i < pct_encode(bytes).len() ==> #[trigger] pct_encode(bytes)[i] != 0x23,
    decreases bytes.len(),
{
    if bytes.len() > 0 {
        lemma_pct_encode_no_hash(bytes.drop_first());
        assert(pct_encode(bytes) == pct_byte(bytes[0]) + pct_encode(bytes.drop_first()));
    }
}

/// UTF-8 encoding distributes over concatenation.
pub proof fn lemma_encode_utf8_concat(a: Seq<char>, b: Seq<char>)
    ensures
        encode_utf8(a + b) == encode_utf8(a) + encode_utf8(b),
    decreases a.len(),
{
    if a.len() == 0 {
        assert(a + b == b);
        assert(encode_utf8(a) + encode_utf8(b) == encode_utf8(b));
    } else {
        lemma_encode_utf8_concat(a.drop_first(), b);
        assert((a + b).drop_first() == a.drop_first() + b);
        assert((a + b)[0] == a[0]);
        assert(encode_utf8(a + b) =~= encode_utf8(a) + encode_utf8(b));
    }
}

} // verus!
