//! Lowercase hexadecimal encoding of byte strings, as used inside entry file
//! names, together with its exact specification and the decoding direction.

use vstd::prelude::*;

verus! {

/// The ASCII byte of the lowercase hex digit for `n` (`n < 16`).
pub open spec fn hex_digit(n: u8) -> u8
    recommends
        n < 16,
{
    if n < 10 {
        (0x30 + n) as u8
    } else {
        (0x57 + n) as u8
    }
}

/// The lowercase hex encoding of a byte string: two digits per byte, high
/// nibble first.
pub open spec fn hex_of(bytes: Seq<u8>) -> Seq<u8>
    decreases bytes.len(),
{
    if bytes.len() == 0 {
        seq![]
    } else {
        seq![hex_digit(bytes[0] / 16), hex_digit(bytes[0] % 16)] + hex_of(bytes.drop_first())
    }
}

/// Whether `b` is the ASCII byte of a hex digit, either case.
pub open spec fn is_hex_byte(b: u8) -> bool {
    (0x30 <= b <= 0x39) || (0x41 <= b <= 0x46) || (0x61 <= b <= 0x66)
}

/// The value of the hex digit byte `b`, either case.
pub open spec fn hex_val(b: u8) -> u8
    recommends
        is_hex_byte(b),
{
    if b <= 0x39 {
        (b - 0x30) as u8
    } else if b <= 0x46 {
        ((b - 0x41) + 10) as u8
    } else {
        ((b - 0x61) + 10) as u8
    }
}

/// Relies on hex::encode: the result is the lowercase hex encoding of the
/// input, one pair of digits per byte, high nibble first.
#[verifier::external_body]
pub(crate) fn hex_encode(data: &Vec<u8>) -> (r: String)
    ensures
        vstd::utf8::encode_utf8(r@) == hex_of(data@),
{
    hex::encode(data.as_slice())
}

/// Relies on hex::decode: it succeeds exactly on inputs of even length made
/// of hex digit bytes of either case, and then returns one byte per digit
/// pair, high nibble first.
#[verifier::external_body]
pub(crate) fn hex_decode(data: &Vec<u8>) -> (r: Option<Vec<u8>>)
    ensures
        r is Some <==> (data@.len() % 2 == 0 && forall|i: int|
            0 <= i < data@.len() ==> is_hex_byte(#[trigger] data@[i])),
        r is Some ==> {
            &&& r->0@.len() == data@.len() / 2
            &&& forall|i: int|
                0 <= i < r->0@.len() ==> #[trigger] r->0@[i] == hex_val(data@[2 * i]) * 16
                    + hex_val(data@[2 * i + 1])
        },
{
    match hex::decode(data.as_slice()) {
        Ok(v) => Some(v),
        Err(_) => None,
    }
}

/// The hex encoding of a byte string is twice as long, consists of hex digit
/// bytes, and decodes back to the original, pair by pair.
pub proof fn lemma_hex_of_decodes(bytes: Seq<u8>)
    ensures
        hex_of(bytes).len() == 2 * bytes.len(),
        forall|i: int| 0 <= i < hex_of(bytes).len() ==> is_hex_byte(#[trigger] hex_of(bytes)[i]),
        forall|i: int|
            0 <= i < bytes.len() ==> hex_val(hex_of(bytes)[2 * i]) * 16 + hex_val(
                hex_of(bytes)[2 * i + 1],
            ) == #[trigger] bytes[i],
    decreases bytes.len(),
{
    if bytes.len() > 0 {
        lemma_hex_of_decodes(bytes.drop_first());
        let h = hex_of(bytes);
        let t = hex_of(bytes.drop_first());
        assert(h == seq![hex_digit(bytes[0] / 16), hex_digit(bytes[0] % 16)] + t);
        assert forall|i: int| 0 <= i < bytes.len() implies hex_val(h[2 * i]) * 16 + hex_val(
            h[2 * i + 1],
        ) == #[trigger] bytes[i] by {
            if i == 0 {
                assert(hex_val(hex_digit(bytes[0] / 16)) == bytes[0] / 16);
                assert(hex_val(hex_digit(bytes[0] % 16)) == bytes[0] % 16);
                assert((bytes[0] / 16) * 16 + bytes[0] % 16 == bytes[0]) by (nonlinear_arith);
            } else {
                assert(h[2 * i] == t[2 * (i - 1)]);
                assert(h[2 * i + 1] == t[2 * (i - 1) + 1]);
                assert(bytes.drop_first()[i - 1] == bytes[i]);
            }
        }
    }
}

} // verus!
