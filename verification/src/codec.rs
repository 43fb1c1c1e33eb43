//! Entry file names for the content-addressed store, and their inverses.
//!
//! An inference entry is filed under `infer-` followed by four 16-digit hex
//! blocks separated by `#`, then `.inferstore`; the whole name is 84 bytes.
//! A config entry is filed under `config-<urlencoded name>#<urlencoded
//! version>.inferstore`. All specifications here are over the UTF-8 bytes
//! of the names.

use vstd::prelude::*;
use vstd::utf8::encode_utf8;
use vstd::string::StringExecFns;
use crate::hexcode::hex_of;
use crate::hexcode::is_hex_byte;
use crate::hexcode::hex_val;
use crate::hexcode::hex_encode;
use crate::hexcode::hex_decode;
use crate::urlcode::pct_encode;
use crate::urlcode::pct_decode;
use crate::urlcode::url_encode;
use crate::urlcode::url_decode_bytes;
use crate::urlcode::string_from_utf8;
use crate::urlcode::lemma_encode_utf8_concat;

verus! {

/// The bytes of the `infer-` name prefix.
pub open spec fn infer_prefix_bytes() -> Seq<u8> {
    seq![0x69u8, 0x6eu8, 0x66u8, 0x65u8, 0x72u8, 0x2du8]
}

/// The bytes of the `config-` name prefix.
pub open spec fn config_prefix_bytes() -> Seq<u8> {
    seq![0x63u8, 0x6fu8, 0x6eu8, 0x66u8, 0x69u8, 0x67u8, 0x2du8]
}

/// The bytes of the `.inferstore` name suffix.
pub open spec fn store_suffix_bytes() -> Seq<u8> {
    seq![0x2eu8, 0x69u8, 0x6eu8, 0x66u8, 0x65u8, 0x72u8, 0x73u8, 0x74u8, 0x6fu8, 0x72u8, 0x65u8]
}

proof fn lemma_infer_prefix_lit()
    ensures
        encode_utf8("infer-"@) == infer_prefix_bytes(),
{
    reveal_strlit("infer-");
    assert("infer-"@ =~= seq!['i', 'n', 'f', 'e', 'r', '-']);
    assert(vstd::utf8::is_ascii_chars("infer-"@));
    vstd::utf8::is_ascii_chars_encode_utf8("infer-"@);
    assert(encode_utf8("infer-"@) =~= infer_prefix_bytes());
}

proof fn lemma_config_prefix_lit()
    ensures
        encode_utf8("config-"@) == config_prefix_bytes(),
{
    reveal_strlit("config-");
    assert("config-"@ =~= seq!['c', 'o', 'n', 'f', 'i', 'g', '-']);
    assert(vstd::utf8::is_ascii_chars("config-"@));
    vstd::utf8::is_ascii_chars_encode_utf8("config-"@);
    assert(encode_utf8("config-"@) =~= config_prefix_bytes());
}

proof fn lemma_store_suffix_lit()
    ensures
        encode_utf8(".inferstore"@) == store_suffix_bytes(),
{
    reveal_strlit(".inferstore");
    assert(".inferstore"@ =~= seq!['.', 'i', 'n', 'f', 'e', 'r', 's', 't', 'o', 'r', 'e']);
    assert(vstd::utf8::is_ascii_chars(".inferstore"@));
    vstd::utf8::is_ascii_chars_encode_utf8(".inferstore"@);
    assert(encode_utf8(".inferstore"@) =~= store_suffix_bytes());
}

proof fn lemma_hash_sep_lit()
    ensures
        encode_utf8("#"@) == seq![0x23u8],
{
    reveal_strlit("#");
    assert("#"@ =~= seq!['#']);
    assert(vstd::utf8::is_ascii_chars("#"@));
    vstd::utf8::is_ascii_chars_encode_utf8("#"@);
    assert(encode_utf8("#"@) =~= seq![0x23u8]);
}

proof fn lemma_underscore_lit()
    ensures
        encode_utf8("_"@) == seq![0x5fu8],
{
    reveal_strlit("_");
    assert("_"@ =~= seq!['_']);
    assert(vstd::utf8::is_ascii_chars("_"@));
    vstd::utf8::is_ascii_chars_encode_utf8("_"@);
    assert(encode_utf8("_"@) =~= seq![0x5fu8]);
}

/// The name bytes of an inference entry with the given 32-byte composite
/// hash: four hex blocks of eight bytes each, `#`-separated, between the
/// `infer-` prefix and the `.inferstore` suffix.
pub open spec fn spec_infer_file_name(hash: Seq<u8>) -> Seq<u8> {
    infer_prefix_bytes() + hex_of(hash.subrange(0, 8)) + seq![0x23u8] + hex_of(
        hash.subrange(8, 16),
    ) + seq![0x23u8] + hex_of(hash.subrange(16, 24)) + seq![0x23u8] + hex_of(
        hash.subrange(24, 32),
    ) + store_suffix_bytes()
}

/// The name bytes of an entry in the flat store layout: the same four hex
/// blocks joined by `_`, with the `.inferstore` suffix and no prefix.
pub open spec fn spec_flat_file_name(hash: Seq<u8>) -> Seq<u8> {
    hex_of(hash.subrange(0, 8)) + seq![0x5fu8] + hex_of(hash.subrange(8, 16)) + seq![0x5fu8]
        + hex_of(hash.subrange(16, 24)) + seq![0x5fu8] + hex_of(hash.subrange(24, 32))
        + store_suffix_bytes()
}

/// The name bytes of a config entry for the given percent-encoded name and
/// version bytes.
pub open spec fn spec_config_file_name(name_bytes: Seq<u8>, version_bytes: Seq<u8>) -> Seq<u8> {
    config_prefix_bytes() + pct_encode(name_bytes) + seq![0x23u8] + pct_encode(version_bytes)
        + store_suffix_bytes()
}

/// Whether the name bytes have the shape of an inference entry name: the
/// `infer-` prefix, the `.inferstore` suffix, 84 bytes in all.
pub open spec fn spec_is_infer_file_name(bs: Seq<u8>) -> bool {
    &&& bs.len() == 84
    &&& bs.subrange(0, 6) == infer_prefix_bytes()
    &&& bs.subrange(73, 84) == store_suffix_bytes()
}

/// Whether the name bytes have the shape of a config entry name: the
/// `config-` prefix and the `.inferstore` suffix.
pub open spec fn spec_is_config_file_name(bs: Seq<u8>) -> bool {
    &&& bs.len() >= 7
    &&& bs.subrange(0, 7) == config_prefix_bytes()
    &&& bs.len() >= 11
    &&& bs.subrange(bs.len() - 11, bs.len() as int) == store_suffix_bytes()
}

/// Whether the name bytes carry the `.inferstore` extension: the suffix
/// preceded by at least one byte of stem.
pub open spec fn spec_has_store_extension(bs: Seq<u8>) -> bool {
    &&& bs.len() >= 12
    &&& bs.subrange(bs.len() - 11, bs.len() as int) == store_suffix_bytes()
}

/// The bytes of `v` from `i` (inclusive) to `j` (exclusive), as a fresh
/// buffer.
pub fn subvec(v: &Vec<u8>, i: usize, j: usize) -> (r: Vec<u8>)
    requires
        i <= j <= v@.len(),
    ensures
        r@ == v@.subrange(i as int, j as int),
{
    vstd::slice::slice_to_vec(vstd::slice::slice_subrange(v.as_slice(), i, j))
}

/// Builds the inference entry name for a 32-byte composite hash.
pub fn infer_file_name_from_hash(hash: &Vec<u8>) -> (r: String)
    requires
        hash@.len() == 32,
    ensures
        encode_utf8(r@) == spec_infer_file_name(hash@),
        encode_utf8(r@).len() == 84,
{
    let h1 = hex_encode(&subvec(hash, 0, 8));
    let h2 = hex_encode(&subvec(hash, 8, 16));
    let h3 = hex_encode(&subvec(hash, 16, 24));
    let h4 = hex_encode(&subvec(hash, 24, 32));
    let mut s = String::from_str("infer-");
    let ghost s0 = s@;
    s.append(h1.as_str());
    let ghost s1 = s@;
    s.append("#");
    let ghost s2 = s@;
    s.append(h2.as_str());
    let ghost s3 = s@;
    s.append("#");
    let ghost s4 = s@;
    s.append(h3.as_str());
    let ghost s5 = s@;
    s.append("#");
    let ghost s6 = s@;
    s.append(h4.as_str());
    let ghost s7 = s@;
    s.append(".inferstore");
    proof {
        lemma_infer_prefix_lit();
        lemma_hash_sep_lit();
        lemma_store_suffix_lit();
        lemma_encode_utf8_concat(s0, h1@);
        lemma_encode_utf8_concat(s1, "#"@);
        lemma_encode_utf8_concat(s2, h2@);
        lemma_encode_utf8_concat(s3, "#"@);
        lemma_encode_utf8_concat(s4, h3@);
        lemma_encode_utf8_concat(s5, "#"@);
        lemma_encode_utf8_concat(s6, h4@);
        lemma_encode_utf8_concat(s7, ".inferstore"@);
        crate::hexcode::lemma_hex_of_decodes(hash@.subrange(0, 8));
        crate::hexcode::lemma_hex_of_decodes(hash@.subrange(8, 16));
        crate::hexcode::lemma_hex_of_decodes(hash@.subrange(16, 24));
        crate::hexcode::lemma_hex_of_decodes(hash@.subrange(24, 32));
        assert(encode_utf8(s@) =~= spec_infer_file_name(hash@));
    }
    s
}

/// Builds the flat-layout entry name for a 32-byte composite hash.
pub fn flat_file_name_from_hash(hash: &Vec<u8>) -> (r: String)
    requires
        hash@.len() == 32,
    ensures
        encode_utf8(r@) == spec_flat_file_name(hash@),
{
    let h1 = hex_encode(&subvec(hash, 0, 8));
    let h2 = hex_encode(&subvec(hash, 8, 16));
    let h3 = hex_encode(&subvec(hash, 16, 24));
    let h4 = hex_encode(&subvec(hash, 24, 32));
    let mut s = h1;
    let ghost s1 = s@;
    s.append("_");
    let ghost s2 = s@;
    s.append(h2.as_str());
    let ghost s3 = s@;
    s.append("_");
    let ghost s4 = s@;
    s.append(h3.as_str());
    let ghost s5 = s@;
    s.append("_");
    let ghost s6 = s@;
    s.append(h4.as_str());
    let ghost s7 = s@;
    s.append(".inferstore");
    proof {
        lemma_underscore_lit();
        lemma_store_suffix_lit();
        lemma_encode_utf8_concat(s1, "_"@);
        lemma_encode_utf8_concat(s2, h2@);
        lemma_encode_utf8_concat(s3, "_"@);
        lemma_encode_utf8_concat(s4, h3@);
        lemma_encode_utf8_concat(s5, "_"@);
        lemma_encode_utf8_concat(s6, h4@);
        lemma_encode_utf8_concat(s7, ".inferstore"@);
        assert(encode_utf8(s@) =~= spec_flat_file_name(hash@));
    }
    s
}

/// Builds the config entry name for a model name and version.
pub fn config_file_name(name: &str, version: &str) -> (r: String)
    ensures
        encode_utf8(r@) == spec_config_file_name(encode_utf8(name@), encode_utf8(version@)),
{
    let enc_name = url_encode(name);
    let enc_version = url_encode(version);
    let mut s = String::from_str("config-");
    let ghost s0 = s@;
    s.append(enc_name.as_str());
    let ghost s1 = s@;
    s.append("#");
    let ghost s2 = s@;
    s.append(enc_version.as_str());
    let ghost s3 = s@;
    s.append(".inferstore");
    proof {
        lemma_config_prefix_lit();
        lemma_hash_sep_lit();
        lemma_store_suffix_lit();
        lemma_encode_utf8_concat(s0, enc_name@);
        lemma_encode_utf8_concat(s1, "#"@);
        lemma_encode_utf8_concat(s2, enc_version@);
        lemma_encode_utf8_concat(s3, ".inferstore"@);
        assert(encode_utf8(s@) =~= spec_config_file_name(
            encode_utf8(name@),
            encode_utf8(version@),
        ));
    }
    s
}

/// Whether a file name has the shape of an inference entry name.
pub fn matches_infer_file_name(file_name: &str) -> (r: bool)
    ensures
        r == spec_is_infer_file_name(encode_utf8(file_name@)),
{
    let bytes = file_name.as_bytes();
    if bytes.len() != 84 {
        return false;
    }
    let prefix: [u8; 6] = [0x69, 0x6e, 0x66, 0x65, 0x72, 0x2d];
    let suffix: [u8; 11] = [0x2e, 0x69, 0x6e, 0x66, 0x65, 0x72, 0x73, 0x74, 0x6f, 0x72, 0x65];
    let p = crate::pmap::bytes_equal(
        vstd::slice::slice_subrange(bytes, 0, 6),
        prefix.as_slice(),
    );
    let s = crate::pmap::bytes_equal(
        vstd::slice::slice_subrange(bytes, 73, 84),
        suffix.as_slice(),
    );
    proof {
        assert(prefix@ =~= infer_prefix_bytes());
        assert(suffix@ =~= store_suffix_bytes());
    }
    p && s
}

/// Whether a file name has the shape of a config entry name.
pub fn matches_config_file_name(file_name: &str) -> (r: bool)
    ensures
        r == spec_is_config_file_name(encode_utf8(file_name@)),
{
    let bytes = file_name.as_bytes();
    if bytes.len() < 11 {
        return false;
    }
    let prefix: [u8; 7] = [0x63, 0x6f, 0x6e, 0x66, 0x69, 0x67, 0x2d];
    let suffix: [u8; 11] = [0x2e, 0x69, 0x6e, 0x66, 0x65, 0x72, 0x73, 0x74, 0x6f, 0x72, 0x65];
    if bytes.len() < 7 {
        return false;
    }
    let p = crate::pmap::bytes_equal(
        vstd::slice::slice_subrange(bytes, 0, 7),
        prefix.as_slice(),
    );
    let n: usize = bytes.len();
    let s = crate::pmap::bytes_equal(
        vstd::slice::slice_subrange(bytes, n - 11, n),
        suffix.as_slice(),
    );
    proof {
        assert(prefix@ =~= config_prefix_bytes());
        assert(suffix@ =~= store_suffix_bytes());
    }
    p && s
}

/// Whether a file name carries the `.inferstore` extension.
pub fn is_inference_file_name(file_name: &str) -> (r: bool)
    ensures
        r == spec_has_store_extension(encode_utf8(file_name@)),
{
    let bytes = file_name.as_bytes();
    if bytes.len() < 12 {
        return false;
    }
    let suffix: [u8; 11] = [0x2e, 0x69, 0x6e, 0x66, 0x65, 0x72, 0x73, 0x74, 0x6f, 0x72, 0x65];
    let n: usize = bytes.len();
    let s = crate::pmap::bytes_equal(
        vstd::slice::slice_subrange(bytes, n - 11, n),
        suffix.as_slice(),
    );
    proof {
        assert(suffix@ =~= store_suffix_bytes());
    }
    s
}

/// Recovers the fourth hex block of an inference entry name — the response
/// hash — from the name's bytes 57 to 73.
pub fn infer_response_hash_from_name(file_name: &str) -> (r: Option<Vec<u8>>)
    ensures
        r is Some <==> (encode_utf8(file_name@).len() >= 73 && forall|i: int|
            57 <= i < 73 ==> is_hex_byte(#[trigger] encode_utf8(file_name@)[i])),
        r is Some ==> {
            &&& r->0@.len() == 8
            &&& forall|i: int|
                0 <= i < 8 ==> #[trigger] r->0@[i] == hex_val(encode_utf8(file_name@)[57 + 2 * i])
                    * 16 + hex_val(encode_utf8(file_name@)[57 + 2 * i + 1])
        },
{
    let bytes = file_name.as_bytes();
    if bytes.len() < 73 {
        return None;
    }
    let block = vstd::slice::slice_to_vec(vstd::slice::slice_subrange(bytes, 57, 73));
    let r = hex_decode(&block);
    proof {
        let bs = encode_utf8(file_name@);
        if r is Some {
            assert forall|i: int| 0 <= i < 8 implies #[trigger] r->0@[i] == hex_val(
                bs[57 + 2 * i],
            ) * 16 + hex_val(bs[57 + 2 * i + 1]) by {
                assert(r->0@[i] == hex_val(block@[2 * i]) * 16 + hex_val(block@[2 * i + 1]));
                assert(block@[2 * i] == bs[57 + 2 * i]);
                assert(block@[2 * i + 1] == bs[57 + 2 * i + 1]);
            }
            assert forall|i: int| 57 <= i < 73 implies is_hex_byte(#[trigger] bs[i]) by {
                assert(block@[i - 57] == bs[i]);
                assert(is_hex_byte(block@[i - 57]));
            }
        } else {
            if bs.len() >= 73 && forall|i: int| 57 <= i < 73 ==> is_hex_byte(#[trigger] bs[i]) {
                assert forall|i: int| 0 <= i < block@.len() implies is_hex_byte(
                    #[trigger] block@[i],
                ) by {
                    assert(block@[i] == bs[57 + i]);
                }
                assert(block@.len() % 2 == 0);
            }
        }
    }
    r
}

/// The name bytes with every `_` removed.
pub open spec fn strip_underscores(bs: Seq<u8>) -> Seq<u8>
    decreases bs.len(),
{
    if bs.len() == 0 {
        seq![]
    } else if bs[0] == 0x5f {
        strip_underscores(bs.drop_first())
    } else {
        seq![bs[0]] + strip_underscores(bs.drop_first())
    }
}

proof fn lemma_strip_underscores_push(bs: Seq<u8>, x: u8)
    ensures
        strip_underscores(bs.push(x)) == if x == 0x5f {
            strip_underscores(bs)
        } else {
            strip_underscores(bs) + seq![x]
        },
    decreases bs.len(),
{
    if bs.len() == 0 {
        assert(bs.push(x).drop_first() =~= bs);
        if x != 0x5f {
            assert(strip_underscores(bs.push(x)) =~= strip_underscores(bs) + seq![x]);
        }
    } else {
        lemma_strip_underscores_push(bs.drop_first(), x);
        assert(bs.push(x).drop_first() =~= bs.drop_first().push(x));
        assert(bs.push(x)[0] == bs[0]);
        if x == 0x5f {
            assert(strip_underscores(bs.push(x)) =~= strip_underscores(bs));
        } else {
            assert(strip_underscores(bs.push(x)) =~= strip_underscores(bs) + seq![x]);
        }
    }
}

/// The bytes obtained by decoding consecutive pairs of hex digit bytes.
pub open spec fn spec_hex_pairs(bs: Seq<u8>) -> Seq<u8> {
    Seq::new(bs.len() / 2, |i: int| (hex_val(bs[2 * i]) * 16 + hex_val(bs[2 * i + 1])) as u8)
}

/// The composite hash a flat-layout entry name carries: the `.inferstore`
/// suffix dropped, the `_` separators removed, and the remaining 64 hex
/// digits decoded; `None` when the name does not have that shape.
pub open spec fn spec_flat_name_hash(bs: Seq<u8>) -> Option<Seq<u8>> {
    if bs.len() < 11 {
        Option::None
    } else {
        let core = strip_underscores(bs.subrange(0, bs.len() - 11));
        if core.len() == 64 && (forall|i: int| 0 <= i < 64 ==> is_hex_byte(#[trigger] core[i])) {
            Option::Some(spec_hex_pairs(core))
        } else {
            Option::None
        }
    }
}

/// Recovers the 32-byte composite hash from a flat-layout entry name: the
/// `.inferstore` suffix is dropped, the `_` separators are removed, and the
/// remaining 64 hex digits are decoded.
pub fn flat_hash_from_name(file_name: &str) -> (r: Option<Vec<u8>>)
    ensures
        r is Some <==> spec_flat_name_hash(encode_utf8(file_name@)) is Some,
        r is Some ==> r->0@ == spec_flat_name_hash(encode_utf8(file_name@))->0 && r->0@.len()
            == 32,
{
    let bytes = file_name.as_bytes();
    if bytes.len() < 11 {
        return None;
    }
    let n: usize = bytes.len();
    let stem_len: usize = n - 11;
    let mut core: Vec<u8> = Vec::new();
    let mut i: usize = 0;
    let ghost bs = encode_utf8(file_name@);
    proof {
        assert(bs.subrange(0, 0) =~= Seq::<u8>::empty());
    }
    while i < stem_len
        invariant
            bs == encode_utf8(file_name@),
            bytes@ == bs,
            stem_len == bs.len() - 11,
            i <= stem_len,
            core@ == strip_underscores(bs.subrange(0, i as int)),
        decreases stem_len - i,
    {
        let b: u8 = *vstd::slice::slice_index_get(bytes, i);
        if b != 0x5f {
            core.push(b);
        }
        proof {
            assert(bs.subrange(0, i as int + 1) =~= bs.subrange(0, i as int).push(bs[i as int]));
            lemma_strip_underscores_push(bs.subrange(0, i as int), bs[i as int]);
        }
        i = i + 1;
    }
    proof {
        assert(bs.subrange(0, stem_len as int) =~= bs.subrange(0, bs.len() - 11));
    }
    if core.len() != 64 {
        return None;
    }
    let r = hex_decode(&core);
    proof {
        let spec_core = strip_underscores(bs.subrange(0, bs.len() - 11));
        assert(core@ == spec_core);
        if r is Some {
            assert(r->0@ =~= spec_hex_pairs(spec_core));
        }
    }
    r
}

/// The first index of `b` in `bs`, or the length when absent.
pub open spec fn find_byte(bs: Seq<u8>, b: u8) -> int
    decreases bs.len(),
{
    if bs.len() == 0 {
        0
    } else if bs[0] == b {
        0
    } else {
        1 + find_byte(bs.drop_first(), b)
    }
}

/// `find_byte` returns the first occurrence, or the length when absent.
pub proof fn lemma_find_byte(bs: Seq<u8>, b: u8)
    ensures
        0 <= find_byte(bs, b) <= bs.len(),
        find_byte(bs, b) < bs.len() ==> bs[find_byte(bs, b)] == b,
        forall|j: int| 0 <= j < find_byte(bs, b) ==> bs[j] != b,
    decreases bs.len(),
{
    if bs.len() > 0 && bs[0] != b {
        lemma_find_byte(bs.drop_first(), b);
        assert forall|j: int| 0 <= j < find_byte(bs, b) implies bs[j] != b by {
            if j > 0 {
                assert(bs.drop_first()[j - 1] != b);
            }
        }
    }
}

/// What a config entry name parses to: the stem between prefix and suffix
/// is split at its first `#`; the part before decodes to the model name
/// bytes, the part from there to the next `#` (or the end) to the version
/// bytes. A name without `#` in the stem does not parse.
pub open spec fn spec_parse_config_name(bs: Seq<u8>) -> Option<(Seq<u8>, Seq<u8>)> {
    if !spec_is_config_file_name(bs) || bs.len() < 18 {
        Option::None
    } else {
        let stem = bs.subrange(7, bs.len() - 11);
        let h = find_byte(stem, 0x23);
        if h == stem.len() {
            Option::None
        } else {
            let name_enc = stem.subrange(0, h);
            let rest = stem.subrange(h + 1, stem.len() as int);
            let h2 = find_byte(rest, 0x23);
            let ver_enc = rest.subrange(0, h2);
            Option::Some((pct_decode(name_enc), pct_decode(ver_enc)))
        }
    }
}

/// Parses a config entry name back into the model name and version. The
/// result is `Some` exactly when the name has the config shape, its stem
/// holds a `#`, and both decoded parts are valid UTF-8.
pub fn parse_config_file_name(file_name: &str) -> (r: Option<(String, String)>)
    ensures
        match spec_parse_config_name(encode_utf8(file_name@)) {
            Option::Some((nb, vb)) => match r {
                Option::Some((name, version)) => encode_utf8(name@) == nb && encode_utf8(
                    version@,
                ) == vb,
                Option::None => !vstd::utf8::valid_utf8(nb) || !vstd::utf8::valid_utf8(vb),
            },
            Option::None => r is None,
        },
{
    let ghost bs = encode_utf8(file_name@);
    if !matches_config_file_name(file_name) {
        return None;
    }
    let bytes = file_name.as_bytes();
    let n: usize = bytes.len();
    if n < 18 {
        return None;
    }
    let stem = vstd::slice::slice_subrange(bytes, 7, n - 11);
    let ghost stem_s = bs.subrange(7, bs.len() - 11);
    let stem_len: usize = n - 18;
    let mut h: usize = 0;
    proof {
        lemma_find_byte(stem_s, 0x23);
    }
    while h < stem_len && *vstd::slice::slice_index_get(stem, h) != 0x23
        invariant
            stem@ == stem_s,
            stem_len == stem_s.len(),
            h <= stem_len,
            forall|j: int| 0 <= j < h ==> stem_s[j] != 0x23,
        decreases stem_len - h,
    {
        h = h + 1;
    }
    proof {
        lemma_find_byte(stem_s, 0x23);
        if h < stem_len {
            assert(stem_s[h as int] == 0x23);
            assert(find_byte(stem_s, 0x23) == h) by {
                if find_byte(stem_s, 0x23) < h {
                    assert(stem_s[find_byte(stem_s, 0x23)] != 0x23);
                } else if find_byte(stem_s, 0x23) > h {
                    assert(stem_s[h as int] != 0x23);
                }
            }
        } else {
            assert(find_byte(stem_s, 0x23) == stem_len) by {
                if find_byte(stem_s, 0x23) < stem_len {
                    assert(stem_s[find_byte(stem_s, 0x23)] == 0x23);
                }
            }
        }
    }
    if h >= stem_len {
        return None;
    }
    let name_enc = vstd::slice::slice_to_vec(vstd::slice::slice_subrange(stem, 0, h));
    let rest = vstd::slice::slice_subrange(stem, h + 1, stem_len);
    let ghost rest_s = stem_s.subrange(h as int + 1, stem_s.len() as int);
    let rest_len: usize = stem_len - h - 1;
    let mut h2: usize = 0;
    while h2 < rest_len && *vstd::slice::slice_index_get(rest, h2) != 0x23
        invariant
            rest@ == rest_s,
            rest_len == rest_s.len(),
            h2 <= rest_len,
            forall|j: int| 0 <= j < h2 ==> rest_s[j] != 0x23,
        decreases rest_len - h2,
    {
        h2 = h2 + 1;
    }
    proof {
        lemma_find_byte(rest_s, 0x23);
        if h2 < rest_len {
            assert(rest_s[h2 as int] == 0x23);
            assert(find_byte(rest_s, 0x23) == h2) by {
                if find_byte(rest_s, 0x23) < h2 {
                    assert(rest_s[find_byte(rest_s, 0x23)] != 0x23);
                } else if find_byte(rest_s, 0x23) > h2 {
                    assert(rest_s[h2 as int] != 0x23);
                }
            }
        } else {
            assert(find_byte(rest_s, 0x23) == rest_len) by {
                if find_byte(rest_s, 0x23) < rest_len {
                    assert(rest_s[find_byte(rest_s, 0x23)] == 0x23);
                }
            }
        }
    }
    let ver_enc = vstd::slice::slice_to_vec(vstd::slice::slice_subrange(rest, 0, h2));
    let name_dec = url_decode_bytes(&name_enc);
    let ver_dec = url_decode_bytes(&ver_enc);
    let name = match string_from_utf8(name_dec) {
        Some(s) => s,
        None => {
            return None;
        },
    };
    let version = match string_from_utf8(ver_dec) {
        Some(s) => s,
        None => {
            return None;
        },
    };
    Some((name, version))
}

} // verus!
