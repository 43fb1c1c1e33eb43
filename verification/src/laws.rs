//! The library's stated laws: reflexivity of the match relation, the
//! policy semantics of a single differing parameter, determinism and shape
//! of entry file names, write-once filing, replay after recording, and
//! recovery of a config entry's key from its file name.

use vstd::prelude::*;
use vstd::utf8::encode_utf8;
use crate::cachable::Cachable;
use crate::cachable_modelinfer::CachableModelInfer;
use crate::codec::spec_config_file_name;
use crate::codec::spec_infer_file_name;
use crate::codec::spec_is_infer_file_name;
use crate::codec::spec_is_config_file_name;
use crate::codec::spec_parse_config_name;
use crate::codec::find_byte;
use crate::codec::lemma_find_byte;
use crate::codec::config_prefix_bytes;
use crate::codec::store_suffix_bytes;
use crate::fingerprint::MatchConfigModel;
use crate::fingerprint::ProcessedInput;
use crate::fingerprint::ProcessedInputModel;
use crate::fingerprint::input_covered;
use crate::fingerprint::input_pair_matches;
use crate::fingerprint::inputs_compatible;
use crate::fingerprint::last_input_with_name;
use crate::fingerprint::last_output_with_name;
use crate::fingerprint::output_covered;
use crate::fingerprint::output_pair_matches;
use crate::fingerprint::outputs_compatible;
use crate::fingerprint::spec_input_wf;
use crate::fingerprint::spec_matches;
use crate::hexcode::hex_of;
use crate::hexcode::lemma_hex_of_decodes;
use crate::matching::lemma_kme_counterexample_exclude;
use crate::matching::lemma_kme_counterexample_include;
use crate::matching::spec_keyed_map_equal;
use crate::params::ParamModel;
use crate::pmap::pm_get;
use crate::response::ProcessedOutput;
use crate::settings::ParameterMatching;
use crate::settings::Settings;
use crate::settings::spec_match_config;
use crate::urlcode::pct_decode;
use crate::urlcode::pct_encode;
use crate::urlcode::lemma_pct_encode_no_hash;
use crate::urlcode::lemma_pct_roundtrip;

verus! {

/// The match relation is reflexive: under every policy, a well-formed
/// fingerprint matches itself.
pub proof fn lemma_matches_reflexive(a: ProcessedInputModel, c: MatchConfigModel)
    requires
        spec_input_wf(a),
    ensures
        spec_matches(a, a, c),
{
    assert forall|i: int|
        0 <= i < a.inputs.len() && last_input_with_name(a.inputs, i) implies #[trigger] input_covered(
        a.inputs,
        a.inputs,
        c,
        i,
    ) by {
        assert(input_pair_matches(a.inputs[i], a.inputs[i], c));
    }
    assert forall|i: int|
        0 <= i < a.outputs.len() && last_output_with_name(a.outputs, i)
        implies #[trigger] output_covered(a.outputs, a.outputs, c, i) by {
        assert(output_pair_matches(a.outputs[i], a.outputs[i], c));
    }
}

/// For two parameter maps that agree everywhere except at the key `k`,
/// the keyed comparison is decided by the policy alone: exclude-mode
/// passes exactly when `k` is listed, include-mode exactly when it is not.
pub proof fn lemma_kme_single_difference(
    m1: Seq<(Seq<char>, Option<ParamModel>)>,
    m2: Seq<(Seq<char>, Option<ParamModel>)>,
    keys: Seq<Seq<char>>,
    exclude: bool,
    k: Seq<char>,
)
    requires
        pm_get(m1, k) != pm_get(m2, k),
        forall|k2: Seq<char>| k2 != k ==> pm_get(m1, k2) == pm_get(m2, k2),
    ensures
        spec_keyed_map_equal(m1, m2, keys, exclude) == if exclude {
            keys.contains(k)
        } else {
            !keys.contains(k)
        },
{
    if exclude {
        if keys.contains(k) {
            assert forall|k2: Seq<char>| !keys.contains(k2) implies pm_get(m1, k2) == pm_get(
                m2,
                k2,
            ) by {
                assert(k2 != k);
            }
        } else {
            lemma_kme_counterexample_exclude(m1, m2, keys, k);
        }
    } else {
        if keys.contains(k) {
            let i = choose|i: int| 0 <= i < keys.len() && keys[i] == k;
            lemma_kme_counterexample_include(m1, m2, keys, i);
        } else {
            assert forall|i: int| 0 <= i < keys.len() implies pm_get(m1, #[trigger] keys[i])
                == pm_get(m2, keys[i]) by {
                assert(keys[i] != k);
            }
        }
    }
}

/// For two fingerprints that differ in exactly one top-level parameter
/// key, whether they match under a configuration is decided by the
/// configured parameter policy alone: disabled matching always matches,
/// listed keys match exactly when the differing key is not listed, and
/// ignored keys match exactly when it is.
pub proof fn lemma_match_policy_single_difference(
    a: ProcessedInputModel,
    b: ProcessedInputModel,
    s: Settings,
    k: Seq<char>,
)
    requires
        spec_input_wf(a),
        b.model_name == a.model_name,
        b.model_version == a.model_version,
        b.id == a.id,
        b.content_hash == a.content_hash,
        b.inputs == a.inputs,
        b.outputs == a.outputs,
        pm_get(a.parameters, k) != pm_get(b.parameters, k),
        forall|k2: Seq<char>| k2 != k ==> pm_get(a.parameters, k2) == pm_get(b.parameters, k2),
    ensures
        spec_matches(a, b, spec_match_config(s)) == match s.request_matching.parameter_matching {
            ParameterMatching::Disable => true,
            ParameterMatching::MatchKeys => !s.request_matching.parameter_keys.deep_view()
                .contains(k),
            ParameterMatching::IgnoreKeys => s.request_matching.parameter_keys.deep_view()
                .contains(k),
        },
{
    let c = spec_match_config(s);
    lemma_matches_reflexive(a, c);
    assert(inputs_compatible(a.inputs, b.inputs, c));
    assert(outputs_compatible(a.outputs, b.outputs, c));
    lemma_kme_single_difference(a.parameters, b.parameters, c.parameter_keys, c.exclude_parameters, k);
    match s.request_matching.parameter_matching {
        ParameterMatching::Disable => {
            assert(!c.parameter_keys.contains(k)) by {
                if c.parameter_keys.contains(k) {
                    let i = choose|i: int|
                        0 <= i < c.parameter_keys.len() && c.parameter_keys[i] == k;
                }
            }
            assert(spec_keyed_map_equal(a.parameters, b.parameters, c.parameter_keys, false));
        },
        ParameterMatching::MatchKeys => {},
        ParameterMatching::IgnoreKeys => {},
    }
}

/// Entry file names are a pure function of the fingerprint's and
/// response's models: structurally equal pairs are filed under the same
/// name.
pub proof fn lemma_file_name_deterministic(
    i1: &ProcessedInput,
    o1: &ProcessedOutput,
    i2: &ProcessedInput,
    o2: &ProcessedOutput,
)
    requires
        i1@ == i2@,
        o1@ == o2@,
    ensures
        CachableModelInfer::spec_name_of(i1, o1) == CachableModelInfer::spec_name_of(i2, o2),
{
}

/// An inference entry's name is exactly 84 bytes, has the inference name
/// shape, and carries the hex of the composite hash's response block at
/// bytes 57 to 73.
pub proof fn lemma_infer_name_shape(hash: Seq<u8>)
    requires
        hash.len() == 32,
    ensures
        spec_infer_file_name(hash).len() == 84,
        spec_is_infer_file_name(spec_infer_file_name(hash)),
        spec_infer_file_name(hash).subrange(57, 73) == hex_of(hash.subrange(24, 32)),
{
    lemma_hex_of_decodes(hash.subrange(0, 8));
    lemma_hex_of_decodes(hash.subrange(8, 16));
    lemma_hex_of_decodes(hash.subrange(16, 24));
    lemma_hex_of_decodes(hash.subrange(24, 32));
    let bs = spec_infer_file_name(hash);
    assert(bs.len() == 84);
    assert(bs.subrange(0, 6) =~= crate::codec::infer_prefix_bytes());
    assert(bs.subrange(73, 84) =~= store_suffix_bytes());
    assert(bs.subrange(57, 73) =~= hex_of(hash.subrange(24, 32)));
}

/// Filing a pair a second time is a silent no-op: once the store holds an
/// entry filed under a pair's name, an equal pair's name is already
/// present, and the store keeps its entries unchanged for it.
pub proof fn lemma_store_write_once(
    pre: Seq<CachableModelInfer>,
    post: Seq<CachableModelInfer>,
    input1: &ProcessedInput,
    output1: &ProcessedOutput,
    input2: &ProcessedInput,
    output2: &ProcessedOutput,
)
    requires
        post.len() == pre.len() + 1,
        post.last().spec_file_name() == CachableModelInfer::spec_name_of(input1, output1),
        input2@ == input1@,
        output2@ == output1@,
    ensures
        exists|i: int|
            0 <= i < post.len() && (#[trigger] post[i]).spec_file_name()
                == CachableModelInfer::spec_name_of(input2, output2),
{
    lemma_file_name_deterministic(input1, output1, input2, output2);
    assert(post[post.len() - 1].spec_file_name() == CachableModelInfer::spec_name_of(
        input2,
        output2,
    ));
}

/// Cache-aside replay: when no entry of the store matches a fingerprint
/// and the upstream's response is then recorded for it, the recorded
/// entry is the first match for that fingerprint, so an equal request is
/// answered from the store with the recorded response.
pub proof fn lemma_replay_after_record(
    pre: Seq<CachableModelInfer>,
    post: Seq<CachableModelInfer>,
    e: CachableModelInfer,
    fp: ProcessedInputModel,
    c: MatchConfigModel,
)
    requires
        spec_input_wf(fp),
        forall|j: int| 0 <= j < pre.len() ==> !spec_matches((#[trigger] pre[j]).input@, fp, c),
        post == pre.push(e),
        e.input@ == fp,
    ensures
        exists|k: int|
            {
                &&& 0 <= k < post.len()
                &&& spec_matches((#[trigger] post[k]).input@, fp, c)
                &&& forall|j: int|
                    0 <= j < k ==> !spec_matches((#[trigger] post[j]).input@, fp, c)
                &&& post[k].output@ == e.output@
            },
{
    lemma_matches_reflexive(fp, c);
    let k = pre.len() as int;
    assert(post[k] == e);
    assert(spec_matches(post[k].input@, fp, c));
    assert forall|j: int| 0 <= j < k implies !spec_matches((#[trigger] post[j]).input@, fp, c) by {
        assert(post[j] == pre[j]);
    }
}

/// A config entry's file name parses back to the percent-decoded name and
/// version bytes it was built from.
pub proof fn lemma_config_name_roundtrip(name: Seq<char>, version: Seq<char>)
    ensures
        spec_parse_config_name(spec_config_file_name(encode_utf8(name), encode_utf8(version)))
            == Option::Some((encode_utf8(name), encode_utf8(version))),
{
    let nb = encode_utf8(name);
    let vb = encode_utf8(version);
    let ne = pct_encode(nb);
    let ve = pct_encode(vb);
    let bs = spec_config_file_name(nb, vb);
    lemma_pct_encode_no_hash(nb);
    lemma_pct_encode_no_hash(vb);
    lemma_pct_roundtrip(nb);
    lemma_pct_roundtrip(vb);
    assert(bs.len() == 7 + ne.len() + 1 + ve.len() + 11);
    assert(bs.subrange(0, 7) =~= config_prefix_bytes());
    assert(bs.subrange(bs.len() - 11, bs.len() as int) =~= store_suffix_bytes());
    assert(spec_is_config_file_name(bs));
    let stem = bs.subrange(7, bs.len() - 11);
    assert(stem =~= ne + seq![0x23u8] + ve);
    let p = ne.len() as int;
    assert(stem[p] == 0x23);
    assert forall|j: int| 0 <= j < p implies stem[j] != 0x23 by {
        assert(stem[j] == ne[j]);
    }
    lemma_find_byte(stem, 0x23);
    let h = find_byte(stem, 0x23);
    assert(h == p) by {
        if h < p {
            assert(stem[h] != 0x23);
        }
        if h > p {
            assert(stem[p] != 0x23);
        }
    }
    assert(stem.subrange(0, h) =~= ne);
    let rest = stem.subrange(h + 1, stem.len() as int);
    assert(rest =~= ve);
    lemma_find_byte(rest, 0x23);
    let h2 = find_byte(rest, 0x23);
    assert(h2 == rest.len()) by {
        if h2 < rest.len() {
            assert(rest[h2] == 0x23);
            assert(rest[h2] != 0x23);
        }
    }
    assert(rest.subrange(0, h2) =~= ve);
    assert(pct_decode(ne) == nb);
    assert(pct_decode(ve) == vb);
}

} // verus!
