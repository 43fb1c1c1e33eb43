//! The canonical fingerprint of an inference request: the request's
//! identifying fields, its parameter maps in canonical key order, and the
//! content hash of its raw input buffers, together with the partial hashes
//! that drive matching and file naming.

use vstd::prelude::*;
use vstd::utf8::encode_utf8;
use vstd::bytes::spec_u64_to_le_bytes;
use vstd::bytes::u64_to_le_bytes;
use crate::params::Parameter;
use crate::params::InferParameter;
use crate::params::ParamModel;
use crate::params::spec_value_bytes;
use crate::pmap::ParamMap;
use crate::pmap::pm_insert;
use crate::pmap::pm_sorted;
use crate::matching::KeyListMap;
use crate::matching::klm_get;
use crate::matching::spec_keyed_map_equal;
use crate::hashing::blake2b64;
use crate::hashing::blake2b64_of;
use crate::hashing::blake2s256;
use crate::hashing::blake2s256_of;
use crate::protocol::ModelInferRequest;

verus! {

/// One input tensor's metadata inside a fingerprint.
#[derive(PartialEq, Debug)]
pub struct Input {
    pub name: String,
    pub datatype: String,
    pub shape: Vec<i64>,
    pub parameters: ParamMap,
}

/// The mathematical model of an [`Input`].
pub struct InputModel {
    pub name: Seq<char>,
    pub datatype: Seq<char>,
    pub shape: Seq<i64>,
    pub parameters: Seq<(Seq<char>, Option<ParamModel>)>,
}

impl View for Input {
    type V = InputModel;

    open spec fn view(&self) -> InputModel {
        InputModel {
            name: self.name@,
            datatype: self.datatype@,
            shape: self.shape@,
            parameters: self.parameters@,
        }
    }
}

impl DeepView for Input {
    type V = InputModel;

    open spec fn deep_view(&self) -> InputModel {
        self.view()
    }
}

/// One requested output tensor's metadata inside a fingerprint.
#[derive(PartialEq, Debug)]
pub struct Output {
    pub name: String,
    pub parameters: ParamMap,
}

/// The mathematical model of an [`Output`].
pub struct OutputModel {
    pub name: Seq<char>,
    pub parameters: Seq<(Seq<char>, Option<ParamModel>)>,
}

impl View for Output {
    type V = OutputModel;

    open spec fn view(&self) -> OutputModel {
        OutputModel { name: self.name@, parameters: self.parameters@ }
    }
}

impl DeepView for Output {
    type V = OutputModel;

    open spec fn deep_view(&self) -> OutputModel {
        self.view()
    }
}

/// The canonical fingerprint of an inference request.
#[derive(PartialEq, Debug)]
pub struct ProcessedInput {
    pub model_name: String,
    pub model_version: String,
    pub id: String,
    pub parameters: ParamMap,
    pub inputs: Vec<Input>,
    pub outputs: Vec<Output>,
    /// The 32-byte content hash of the raw input buffers, in order.
    pub content_hash: Vec<u8>,
}

/// The mathematical model of a [`ProcessedInput`].
pub struct ProcessedInputModel {
    pub model_name: Seq<char>,
    pub model_version: Seq<char>,
    pub id: Seq<char>,
    pub parameters: Seq<(Seq<char>, Option<ParamModel>)>,
    pub inputs: Seq<InputModel>,
    pub outputs: Seq<OutputModel>,
    pub content_hash: Seq<u8>,
}

impl View for ProcessedInput {
    type V = ProcessedInputModel;

    open spec fn view(&self) -> ProcessedInputModel {
        ProcessedInputModel {
            model_name: self.model_name@,
            model_version: self.model_version@,
            id: self.id@,
            parameters: self.parameters@,
            inputs: self.inputs.deep_view(),
            outputs: self.outputs.deep_view(),
            content_hash: self.content_hash@,
        }
    }
}

/// A well-formed fingerprint model: every parameter map in canonical order
/// and a 32-byte content hash.
pub open spec fn spec_input_wf(f: ProcessedInputModel) -> bool {
    &&& pm_sorted(f.parameters)
    &&& forall|i: int| 0 <= i < f.inputs.len() ==> pm_sorted((#[trigger] f.inputs[i]).parameters)
    &&& forall|i: int| 0 <= i < f.outputs.len() ==> pm_sorted((#[trigger] f.outputs[i]).parameters)
    &&& f.content_hash.len() == 32
}

impl ProcessedInput {
    /// Well-formed: canonical parameter order everywhere, 32-byte hash.
    pub open spec fn wf(&self) -> bool {
        spec_input_wf(self@)
    }
}

/// The canonical ordered form of a name/value pair list: pairs are inserted
/// in order, a later pair with an equal key replacing the earlier one.
pub open spec fn pm_canon(pairs: Seq<(Seq<char>, Option<ParamModel>)>) -> Seq<
    (Seq<char>, Option<ParamModel>),
>
    decreases pairs.len(),
{
    if pairs.len() == 0 {
        Seq::empty()
    } else {
        pm_insert(pm_canon(pairs.drop_last()), pairs.last().0, pairs.last().1)
    }
}

/// `pm_canon` always yields a canonically ordered map.
pub proof fn lemma_pm_canon_sorted(pairs: Seq<(Seq<char>, Option<ParamModel>)>)
    ensures
        pm_sorted(pm_canon(pairs)),
    decreases pairs.len(),
{
    if pairs.len() > 0 {
        lemma_pm_canon_sorted(pairs.drop_last());
        crate::pmap::lemma_pm_insert_sorted(
            pm_canon(pairs.drop_last()),
            pairs.last().0,
            pairs.last().1,
        );
    }
}

/// Builds the canonical ordered map from a wire pair list.
pub fn canonicalize_parameters(pairs: &Vec<(String, InferParameter)>) -> (r: ParamMap)
    ensures
        r.wf(),
        r@ == pm_canon(pairs.deep_view()),
{
    let n: usize = pairs.len();
    let mut m = ParamMap::new();
    let mut i: usize = 0;
    proof {
        assert(pairs.deep_view().subrange(0, 0) =~= Seq::<(Seq<char>, Option<ParamModel>)>::empty());
    }
    while i < n
        invariant
            n == pairs@.len(),
            pairs@.len() == pairs.deep_view().len(),
            i <= n,
            m.wf(),
            m@ == pm_canon(pairs.deep_view().subrange(0, i as int)),
        decreases n - i,
    {
        let key = pairs[i].0.clone();
        let value = Parameter::from_infer_parameter(crate::params::duplicate_infer(&pairs[i].1));
        proof {
            assert(pairs.deep_view()[i as int] == (pairs@[i as int].0@, pairs@[i as int].1@));
            assert(key@ == pairs.deep_view()[i as int].0);
            assert(value.deep_view() == pairs.deep_view()[i as int].1);
        }
        m.insert(key, value);
        proof {
            let p = pairs.deep_view();
            assert(p.subrange(0, i as int + 1).drop_last() =~= p.subrange(0, i as int));
            assert(p.subrange(0, i as int + 1).last() == p[i as int]);
        }
        i = i + 1;
    }
    proof {
        assert(pairs.deep_view().subrange(0, n as int) =~= pairs.deep_view());
    }
    m
}

/// The concatenation of a sequence of byte strings.
pub open spec fn flat_bytes(s: Seq<Seq<u8>>) -> Seq<u8>
    decreases s.len(),
{
    if s.len() == 0 {
        seq![]
    } else {
        s[0] + flat_bytes(s.drop_first())
    }
}

/// Concatenation of one more byte string extends the flattening.
pub proof fn lemma_flat_bytes_push(s: Seq<Seq<u8>>, x: Seq<u8>)
    ensures
        flat_bytes(s.push(x)) == flat_bytes(s) + x,
    decreases s.len(),
{
    if s.len() == 0 {
        assert(s.push(x).drop_first() =~= s);
        assert(flat_bytes(s.push(x)) =~= flat_bytes(s) + x);
    } else {
        lemma_flat_bytes_push(s.drop_first(), x);
        assert(s.push(x).drop_first() =~= s.drop_first().push(x));
        assert(s.push(x)[0] == s[0]);
        assert(flat_bytes(s.push(x)) == s[0] + flat_bytes(s.drop_first().push(x)));
        assert(flat_bytes(s.push(x)) =~= flat_bytes(s) + x);
    }
}

/// Concatenates a list of byte buffers into one.
pub fn concat_buffers(buffers: &Vec<Vec<u8>>) -> (r: Vec<u8>)
    ensures
        r@ == flat_bytes(buffers.deep_view()),
{
    let n: usize = buffers.len();
    let mut out: Vec<u8> = Vec::new();
    let mut i: usize = 0;
    proof {
        assert(buffers.deep_view().subrange(0, 0) =~= Seq::<Seq<u8>>::empty());
    }
    while i < n
        invariant
            n == buffers@.len(),
            buffers@.len() == buffers.deep_view().len(),
            i <= n,
            out@ == flat_bytes(buffers.deep_view().subrange(0, i as int)),
        decreases n - i,
    {
        out.extend_from_slice(buffers[i].as_slice());
        proof {
            let b = buffers.deep_view();
            assert(b[i as int] == buffers@[i as int]@);
            assert(b.subrange(0, i as int + 1) =~= b.subrange(0, i as int).push(b[i as int]));
            lemma_flat_bytes_push(b.subrange(0, i as int), b[i as int]);
        }
        i = i + 1;
    }
    proof {
        assert(buffers.deep_view().subrange(0, n as int) =~= buffers.deep_view());
    }
    out
}

/// The little-endian encoding of the shape dimensions, in order.
pub open spec fn shape_bytes(s: Seq<i64>) -> Seq<u8>
    decreases s.len(),
{
    if s.len() == 0 {
        seq![]
    } else {
        spec_u64_to_le_bytes(s[0] as u64) + shape_bytes(s.drop_first())
    }
}

proof fn lemma_shape_bytes_push(s: Seq<i64>, x: i64)
    ensures
        shape_bytes(s.push(x)) == shape_bytes(s) + spec_u64_to_le_bytes(x as u64),
    decreases s.len(),
{
    if s.len() == 0 {
        assert(s.push(x).drop_first() =~= s);
        assert(shape_bytes(s.push(x)) =~= shape_bytes(s) + spec_u64_to_le_bytes(x as u64));
    } else {
        lemma_shape_bytes_push(s.drop_first(), x);
        assert(s.push(x).drop_first() =~= s.drop_first().push(x));
        assert(s.push(x)[0] == s[0]);
        assert(shape_bytes(s.push(x)) =~= shape_bytes(s) + spec_u64_to_le_bytes(x as u64));
    }
}

/// The hashed form of one parameter map entry: the key's UTF-8 bytes, then
/// the value's canonical encoding; an absent value contributes nothing
/// beyond the key.
pub open spec fn param_entry_bytes(e: (Seq<char>, Option<ParamModel>)) -> Seq<u8> {
    encode_utf8(e.0) + match e.1 {
        Option::Some(v) => spec_value_bytes(v),
        Option::None => seq![],
    }
}

/// The hashed form of a parameter map: its entries in canonical order.
pub open spec fn params_bytes(m: Seq<(Seq<char>, Option<ParamModel>)>) -> Seq<u8>
    decreases m.len(),
{
    if m.len() == 0 {
        seq![]
    } else {
        param_entry_bytes(m[0]) + params_bytes(m.drop_first())
    }
}

proof fn lemma_params_bytes_push(
    m: Seq<(Seq<char>, Option<ParamModel>)>,
    e: (Seq<char>, Option<ParamModel>),
)
    ensures
        params_bytes(m.push(e)) == params_bytes(m) + param_entry_bytes(e),
    decreases m.len(),
{
    if m.len() == 0 {
        assert(m.push(e).drop_first() =~= m);
        assert(params_bytes(m.push(e)) =~= params_bytes(m) + param_entry_bytes(e));
    } else {
        lemma_params_bytes_push(m.drop_first(), e);
        assert(m.push(e).drop_first() =~= m.drop_first().push(e));
        assert(m.push(e)[0] == m[0]);
        assert(params_bytes(m.push(e)) =~= params_bytes(m) + param_entry_bytes(e));
    }
}

/// Appends the UTF-8 bytes of `s` to `out`.
pub fn append_str_bytes(out: &mut Vec<u8>, s: &str)
    ensures
        final(out)@ == old(out)@ + encode_utf8(s@),
{
    out.extend_from_slice(s.as_bytes());
}

/// Appends the little-endian encodings of the shape dimensions to `out`.
pub fn append_shape_bytes(out: &mut Vec<u8>, shape: &Vec<i64>)
    ensures
        final(out)@ == old(out)@ + shape_bytes(shape@),
{
    let n: usize = shape.len();
    let mut i: usize = 0;
    proof {
        assert(shape@.subrange(0, 0) =~= Seq::<i64>::empty());
        assert(old(out)@ + shape_bytes(shape@.subrange(0, 0)) =~= old(out)@);
    }
    while i < n
        invariant
            n == shape@.len(),
            i <= n,
            out@ == old(out)@ + shape_bytes(shape@.subrange(0, i as int)),
        decreases n - i,
    {
        let mut piece = u64_to_le_bytes(shape[i] as u64);
        out.append(&mut piece);
        proof {
            assert(shape@.subrange(0, i as int + 1) =~= shape@.subrange(0, i as int).push(
                shape@[i as int],
            ));
            lemma_shape_bytes_push(shape@.subrange(0, i as int), shape@[i as int]);
            assert(out@ =~= old(out)@ + shape_bytes(shape@.subrange(0, i as int + 1)));
        }
        i = i + 1;
    }
    proof {
        assert(shape@.subrange(0, n as int) =~= shape@);
    }
}

/// Appends the hashed form of a parameter map to `out`.
pub fn append_params_bytes(out: &mut Vec<u8>, m: &ParamMap)
    ensures
        final(out)@ == old(out)@ + params_bytes(m@),
{
    let n: usize = m.entries.len();
    let mut i: usize = 0;
    proof {
        assert(m@.subrange(0, 0) =~= Seq::<(Seq<char>, Option<ParamModel>)>::empty());
        assert(old(out)@ + params_bytes(m@.subrange(0, 0)) =~= old(out)@);
    }
    while i < n
        invariant
            n == m@.len(),
            i <= n,
            out@ == old(out)@ + params_bytes(m@.subrange(0, i as int)),
        decreases n - i,
    {
        append_str_bytes(out, m.entries[i].key.as_str());
        match &m.entries[i].value {
            Option::Some(v) => {
                let mut piece = v.as_bytes();
                out.append(&mut piece);
            },
            Option::None => {},
        }
        proof {
            assert(m@[i as int] == m.entries@[i as int].deep_view());
            assert(m@.subrange(0, i as int + 1) =~= m@.subrange(0, i as int).push(m@[i as int]));
            lemma_params_bytes_push(m@.subrange(0, i as int), m@[i as int]);
            assert(out@ =~= old(out)@ + params_bytes(m@.subrange(0, i as int + 1)));
        }
        i = i + 1;
    }
    proof {
        assert(m@.subrange(0, n as int) =~= m@);
    }
}

/// The preimage of the inputs hash: model name, model version, the content
/// hash, then each input's datatype, name and shape dimensions in order.
pub open spec fn inputs_hash_preimage(f: ProcessedInputModel) -> Seq<u8> {
    encode_utf8(f.model_name) + encode_utf8(f.model_version) + f.content_hash + inputs_meta_bytes(
        f.inputs,
    )
}

/// The hashed metadata of one input tensor.
pub open spec fn input_meta_bytes(t: InputModel) -> Seq<u8> {
    encode_utf8(t.datatype) + encode_utf8(t.name) + shape_bytes(t.shape)
}

/// The hashed metadata of the input tensors, in order.
pub open spec fn inputs_meta_bytes(s: Seq<InputModel>) -> Seq<u8>
    decreases s.len(),
{
    if s.len() == 0 {
        seq![]
    } else {
        input_meta_bytes(s[0]) + inputs_meta_bytes(s.drop_first())
    }
}

proof fn lemma_inputs_meta_bytes_push(s: Seq<InputModel>, x: InputModel)
    ensures
        inputs_meta_bytes(s.push(x)) == inputs_meta_bytes(s) + input_meta_bytes(x),
    decreases s.len(),
{
    if s.len() == 0 {
        assert(s.push(x).drop_first() =~= s);
        assert(inputs_meta_bytes(s.push(x)) =~= inputs_meta_bytes(s) + input_meta_bytes(x));
    } else {
        lemma_inputs_meta_bytes_push(s.drop_first(), x);
        assert(s.push(x).drop_first() =~= s.drop_first().push(x));
        assert(s.push(x)[0] == s[0]);
        assert(inputs_meta_bytes(s.push(x)) =~= inputs_meta_bytes(s) + input_meta_bytes(x));
    }
}

/// The preimage of the outputs hash: each requested output's name, in order.
pub open spec fn outputs_hash_preimage(f: ProcessedInputModel) -> Seq<u8> {
    outputs_name_bytes(f.outputs)
}

/// The names of the requested outputs, in order.
pub open spec fn outputs_name_bytes(s: Seq<OutputModel>) -> Seq<u8>
    decreases s.len(),
{
    if s.len() == 0 {
        seq![]
    } else {
        encode_utf8(s[0].name) + outputs_name_bytes(s.drop_first())
    }
}

proof fn lemma_outputs_name_bytes_push(s: Seq<OutputModel>, x: OutputModel)
    ensures
        outputs_name_bytes(s.push(x)) == outputs_name_bytes(s) + encode_utf8(x.name),
    decreases s.len(),
{
    if s.len() == 0 {
        assert(s.push(x).drop_first() =~= s);
        assert(outputs_name_bytes(s.push(x)) =~= outputs_name_bytes(s) + encode_utf8(x.name));
    } else {
        lemma_outputs_name_bytes_push(s.drop_first(), x);
        assert(s.push(x).drop_first() =~= s.drop_first().push(x));
        assert(s.push(x)[0] == s[0]);
        assert(outputs_name_bytes(s.push(x)) =~= outputs_name_bytes(s) + encode_utf8(x.name));
    }
}

/// The parameter maps of the input tensors, in order, in hashed form.
pub open spec fn inputs_params_bytes(s: Seq<InputModel>) -> Seq<u8>
    decreases s.len(),
{
    if s.len() == 0 {
        seq![]
    } else {
        params_bytes(s[0].parameters) + inputs_params_bytes(s.drop_first())
    }
}

proof fn lemma_inputs_params_bytes_push(s: Seq<InputModel>, x: InputModel)
    ensures
        inputs_params_bytes(s.push(x)) == inputs_params_bytes(s) + params_bytes(x.parameters),
    decreases s.len(),
{
    if s.len() == 0 {
        assert(s.push(x).drop_first() =~= s);
        assert(inputs_params_bytes(s.push(x)) =~= inputs_params_bytes(s) + params_bytes(
            x.parameters,
        ));
    } else {
        lemma_inputs_params_bytes_push(s.drop_first(), x);
        assert(s.push(x).drop_first() =~= s.drop_first().push(x));
        assert(s.push(x)[0] == s[0]);
        assert(inputs_params_bytes(s.push(x)) =~= inputs_params_bytes(s) + params_bytes(
            x.parameters,
        ));
    }
}

/// The parameter maps of the requested outputs, in order, in hashed form.
pub open spec fn outputs_params_bytes(s: Seq<OutputModel>) -> Seq<u8>
    decreases s.len(),
{
    if s.len() == 0 {
        seq![]
    } else {
        params_bytes(s[0].parameters) + outputs_params_bytes(s.drop_first())
    }
}

proof fn lemma_outputs_params_bytes_push(s: Seq<OutputModel>, x: OutputModel)
    ensures
        outputs_params_bytes(s.push(x)) == outputs_params_bytes(s) + params_bytes(x.parameters),
    decreases s.len(),
{
    if s.len() == 0 {
        assert(s.push(x).drop_first() =~= s);
        assert(outputs_params_bytes(s.push(x)) =~= outputs_params_bytes(s) + params_bytes(
            x.parameters,
        ));
    } else {
        lemma_outputs_params_bytes_push(s.drop_first(), x);
        assert(s.push(x).drop_first() =~= s.drop_first().push(x));
        assert(s.push(x)[0] == s[0]);
        assert(outputs_params_bytes(s.push(x)) =~= outputs_params_bytes(s) + params_bytes(
            x.parameters,
        ));
    }
}

/// The preimage of the metadata hash: the request id, then every parameter
/// map in canonical order, top level first, then per input, then per output.
pub open spec fn metadata_hash_preimage(f: ProcessedInputModel) -> Seq<u8> {
    encode_utf8(f.id) + params_bytes(f.parameters) + inputs_params_bytes(f.inputs)
        + outputs_params_bytes(f.outputs)
}

/// The canonical fingerprint of a wire request, as a function of the
/// request's model.
pub open spec fn spec_fingerprint(req: crate::protocol::ModelInferRequestModel)
    -> ProcessedInputModel {
    ProcessedInputModel {
        model_name: req.model_name,
        model_version: req.model_version,
        id: req.id,
        parameters: pm_canon(req.parameters),
        inputs: req.inputs.map_values(
            |t: crate::protocol::InferInputTensorModel|
                InputModel {
                    name: t.name,
                    datatype: t.datatype,
                    shape: t.shape,
                    parameters: pm_canon(t.parameters),
                },
        ),
        outputs: req.outputs.map_values(
            |t: crate::protocol::InferRequestedOutputTensorModel|
                OutputModel { name: t.name, parameters: pm_canon(t.parameters) },
        ),
        content_hash: blake2s256_of(flat_bytes(req.raw_input_contents)),
    }
}

impl ProcessedInput {
    /// The 8-byte hash over the model identity, the content hash and the
    /// input tensor metadata.
    pub fn inputs_hash(&self) -> (r: Vec<u8>)
        ensures
            r@ == blake2b64_of(inputs_hash_preimage(self@)),
            r@.len() == 8,
    {
        let mut data: Vec<u8> = Vec::new();
        append_str_bytes(&mut data, self.model_name.as_str());
        append_str_bytes(&mut data, self.model_version.as_str());
        data.extend_from_slice(self.content_hash.as_slice());
        let n: usize = self.inputs.len();
        let mut i: usize = 0;
        let ghost base = data@;
        proof {
            assert(self@.inputs.subrange(0, 0) =~= Seq::<InputModel>::empty());
            assert(base + inputs_meta_bytes(self@.inputs.subrange(0, 0)) =~= base);
        }
        while i < n
            invariant
                n == self@.inputs.len(),
                self@.inputs.len() == self.inputs@.len(),
                data@ == base + inputs_meta_bytes(self@.inputs.subrange(0, i as int)),
                i <= n,
            decreases n - i,
        {
            let t = &self.inputs[i];
            append_str_bytes(&mut data, t.datatype.as_str());
            append_str_bytes(&mut data, t.name.as_str());
            append_shape_bytes(&mut data, &t.shape);
            proof {
                let s = self@.inputs;
                assert(s[i as int] == self.inputs@[i as int].deep_view());
                assert(s.subrange(0, i as int + 1) =~= s.subrange(0, i as int).push(s[i as int]));
                lemma_inputs_meta_bytes_push(s.subrange(0, i as int), s[i as int]);
                assert(data@ =~= base + inputs_meta_bytes(s.subrange(0, i as int + 1)));
            }
            i = i + 1;
        }
        proof {
            assert(self@.inputs.subrange(0, n as int) =~= self@.inputs);
            assert(data@ =~= inputs_hash_preimage(self@));
        }
        blake2b64(&data)
    }

    /// The 8-byte hash over the requested output names.
    pub fn outputs_hash(&self) -> (r: Vec<u8>)
        ensures
            r@ == blake2b64_of(outputs_hash_preimage(self@)),
            r@.len() == 8,
    {
        let mut data: Vec<u8> = Vec::new();
        let n: usize = self.outputs.len();
        let mut i: usize = 0;
        proof {
            assert(self@.outputs.subrange(0, 0) =~= Seq::<OutputModel>::empty());
            assert(data@ =~= Seq::<u8>::empty() + outputs_name_bytes(self@.outputs.subrange(0, 0)));
        }
        while i < n
            invariant
                n == self@.outputs.len(),
                self@.outputs.len() == self.outputs@.len(),
                data@ == Seq::<u8>::empty() + outputs_name_bytes(self@.outputs.subrange(0, i as int)),
                i <= n,
            decreases n - i,
        {
            append_str_bytes(&mut data, self.outputs[i].name.as_str());
            proof {
                let s = self@.outputs;
                assert(s[i as int] == self.outputs@[i as int].deep_view());
                assert(s.subrange(0, i as int + 1) =~= s.subrange(0, i as int).push(s[i as int]));
                lemma_outputs_name_bytes_push(s.subrange(0, i as int), s[i as int]);
                assert(data@ =~= Seq::<u8>::empty() + outputs_name_bytes(
                    s.subrange(0, i as int + 1),
                ));
            }
            i = i + 1;
        }
        proof {
            assert(self@.outputs.subrange(0, n as int) =~= self@.outputs);
            assert(data@ =~= outputs_hash_preimage(self@));
        }
        blake2b64(&data)
    }

    /// The 8-byte hash over the request id and every parameter map.
    pub fn metadata_hash(&self) -> (r: Vec<u8>)
        ensures
            r@ == blake2b64_of(metadata_hash_preimage(self@)),
            r@.len() == 8,
    {
        let mut data: Vec<u8> = Vec::new();
        append_str_bytes(&mut data, self.id.as_str());
        append_params_bytes(&mut data, &self.parameters);
        let ghost base = data@;
        let n: usize = self.inputs.len();
        let mut i: usize = 0;
        proof {
            assert(self@.inputs.subrange(0, 0) =~= Seq::<InputModel>::empty());
            assert(base + inputs_params_bytes(self@.inputs.subrange(0, 0)) =~= base);
        }
        while i < n
            invariant
                n == self@.inputs.len(),
                self@.inputs.len() == self.inputs@.len(),
                data@ == base + inputs_params_bytes(self@.inputs.subrange(0, i as int)),
                i <= n,
            decreases n - i,
        {
            append_params_bytes(&mut data, &self.inputs[i].parameters);
            proof {
                let s = self@.inputs;
                assert(s[i as int] == self.inputs@[i as int].deep_view());
                assert(s.subrange(0, i as int + 1) =~= s.subrange(0, i as int).push(s[i as int]));
                lemma_inputs_params_bytes_push(s.subrange(0, i as int), s[i as int]);
                assert(data@ =~= base + inputs_params_bytes(s.subrange(0, i as int + 1)));
            }
            i = i + 1;
        }
        proof {
            assert(self@.inputs.subrange(0, n as int) =~= self@.inputs);
        }
        let ghost base2 = data@;
        let n2: usize = self.outputs.len();
        let mut j: usize = 0;
        proof {
            assert(self@.outputs.subrange(0, 0) =~= Seq::<OutputModel>::empty());
            assert(base2 + outputs_params_bytes(self@.outputs.subrange(0, 0)) =~= base2);
        }
        while j < n2
            invariant
                n2 == self@.outputs.len(),
                self@.outputs.len() == self.outputs@.len(),
                data@ == base2 + outputs_params_bytes(self@.outputs.subrange(0, j as int)),
                j <= n2,
            decreases n2 - j,
        {
            append_params_bytes(&mut data, &self.outputs[j].parameters);
            proof {
                let s = self@.outputs;
                assert(s[j as int] == self.outputs@[j as int].deep_view());
                assert(s.subrange(0, j as int + 1) =~= s.subrange(0, j as int).push(s[j as int]));
                lemma_outputs_params_bytes_push(s.subrange(0, j as int), s[j as int]);
                assert(data@ =~= base2 + outputs_params_bytes(s.subrange(0, j as int + 1)));
            }
            j = j + 1;
        }
        proof {
            assert(self@.outputs.subrange(0, n2 as int) =~= self@.outputs);
            assert(data@ =~= metadata_hash_preimage(self@));
        }
        blake2b64(&data)
    }

    /// Parses a wire inference request into its canonical fingerprint: the
    /// identifying triple is carried over, every parameter map is put in
    /// canonical order, and the content hash is the 32-byte digest of the
    /// raw input buffers concatenated in order.
    pub fn from_infer_request(req: &ModelInferRequest) -> (r: ProcessedInput)
        ensures
            r.wf(),
            r@ == spec_fingerprint(req@),
    {
        let content = concat_buffers(&req.raw_input_contents);
        let content_hash = blake2s256(&content);
        let parameters = canonicalize_parameters(&req.parameters);

        let n_in: usize = req.inputs.len();
        let mut inputs: Vec<Input> = Vec::new();
        let mut i: usize = 0;
        while i < n_in
            invariant
                n_in == req.inputs@.len(),
                req.inputs@.len() == req@.inputs.len(),
                i <= n_in,
                inputs@.len() == i,
                forall|j: int|
                    0 <= j < i ==> {
                        &&& (#[trigger] inputs@[j])@.name == req@.inputs[j].name
                        &&& inputs@[j]@.datatype == req@.inputs[j].datatype
                        &&& inputs@[j]@.shape == req@.inputs[j].shape
                        &&& inputs@[j]@.parameters == pm_canon(req@.inputs[j].parameters)
                        &&& pm_sorted(inputs@[j]@.parameters)
                    },
            decreases n_in - i,
        {
            let t = &req.inputs[i];
            let input = Input {
                name: t.name.clone(),
                datatype: t.datatype.clone(),
                shape: vstd::slice::slice_to_vec(t.shape.as_slice()),
                parameters: canonicalize_parameters(&t.parameters),
            };
            proof {
                assert(req@.inputs[i as int] == req.inputs@[i as int].deep_view());
            }
            inputs.push(input);
            i = i + 1;
        }

        let n_out: usize = req.outputs.len();
        let mut outputs: Vec<Output> = Vec::new();
        let mut j: usize = 0;
        while j < n_out
            invariant
                n_out == req.outputs@.len(),
                req.outputs@.len() == req@.outputs.len(),
                j <= n_out,
                outputs@.len() == j,
                forall|k: int|
                    0 <= k < j ==> {
                        &&& (#[trigger] outputs@[k])@.name == req@.outputs[k].name
                        &&& outputs@[k]@.parameters == pm_canon(req@.outputs[k].parameters)
                        &&& pm_sorted(outputs@[k]@.parameters)
                    },
            decreases n_out - j,
        {
            let t = &req.outputs[j];
            let output = Output {
                name: t.name.clone(),
                parameters: canonicalize_parameters(&t.parameters),
            };
            proof {
                assert(req@.outputs[j as int] == req.outputs@[j as int].deep_view());
            }
            outputs.push(output);
            j = j + 1;
        }

        let r = ProcessedInput {
            model_name: req.model_name.clone(),
            model_version: req.model_version.clone(),
            id: req.id.clone(),
            parameters,
            inputs,
            outputs,
            content_hash,
        };
        proof {
            assert forall|i2: int| 0 <= i2 < req@.inputs.len() implies {
                &&& (#[trigger] r@.inputs[i2]).name == req@.inputs[i2].name
                &&& r@.inputs[i2].datatype == req@.inputs[i2].datatype
                &&& r@.inputs[i2].shape == req@.inputs[i2].shape
                &&& r@.inputs[i2].parameters == pm_canon(req@.inputs[i2].parameters)
            } by {
                assert(r@.inputs[i2] == r.inputs@[i2].deep_view());
            }
            assert forall|i2: int| 0 <= i2 < req@.outputs.len() implies {
                &&& (#[trigger] r@.outputs[i2]).name == req@.outputs[i2].name
                &&& r@.outputs[i2].parameters == pm_canon(req@.outputs[i2].parameters)
            } by {
                assert(r@.outputs[i2] == r.outputs@[i2].deep_view());
            }
            assert forall|i2: int| 0 <= i2 < r@.inputs.len() implies pm_sorted(
                (#[trigger] r@.inputs[i2]).parameters,
            ) by {
                assert(r@.inputs[i2] == r.inputs@[i2].deep_view());
            }
            assert forall|i2: int| 0 <= i2 < r@.outputs.len() implies pm_sorted(
                (#[trigger] r@.outputs[i2]).parameters,
            ) by {
                assert(r@.outputs[i2] == r.outputs@[i2].deep_view());
            }
            assert(r@.inputs =~= spec_fingerprint(req@).inputs);
            assert(r@.outputs =~= spec_fingerprint(req@).outputs);
            assert(r@ == spec_fingerprint(req@));
        }
        r
    }
}

/// The configured equivalence relation over fingerprints: whether ids must
/// agree, and which parameter keys are compared or ignored at the top
/// level, per input tensor and per requested output.
pub struct MatchConfig {
    pub match_id: bool,
    pub parameter_keys: Vec<String>,
    pub exclude_parameters: bool,
    pub input_parameter_keys: KeyListMap,
    pub exclude_input_parameters: bool,
    pub output_parameter_keys: KeyListMap,
    pub exclude_output_parameters: bool,
    pub match_pruned_output: bool,
}

/// The mathematical model of a [`MatchConfig`].
pub struct MatchConfigModel {
    pub match_id: bool,
    pub parameter_keys: Seq<Seq<char>>,
    pub exclude_parameters: bool,
    pub input_parameter_keys: Seq<(Seq<char>, Seq<Seq<char>>)>,
    pub exclude_input_parameters: bool,
    pub output_parameter_keys: Seq<(Seq<char>, Seq<Seq<char>>)>,
    pub exclude_output_parameters: bool,
    pub match_pruned_output: bool,
}

impl View for MatchConfig {
    type V = MatchConfigModel;

    open spec fn view(&self) -> MatchConfigModel {
        MatchConfigModel {
            match_id: self.match_id,
            parameter_keys: self.parameter_keys.deep_view(),
            exclude_parameters: self.exclude_parameters,
            input_parameter_keys: self.input_parameter_keys@,
            exclude_input_parameters: self.exclude_input_parameters,
            output_parameter_keys: self.output_parameter_keys@,
            exclude_output_parameters: self.exclude_output_parameters,
            match_pruned_output: self.match_pruned_output,
        }
    }
}

impl Default for MatchConfig {
    /// The default policy: ids ignored, every parameter compared at every
    /// level, pruned outputs accepted.
    fn default() -> (r: MatchConfig)
        ensures
            r@.match_id == false,
            r@.parameter_keys == Seq::<Seq<char>>::empty(),
            r@.exclude_parameters == true,
            r@.input_parameter_keys == Seq::<(Seq<char>, Seq<Seq<char>>)>::empty(),
            r@.exclude_input_parameters == true,
            r@.output_parameter_keys == Seq::<(Seq<char>, Seq<Seq<char>>)>::empty(),
            r@.exclude_output_parameters == true,
            r@.match_pruned_output == true,
    {
        let r = MatchConfig {
            match_id: false,
            parameter_keys: Vec::new(),
            exclude_parameters: true,
            input_parameter_keys: KeyListMap::new(),
            exclude_input_parameters: true,
            output_parameter_keys: KeyListMap::new(),
            exclude_output_parameters: true,
            match_pruned_output: true,
        };
        proof {
            assert(r@.parameter_keys =~= Seq::<Seq<char>>::empty());
        }
        r
    }
}

/// No later input tensor carries the same name: the entry at `i` is the one
/// a name-keyed lookup would see.
pub open spec fn last_input_with_name(s: Seq<InputModel>, i: int) -> bool {
    forall|k: int| i < k < s.len() ==> (#[trigger] s[k]).name != s[i].name
}

/// No later output tensor carries the same name.
pub open spec fn last_output_with_name(s: Seq<OutputModel>, i: int) -> bool {
    forall|k: int| i < k < s.len() ==> (#[trigger] s[k]).name != s[i].name
}

/// Whether one input tensor of a fingerprint is compatible with the
/// like-named tensor of another: equal name, datatype and shape, and
/// parameters equal under the per-input key policy.
pub open spec fn input_pair_matches(x: InputModel, y: InputModel, c: MatchConfigModel) -> bool {
    &&& x.name == y.name
    &&& x.datatype == y.datatype
    &&& x.shape == y.shape
    &&& spec_keyed_map_equal(
        x.parameters,
        y.parameters,
        klm_get(c.input_parameter_keys, x.name),
        c.exclude_input_parameters,
    )
}

/// Whether one requested output is compatible with the like-named output of
/// another fingerprint.
pub open spec fn output_pair_matches(x: OutputModel, y: OutputModel, c: MatchConfigModel) -> bool {
    &&& x.name == y.name
    &&& spec_keyed_map_equal(
        x.parameters,
        y.parameters,
        klm_get(c.output_parameter_keys, x.name),
        c.exclude_output_parameters,
    )
}

/// Some last-named input of `b` is compatible with the input of `a` at `i`.
pub open spec fn input_covered(
    a: Seq<InputModel>,
    b: Seq<InputModel>,
    c: MatchConfigModel,
    i: int,
) -> bool {
    exists|j: int|
        0 <= j < b.len() && last_input_with_name(b, j) && input_pair_matches(
            a[i],
            #[trigger] b[j],
            c,
        )
}

/// Every input name of `a` (at its last occurrence) is present in `b` with
/// compatible metadata and parameters.
pub open spec fn inputs_compatible(
    a: Seq<InputModel>,
    b: Seq<InputModel>,
    c: MatchConfigModel,
) -> bool {
    forall|i: int|
        0 <= i < a.len() && last_input_with_name(a, i) ==> #[trigger] input_covered(a, b, c, i)
}

/// Some last-named output of `b` is compatible with the output of `a` at `i`.
pub open spec fn output_covered(
    a: Seq<OutputModel>,
    b: Seq<OutputModel>,
    c: MatchConfigModel,
    i: int,
) -> bool {
    exists|j: int|
        0 <= j < b.len() && last_output_with_name(b, j) && output_pair_matches(
            a[i],
            #[trigger] b[j],
            c,
        )
}

/// Every output name of `a` (at its last occurrence) is present in `b` with
/// compatible parameters.
pub open spec fn outputs_compatible(
    a: Seq<OutputModel>,
    b: Seq<OutputModel>,
    c: MatchConfigModel,
) -> bool {
    forall|i: int|
        0 <= i < a.len() && last_output_with_name(a, i) ==> #[trigger] output_covered(a, b, c, i)
}

/// The configured equivalence relation over fingerprints. Model name,
/// model version and content hash must always agree; the id only when the
/// policy says so; the three levels of parameter maps under their key
/// policies; and input and output tensors are matched by name, names of
/// `a` all present in `b`.
pub open spec fn spec_matches(
    a: ProcessedInputModel,
    b: ProcessedInputModel,
    c: MatchConfigModel,
) -> bool {
    &&& a.model_name == b.model_name
    &&& a.model_version == b.model_version
    &&& a.content_hash == b.content_hash
    &&& (c.match_id ==> a.id == b.id)
    &&& spec_keyed_map_equal(a.parameters, b.parameters, c.parameter_keys, c.exclude_parameters)
    &&& inputs_compatible(a.inputs, b.inputs, c)
    &&& outputs_compatible(a.outputs, b.outputs, c)
}

/// Two last occurrences of the same input name are the same entry.
proof fn lemma_last_input_unique(s: Seq<InputModel>, j1: int, j2: int)
    requires
        0 <= j1 < s.len(),
        0 <= j2 < s.len(),
        last_input_with_name(s, j1),
        last_input_with_name(s, j2),
        s[j1].name == s[j2].name,
    ensures
        j1 == j2,
{
    if j1 < j2 {
        assert(s[j2].name != s[j1].name);
    }
    if j2 < j1 {
        assert(s[j1].name != s[j2].name);
    }
}

/// Two last occurrences of the same output name are the same entry.
proof fn lemma_last_output_unique(s: Seq<OutputModel>, j1: int, j2: int)
    requires
        0 <= j1 < s.len(),
        0 <= j2 < s.len(),
        last_output_with_name(s, j1),
        last_output_with_name(s, j2),
        s[j1].name == s[j2].name,
    ensures
        j1 == j2,
{
    if j1 < j2 {
        assert(s[j2].name != s[j1].name);
    }
    if j2 < j1 {
        assert(s[j1].name != s[j2].name);
    }
}

/// An input name of `a` that `b` does not carry refutes compatibility.
proof fn lemma_inputs_incompatible_missing(
    a: Seq<InputModel>,
    b: Seq<InputModel>,
    c: MatchConfigModel,
    i: int,
)
    requires
        0 <= i < a.len(),
        last_input_with_name(a, i),
        forall|k: int| 0 <= k < b.len() ==> (#[trigger] b[k]).name != a[i].name,
    ensures
        !inputs_compatible(a, b, c),
{
    if inputs_compatible(a, b, c) {
        assert(input_covered(a, b, c, i));
        let j = choose|j: int|
            0 <= j < b.len() && last_input_with_name(b, j) && input_pair_matches(
                a[i],
                #[trigger] b[j],
                c,
            );
        assert(b[j].name != a[i].name);
    }
}

/// A failed comparison at the last like-named input of `b` refutes
/// compatibility.
proof fn lemma_inputs_incompatible_at(
    a: Seq<InputModel>,
    b: Seq<InputModel>,
    c: MatchConfigModel,
    i: int,
    j: int,
)
    requires
        0 <= i < a.len(),
        last_input_with_name(a, i),
        0 <= j < b.len(),
        last_input_with_name(b, j),
        b[j].name == a[i].name,
        !input_pair_matches(a[i], b[j], c),
    ensures
        !inputs_compatible(a, b, c),
{
    if inputs_compatible(a, b, c) {
        assert(input_covered(a, b, c, i));
        let j2 = choose|j2: int|
            0 <= j2 < b.len() && last_input_with_name(b, j2) && input_pair_matches(
                a[i],
                #[trigger] b[j2],
                c,
            );
        lemma_last_input_unique(b, j, j2);
    }
}

/// An output name of `a` that `b` does not carry refutes compatibility.
proof fn lemma_outputs_incompatible_missing(
    a: Seq<OutputModel>,
    b: Seq<OutputModel>,
    c: MatchConfigModel,
    i: int,
)
    requires
        0 <= i < a.len(),
        last_output_with_name(a, i),
        forall|k: int| 0 <= k < b.len() ==> (#[trigger] b[k]).name != a[i].name,
    ensures
        !outputs_compatible(a, b, c),
{
    if outputs_compatible(a, b, c) {
        assert(output_covered(a, b, c, i));
        let j = choose|j: int|
            0 <= j < b.len() && last_output_with_name(b, j) && output_pair_matches(
                a[i],
                #[trigger] b[j],
                c,
            );
        assert(b[j].name != a[i].name);
    }
}

/// A failed comparison at the last like-named output of `b` refutes
/// compatibility.
proof fn lemma_outputs_incompatible_at(
    a: Seq<OutputModel>,
    b: Seq<OutputModel>,
    c: MatchConfigModel,
    i: int,
    j: int,
)
    requires
        0 <= i < a.len(),
        last_output_with_name(a, i),
        0 <= j < b.len(),
        last_output_with_name(b, j),
        b[j].name == a[i].name,
        !output_pair_matches(a[i], b[j], c),
    ensures
        !outputs_compatible(a, b, c),
{
    if outputs_compatible(a, b, c) {
        assert(output_covered(a, b, c, i));
        let j2 = choose|j2: int|
            0 <= j2 < b.len() && last_output_with_name(b, j2) && output_pair_matches(
                a[i],
                #[trigger] b[j2],
                c,
            );
        lemma_last_output_unique(b, j, j2);
    }
}

/// Whether a later input tensor carries the same name as the one at `i`.
fn input_has_later_with_name(v: &Vec<Input>, i: usize) -> (r: bool)
    requires
        i < v@.len(),
    ensures
        r == !last_input_with_name(v.deep_view(), i as int),
{
    let n: usize = v.len();
    let mut k: usize = i + 1;
    while k < n
        invariant
            n == v@.len(),
            i < k,
            k <= n,
            forall|k2: int| i < k2 < k ==> (#[trigger] v.deep_view()[k2]).name != v.deep_view()[
                i as int
            ].name,
        decreases n - k,
    {
        if crate::pmap::str_equal(v[k].name.as_str(), v[i].name.as_str()) {
            proof {
                assert(v.deep_view()[k as int].name == v.deep_view()[i as int].name);
            }
            return true;
        }
        proof {
            assert(v.deep_view()[k as int] == v@[k as int].deep_view());
        }
        k = k + 1;
    }
    false
}

/// The last input tensor carrying `name`, when one exists.
fn find_last_input_with_name(v: &Vec<Input>, name: &str) -> (r: Option<usize>)
    ensures
        match r {
            Option::Some(j) => j < v@.len() && v.deep_view()[j as int].name == name@
                && last_input_with_name(v.deep_view(), j as int),
            Option::None => forall|k: int|
                0 <= k < v@.len() ==> (#[trigger] v.deep_view()[k]).name != name@,
        },
{
    let mut j: usize = v.len();
    while j > 0
        invariant
            j <= v@.len(),
            forall|k: int| j <= k < v@.len() ==> (#[trigger] v.deep_view()[k]).name != name@,
        decreases j,
    {
        j = j - 1;
        if crate::pmap::str_equal(v[j].name.as_str(), name) {
            proof {
                assert(v.deep_view()[j as int].name == name@);
            }
            return Some(j);
        }
        proof {
            assert(v.deep_view()[j as int] == v@[j as int].deep_view());
        }
    }
    None
}

/// Whether a later requested output carries the same name as the one at `i`.
fn output_has_later_with_name(v: &Vec<Output>, i: usize) -> (r: bool)
    requires
        i < v@.len(),
    ensures
        r == !last_output_with_name(v.deep_view(), i as int),
{
    let n: usize = v.len();
    let mut k: usize = i + 1;
    while k < n
        invariant
            n == v@.len(),
            i < k,
            k <= n,
            forall|k2: int| i < k2 < k ==> (#[trigger] v.deep_view()[k2]).name != v.deep_view()[
                i as int
            ].name,
        decreases n - k,
    {
        if crate::pmap::str_equal(v[k].name.as_str(), v[i].name.as_str()) {
            proof {
                assert(v.deep_view()[k as int].name == v.deep_view()[i as int].name);
            }
            return true;
        }
        proof {
            assert(v.deep_view()[k as int] == v@[k as int].deep_view());
        }
        k = k + 1;
    }
    false
}

/// The last requested output carrying `name`, when one exists.
fn find_last_output_with_name(v: &Vec<Output>, name: &str) -> (r: Option<usize>)
    ensures
        match r {
            Option::Some(j) => j < v@.len() && v.deep_view()[j as int].name == name@
                && last_output_with_name(v.deep_view(), j as int),
            Option::None => forall|k: int|
                0 <= k < v@.len() ==> (#[trigger] v.deep_view()[k]).name != name@,
        },
{
    let mut j: usize = v.len();
    while j > 0
        invariant
            j <= v@.len(),
            forall|k: int| j <= k < v@.len() ==> (#[trigger] v.deep_view()[k]).name != name@,
        decreases j,
    {
        j = j - 1;
        if crate::pmap::str_equal(v[j].name.as_str(), name) {
            proof {
                assert(v.deep_view()[j as int].name == name@);
            }
            return Some(j);
        }
        proof {
            assert(v.deep_view()[j as int] == v@[j as int].deep_view());
        }
    }
    None
}

/// Whether two shapes are equal, dimension by dimension.
fn shape_equal(a: &Vec<i64>, b: &Vec<i64>) -> (r: bool)
    ensures
        r == (a@ == b@),
{
    if a.len() != b.len() {
        return false;
    }
    let n: usize = a.len();
    let mut i: usize = 0;
    while i < n
        invariant
            n == a@.len() == b@.len(),
            i <= n,
            forall|j: int| 0 <= j < i ==> a@[j] == b@[j],
        decreases n - i,
    {
        if a[i] != b[i] {
            return false;
        }
        i = i + 1;
    }
    proof {
        assert(a@ =~= b@);
    }
    true
}

impl ProcessedInput {
    /// Whether `other_input` is compatible with this fingerprint under the
    /// configured equivalence relation.
    pub fn matches(&self, other_input: &ProcessedInput, config: &MatchConfig) -> (r: bool)
        requires
            self.wf(),
            other_input.wf(),
        ensures
            r == spec_matches(self@, other_input@, config@),
    {
        if !crate::pmap::str_equal(self.model_name.as_str(), other_input.model_name.as_str()) {
            return false;
        }
        if !crate::pmap::str_equal(
            self.model_version.as_str(),
            other_input.model_version.as_str(),
        ) {
            return false;
        }
        if !crate::pmap::bytes_equal(
            self.content_hash.as_slice(),
            other_input.content_hash.as_slice(),
        ) {
            return false;
        }
        if config.match_id && !crate::pmap::str_equal(self.id.as_str(), other_input.id.as_str()) {
            return false;
        }
        if !crate::matching::btreemap_compare(
            &self.parameters,
            &other_input.parameters,
            &config.parameter_keys,
            config.exclude_parameters,
        ) {
            return false;
        }

        let n_in: usize = self.inputs.len();
        let mut i: usize = 0;
        while i < n_in
            invariant
                self.wf(),
                other_input.wf(),
                n_in == self@.inputs.len(),
                self@.inputs.len() == self.inputs@.len(),
                i <= n_in,
                forall|i2: int|
                    0 <= i2 < i && last_input_with_name(self@.inputs, i2)
                        ==> #[trigger] input_covered(
                        self@.inputs,
                        other_input@.inputs,
                        config@,
                        i2,
                    ),
            decreases n_in - i,
        {
            if !input_has_later_with_name(&self.inputs, i) {
                let x = &self.inputs[i];
                proof {
                    assert(self@.inputs[i as int] == self.inputs@[i as int].deep_view());
                }
                match find_last_input_with_name(&other_input.inputs, x.name.as_str()) {
                    Option::None => {
                        proof {
                            lemma_inputs_incompatible_missing(
                                self@.inputs,
                                other_input@.inputs,
                                config@,
                                i as int,
                            );
                        }
                        return false;
                    },
                    Option::Some(j) => {
                        let y = &other_input.inputs[j];
                        proof {
                            assert(other_input@.inputs[j as int] == other_input.inputs@[
                                j as int
                            ].deep_view());
                        }
                        let ok = crate::pmap::str_equal(x.datatype.as_str(), y.datatype.as_str())
                            && shape_equal(&x.shape, &y.shape)
                            && config.input_parameter_keys.compare_for(
                            x.name.as_str(),
                            &x.parameters,
                            &y.parameters,
                            config.exclude_input_parameters,
                        );
                        if !ok {
                            proof {
                                assert(!input_pair_matches(
                                    self@.inputs[i as int],
                                    other_input@.inputs[j as int],
                                    config@,
                                ));
                                lemma_inputs_incompatible_at(
                                    self@.inputs,
                                    other_input@.inputs,
                                    config@,
                                    i as int,
                                    j as int,
                                );
                            }
                            return false;
                        }
                        proof {
                            assert(input_pair_matches(
                                self@.inputs[i as int],
                                other_input@.inputs[j as int],
                                config@,
                            ));
                            assert(input_covered(
                                self@.inputs,
                                other_input@.inputs,
                                config@,
                                i as int,
                            ));
                        }
                    },
                }
            }
            i = i + 1;
        }

        let n_out: usize = self.outputs.len();
        let mut o: usize = 0;
        while o < n_out
            invariant
                self.wf(),
                other_input.wf(),
                n_out == self@.outputs.len(),
                self@.outputs.len() == self.outputs@.len(),
                o <= n_out,
                forall|i2: int|
                    0 <= i2 < o && last_output_with_name(self@.outputs, i2)
                        ==> #[trigger] output_covered(
                        self@.outputs,
                        other_input@.outputs,
                        config@,
                        i2,
                    ),
            decreases n_out - o,
        {
            if !output_has_later_with_name(&self.outputs, o) {
                let x = &self.outputs[o];
                proof {
                    assert(self@.outputs[o as int] == self.outputs@[o as int].deep_view());
                }
                match find_last_output_with_name(&other_input.outputs, x.name.as_str()) {
                    Option::None => {
                        proof {
                            lemma_outputs_incompatible_missing(
                                self@.outputs,
                                other_input@.outputs,
                                config@,
                                o as int,
                            );
                        }
                        return false;
                    },
                    Option::Some(j) => {
                        let y = &other_input.outputs[j];
                        proof {
                            assert(other_input@.outputs[j as int] == other_input.outputs@[
                                j as int
                            ].deep_view());
                        }
                        let ok = config.output_parameter_keys.compare_for(
                            x.name.as_str(),
                            &x.parameters,
                            &y.parameters,
                            config.exclude_output_parameters,
                        );
                        if !ok {
                            proof {
                                assert(!output_pair_matches(
                                    self@.outputs[o as int],
                                    other_input@.outputs[j as int],
                                    config@,
                                ));
                                lemma_outputs_incompatible_at(
                                    self@.outputs,
                                    other_input@.outputs,
                                    config@,
                                    o as int,
                                    j as int,
                                );
                            }
                            return false;
                        }
                        proof {
                            assert(output_pair_matches(
                                self@.outputs[o as int],
                                other_input@.outputs[j as int],
                                config@,
                            ));
                            assert(output_covered(
                                self@.outputs,
                                other_input@.outputs,
                                config@,
                                o as int,
                            ));
                        }
                    },
                }
            }
            o = o + 1;
        }

        true
    }
}

} // verus!
