//! The canonical form of an inference response: parameter maps in canonical
//! key order, output tensor metadata, and the raw output buffers, together
//! with the response hash that contributes the fourth block of an entry's
//! file name.

use vstd::prelude::*;
use vstd::utf8::encode_utf8;
use crate::params::ParamModel;
use crate::params::InferParameter;
use crate::pmap::ParamMap;
use crate::pmap::pm_sorted;
use crate::hashing::blake2b64;
use crate::hashing::blake2b64_of;
use crate::fingerprint::pm_canon;
use crate::fingerprint::canonicalize_parameters;
use crate::fingerprint::params_bytes;
use crate::fingerprint::shape_bytes;
use crate::fingerprint::flat_bytes;
use crate::fingerprint::append_str_bytes;
use crate::fingerprint::append_shape_bytes;
use crate::fingerprint::append_params_bytes;
use crate::fingerprint::concat_buffers;
use crate::protocol::ModelInferRequest;
use crate::protocol::ModelInferResponse;
use crate::protocol::ModelInferResponseModel;
use crate::protocol::ModelStreamInferResponse;
use crate::protocol::InferOutputTensor;
use crate::protocol::InferOutputTensorModel;

verus! {

/// One output tensor of a canonical response.
#[derive(PartialEq, Debug)]
pub struct Output {
    pub parameters: ParamMap,
    pub name: String,
    pub datatype: String,
    pub shape: Vec<i64>,
}

/// The mathematical model of an [`Output`].
pub struct ROutputModel {
    pub parameters: Seq<(Seq<char>, Option<ParamModel>)>,
    pub name: Seq<char>,
    pub datatype: Seq<char>,
    pub shape: Seq<i64>,
}

impl View for Output {
    type V = ROutputModel;

    open spec fn view(&self) -> ROutputModel {
        ROutputModel {
            parameters: self.parameters@,
            name: self.name@,
            datatype: self.datatype@,
            shape: self.shape@,
        }
    }
}

impl DeepView for Output {
    type V = ROutputModel;

    open spec fn deep_view(&self) -> ROutputModel {
        self.view()
    }
}

/// The canonical form of an inference response.
#[derive(PartialEq, Debug)]
pub struct ProcessedOutput {
    pub parameters: ParamMap,
    pub outputs: Vec<Output>,
    pub raw_output_contents: Vec<Vec<u8>>,
}

/// The mathematical model of a [`ProcessedOutput`].
pub struct ProcessedOutputModel {
    pub parameters: Seq<(Seq<char>, Option<ParamModel>)>,
    pub outputs: Seq<ROutputModel>,
    pub raw_output_contents: Seq<Seq<u8>>,
}

impl View for ProcessedOutput {
    type V = ProcessedOutputModel;

    open spec fn view(&self) -> ProcessedOutputModel {
        ProcessedOutputModel {
            parameters: self.parameters@,
            outputs: self.outputs.deep_view(),
            raw_output_contents: self.raw_output_contents.deep_view(),
        }
    }
}

/// A well-formed response model: every parameter map in canonical order.
pub open spec fn spec_output_wf(o: ProcessedOutputModel) -> bool {
    &&& pm_sorted(o.parameters)
    &&& forall|i: int| 0 <= i < o.outputs.len() ==> pm_sorted((#[trigger] o.outputs[i]).parameters)
}

/// The hashed form of one output tensor: datatype, name, shape dimensions
/// little-endian, then its parameter map in canonical order.
pub open spec fn routput_bytes(t: ROutputModel) -> Seq<u8> {
    encode_utf8(t.datatype) + encode_utf8(t.name) + shape_bytes(t.shape) + params_bytes(
        t.parameters,
    )
}

/// The hashed form of the output tensors, in order.
pub open spec fn routputs_bytes(s: Seq<ROutputModel>) -> Seq<u8>
    decreases s.len(),
{
    if s.len() == 0 {
        seq![]
    } else {
        routput_bytes(s[0]) + routputs_bytes(s.drop_first())
    }
}

proof fn lemma_routputs_bytes_push(s: Seq<ROutputModel>, x: ROutputModel)
    ensures
        routputs_bytes(s.push(x)) == routputs_bytes(s) + routput_bytes(x),
    decreases s.len(),
{
    if s.len() == 0 {
        assert(s.push(x).drop_first() =~= s);
        assert(routputs_bytes(s.push(x)) =~= routputs_bytes(s) + routput_bytes(x));
    } else {
        lemma_routputs_bytes_push(s.drop_first(), x);
        assert(s.push(x).drop_first() =~= s.drop_first().push(x));
        assert(s.push(x)[0] == s[0]);
        assert(routputs_bytes(s.push(x)) =~= routputs_bytes(s) + routput_bytes(x));
    }
}

/// The preimage of the response hash: the response parameters, each output
/// tensor's metadata and parameters, then the raw output buffers in order.
pub open spec fn response_hash_preimage(o: ProcessedOutputModel) -> Seq<u8> {
    params_bytes(o.parameters) + routputs_bytes(o.outputs) + flat_bytes(o.raw_output_contents)
}

/// The canonical form of a wire response, as a function of the response's
/// model.
pub open spec fn spec_processed_response(resp: ModelInferResponseModel) -> ProcessedOutputModel {
    ProcessedOutputModel {
        parameters: pm_canon(resp.parameters),
        outputs: resp.outputs.map_values(
            |t: InferOutputTensorModel|
                ROutputModel {
                    parameters: pm_canon(t.parameters),
                    name: t.name,
                    datatype: t.datatype,
                    shape: t.shape,
                },
        ),
        raw_output_contents: resp.raw_output_contents,
    }
}

/// The wire form of a response built from a canonical output and the
/// identifying triple of the request being answered.
pub open spec fn spec_to_response(
    o: ProcessedOutputModel,
    model_name: Seq<char>,
    model_version: Seq<char>,
    id: Seq<char>,
) -> ModelInferResponseModel {
    ModelInferResponseModel {
        model_name: model_name,
        model_version: model_version,
        id: id,
        parameters: o.parameters,
        outputs: o.outputs.map_values(
            |t: ROutputModel|
                InferOutputTensorModel {
                    name: t.name,
                    datatype: t.datatype,
                    shape: t.shape,
                    parameters: t.parameters,
                },
        ),
        raw_output_contents: o.raw_output_contents,
    }
}

impl ProcessedOutput {
    /// Well-formed: canonical parameter order everywhere.
    pub open spec fn wf(&self) -> bool {
        spec_output_wf(self@)
    }

    /// The 8-byte response hash.
    pub fn hash(&self) -> (r: Vec<u8>)
        ensures
            r@ == blake2b64_of(response_hash_preimage(self@)),
            r@.len() == 8,
    {
        let mut data: Vec<u8> = Vec::new();
        append_params_bytes(&mut data, &self.parameters);
        let ghost base = data@;
        let n: usize = self.outputs.len();
        let mut i: usize = 0;
        proof {
            assert(self@.outputs.subrange(0, 0) =~= Seq::<ROutputModel>::empty());
            assert(base + routputs_bytes(self@.outputs.subrange(0, 0)) =~= base);
        }
        while i < n
            invariant
                n == self@.outputs.len(),
                self@.outputs.len() == self.outputs@.len(),
                i <= n,
                data@ == base + routputs_bytes(self@.outputs.subrange(0, i as int)),
            decreases n - i,
        {
            let t = &self.outputs[i];
            append_str_bytes(&mut data, t.datatype.as_str());
            append_str_bytes(&mut data, t.name.as_str());
            append_shape_bytes(&mut data, &t.shape);
            append_params_bytes(&mut data, &t.parameters);
            proof {
                let s = self@.outputs;
                assert(s[i as int] == self.outputs@[i as int].deep_view());
                assert(s.subrange(0, i as int + 1) =~= s.subrange(0, i as int).push(s[i as int]));
                lemma_routputs_bytes_push(s.subrange(0, i as int), s[i as int]);
                assert(data@ =~= base + routputs_bytes(s.subrange(0, i as int + 1)));
            }
            i = i + 1;
        }
        proof {
            assert(self@.outputs.subrange(0, n as int) =~= self@.outputs);
        }
        let mut raw = concat_buffers(&self.raw_output_contents);
        data.append(&mut raw);
        proof {
            assert(data@ =~= response_hash_preimage(self@));
        }
        blake2b64(&data)
    }

    /// Parses a wire inference response into its canonical form: parameter
    /// maps are put in canonical order, output metadata and the raw output
    /// buffers are carried over in order.
    pub fn from_response(response: &ModelInferResponse) -> (r: ProcessedOutput)
        ensures
            r.wf(),
            r@ == spec_processed_response(response@),
    {
        let parameters = canonicalize_parameters(&response.parameters);
        let n: usize = response.outputs.len();
        let mut outputs: Vec<Output> = Vec::new();
        let mut i: usize = 0;
        while i < n
            invariant
                n == response.outputs@.len(),
                response.outputs@.len() == response@.outputs.len(),
                i <= n,
                outputs@.len() == i,
                forall|j: int|
                    0 <= j < i ==> {
                        &&& (#[trigger] outputs@[j])@.name == response@.outputs[j].name
                        &&& outputs@[j]@.datatype == response@.outputs[j].datatype
                        &&& outputs@[j]@.shape == response@.outputs[j].shape
                        &&& outputs@[j]@.parameters == pm_canon(response@.outputs[j].parameters)
                        &&& pm_sorted(outputs@[j]@.parameters)
                    },
            decreases n - i,
        {
            let t = &response.outputs[i];
            let output = Output {
                parameters: canonicalize_parameters(&t.parameters),
                name: t.name.clone(),
                datatype: t.datatype.clone(),
                shape: vstd::slice::slice_to_vec(t.shape.as_slice()),
            };
            proof {
                assert(response@.outputs[i as int] == response.outputs@[i as int].deep_view());
            }
            outputs.push(output);
            i = i + 1;
        }
        let raw = duplicate_buffers(&response.raw_output_contents);
        let r = ProcessedOutput { parameters, outputs, raw_output_contents: raw };
        proof {
            assert forall|j: int| 0 <= j < response@.outputs.len() implies {
                &&& (#[trigger] r@.outputs[j]).name == response@.outputs[j].name
                &&& r@.outputs[j].datatype == response@.outputs[j].datatype
                &&& r@.outputs[j].shape == response@.outputs[j].shape
                &&& r@.outputs[j].parameters == pm_canon(response@.outputs[j].parameters)
            } by {
                assert(r@.outputs[j] == r.outputs@[j].deep_view());
            }
            assert forall|j: int| 0 <= j < r@.outputs.len() implies pm_sorted(
                (#[trigger] r@.outputs[j]).parameters,
            ) by {
                assert(r@.outputs[j] == r.outputs@[j].deep_view());
            }
            assert(r@.raw_output_contents =~= response@.raw_output_contents);
            assert(r@.outputs =~= spec_processed_response(response@).outputs);
            assert(r@ == spec_processed_response(response@));
        }
        r
    }

    /// Materializes a wire response from this canonical output and the
    /// identifying triple of the request being answered.
    pub fn to_response(&self, request: ModelInferRequest) -> (r: ModelInferResponse)
        ensures
            r@ == spec_to_response(self@, request@.model_name, request@.model_version, request@.id),
    {
        let parameters = wire_parameters(&self.parameters);
        let n: usize = self.outputs.len();
        let mut outputs: Vec<InferOutputTensor> = Vec::new();
        let mut i: usize = 0;
        while i < n
            invariant
                n == self@.outputs.len(),
                self@.outputs.len() == self.outputs@.len(),
                i <= n,
                outputs@.len() == i,
                forall|j: int|
                    0 <= j < i ==> {
                        &&& (#[trigger] outputs@[j])@.name == self@.outputs[j].name
                        &&& outputs@[j]@.datatype == self@.outputs[j].datatype
                        &&& outputs@[j]@.shape == self@.outputs[j].shape
                        &&& outputs@[j]@.parameters == self@.outputs[j].parameters
                    },
            decreases n - i,
        {
            let t = &self.outputs[i];
            let out = InferOutputTensor {
                name: t.name.clone(),
                datatype: t.datatype.clone(),
                shape: vstd::slice::slice_to_vec(t.shape.as_slice()),
                parameters: wire_parameters(&t.parameters),
            };
            proof {
                assert(self@.outputs[i as int] == self.outputs@[i as int].deep_view());
            }
            outputs.push(out);
            i = i + 1;
        }
        let raw = duplicate_buffers(&self.raw_output_contents);
        let r = ModelInferResponse {
            model_name: request.model_name,
            model_version: request.model_version,
            id: request.id,
            parameters,
            outputs,
            raw_output_contents: raw,
        };
        proof {
            let expected = spec_to_response(
                self@,
                request@.model_name,
                request@.model_version,
                request@.id,
            );
            assert forall|j: int| 0 <= j < r@.outputs.len() implies r@.outputs[j]
                == expected.outputs[j] by {
                assert(r@.outputs[j] == r.outputs@[j].deep_view());
            }
            assert(r@.outputs =~= expected.outputs);
            assert(r@.raw_output_contents =~= expected.raw_output_contents);
            assert(r@.parameters =~= expected.parameters);
        }
        r
    }

    /// Wraps a materialized response in a stream message with an empty
    /// error text.
    pub fn to_stream_response(&self, request: ModelInferRequest) -> (r: ModelStreamInferResponse)
        ensures
            r.error_message@ == Seq::<char>::empty(),
            r.infer_response is Some,
            r.infer_response->0@ == spec_to_response(
                self@,
                request@.model_name,
                request@.model_version,
                request@.id,
            ),
    {
        let response = self.to_response(request);
        ModelStreamInferResponse { error_message: String::new(), infer_response: Some(response) }
    }

    /// A copy of this canonical output; its model is unchanged.
    pub fn duplicate(&self) -> (r: ProcessedOutput)
        ensures
            r@ == self@,
    {
        let parameters = self.parameters.duplicate();
        let n: usize = self.outputs.len();
        let mut outputs: Vec<Output> = Vec::new();
        let mut i: usize = 0;
        while i < n
            invariant
                n == self.outputs@.len(),
                i <= n,
                outputs@.len() == i,
                forall|j: int|
                    0 <= j < i ==> (#[trigger] outputs@[j]).deep_view() == self.outputs@[
                        j
                    ].deep_view(),
            decreases n - i,
        {
            let t = &self.outputs[i];
            let out = Output {
                parameters: t.parameters.duplicate(),
                name: t.name.clone(),
                datatype: t.datatype.clone(),
                shape: vstd::slice::slice_to_vec(t.shape.as_slice()),
            };
            outputs.push(out);
            i = i + 1;
        }
        let raw = duplicate_buffers(&self.raw_output_contents);
        let r = ProcessedOutput { parameters, outputs, raw_output_contents: raw };
        proof {
            assert(r@.outputs =~= self@.outputs);
            assert(r@.raw_output_contents =~= self@.raw_output_contents);
        }
        r
    }
}

/// The wire pair list of an ordered parameter map: the entries in canonical
/// order, an absent value becoming a wire parameter without a choice.
pub fn wire_parameters(m: &ParamMap) -> (r: Vec<(String, InferParameter)>)
    ensures
        r.deep_view() == m@,
{
    let n: usize = m.entries.len();
    let mut out: Vec<(String, InferParameter)> = Vec::new();
    let mut i: usize = 0;
    while i < n
        invariant
            n == m@.len(),
            m@.len() == m.entries@.len(),
            i <= n,
            out@.len() == i,
            forall|j: int| 0 <= j < i ==> (#[trigger] out@[j]).deep_view() == m@[j],
        decreases n - i,
    {
        let e = &m.entries[i];
        let value = match &e.value {
            Option::Some(p) => p.duplicate().to_infer_parameter(),
            Option::None => InferParameter { parameter_choice: None },
        };
        let pair = (e.key.clone(), value);
        proof {
            assert(m@[i as int] == m.entries@[i as int].deep_view());
            assert(pair.deep_view() == m@[i as int]);
        }
        out.push(pair);
        i = i + 1;
    }
    proof {
        assert(out.deep_view() =~= m@);
    }
    out
}

/// A copy of a list of byte buffers; its contents are unchanged.
pub fn duplicate_buffers(buffers: &Vec<Vec<u8>>) -> (r: Vec<Vec<u8>>)
    ensures
        r.deep_view() == buffers.deep_view(),
{
    let n: usize = buffers.len();
    let mut out: Vec<Vec<u8>> = Vec::new();
    let mut i: usize = 0;
    while i < n
        invariant
            n == buffers@.len(),
            i <= n,
            out@.len() == i,
            forall|j: int| 0 <= j < i ==> (#[trigger] out@[j])@ == buffers@[j]@,
        decreases n - i,
    {
        out.push(vstd::slice::slice_to_vec(buffers[i].as_slice()));
        i = i + 1;
    }
    proof {
        assert(out.deep_view() =~= buffers.deep_view());
    }
    out
}

} // verus!
