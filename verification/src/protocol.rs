//! Plain mirrors of the wire messages the proxy reads and writes. Transport
//! framing stays outside the library; these types carry exactly the fields
//! the caching logic looks at, parameter maps as name/value pair lists in
//! wire order.

use vstd::prelude::*;
use crate::params::InferParameter;
use crate::params::ParamModel;

verus! {

/// One requested input tensor of an inference request.
#[derive(PartialEq, Debug)]
pub struct InferInputTensor {
    pub name: String,
    pub datatype: String,
    pub shape: Vec<i64>,
    pub parameters: Vec<(String, InferParameter)>,
}

/// The mathematical model of an [`InferInputTensor`].
pub struct InferInputTensorModel {
    pub name: Seq<char>,
    pub datatype: Seq<char>,
    pub shape: Seq<i64>,
    pub parameters: Seq<(Seq<char>, Option<ParamModel>)>,
}

impl View for InferInputTensor {
    type V = InferInputTensorModel;

    open spec fn view(&self) -> InferInputTensorModel {
        InferInputTensorModel {
            name: self.name@,
            datatype: self.datatype@,
            shape: self.shape@,
            parameters: self.parameters.deep_view(),
        }
    }
}

impl DeepView for InferInputTensor {
    type V = InferInputTensorModel;

    open spec fn deep_view(&self) -> InferInputTensorModel {
        self.view()
    }
}

/// One requested output tensor of an inference request.
#[derive(PartialEq, Debug)]
pub struct InferRequestedOutputTensor {
    pub name: String,
    pub parameters: Vec<(String, InferParameter)>,
}

/// The mathematical model of an [`InferRequestedOutputTensor`].
pub struct InferRequestedOutputTensorModel {
    pub name: Seq<char>,
    pub parameters: Seq<(Seq<char>, Option<ParamModel>)>,
}

impl View for InferRequestedOutputTensor {
    type V = InferRequestedOutputTensorModel;

    open spec fn view(&self) -> InferRequestedOutputTensorModel {
        InferRequestedOutputTensorModel {
            name: self.name@,
            parameters: self.parameters.deep_view(),
        }
    }
}

impl DeepView for InferRequestedOutputTensor {
    type V = InferRequestedOutputTensorModel;

    open spec fn deep_view(&self) -> InferRequestedOutputTensorModel {
        self.view()
    }
}

/// An inference request as the proxy sees it.
#[derive(PartialEq, Debug)]
pub struct ModelInferRequest {
    pub model_name: String,
    pub model_version: String,
    pub id: String,
    pub parameters: Vec<(String, InferParameter)>,
    pub inputs: Vec<InferInputTensor>,
    pub outputs: Vec<InferRequestedOutputTensor>,
    pub raw_input_contents: Vec<Vec<u8>>,
}

/// The mathematical model of a [`ModelInferRequest`].
pub struct ModelInferRequestModel {
    pub model_name: Seq<char>,
    pub model_version: Seq<char>,
    pub id: Seq<char>,
    pub parameters: Seq<(Seq<char>, Option<ParamModel>)>,
    pub inputs: Seq<InferInputTensorModel>,
    pub outputs: Seq<InferRequestedOutputTensorModel>,
    pub raw_input_contents: Seq<Seq<u8>>,
}

impl View for ModelInferRequest {
    type V = ModelInferRequestModel;

    open spec fn view(&self) -> ModelInferRequestModel {
        ModelInferRequestModel {
            model_name: self.model_name@,
            model_version: self.model_version@,
            id: self.id@,
            parameters: self.parameters.deep_view(),
            inputs: self.inputs.deep_view(),
            outputs: self.outputs.deep_view(),
            raw_input_contents: self.raw_input_contents.deep_view(),
        }
    }
}

/// One output tensor of an inference response.
#[derive(PartialEq, Debug)]
pub struct InferOutputTensor {
    pub name: String,
    pub datatype: String,
    pub shape: Vec<i64>,
    pub parameters: Vec<(String, InferParameter)>,
}

/// The mathematical model of an [`InferOutputTensor`].
pub struct InferOutputTensorModel {
    pub name: Seq<char>,
    pub datatype: Seq<char>,
    pub shape: Seq<i64>,
    pub parameters: Seq<(Seq<char>, Option<ParamModel>)>,
}

impl View for InferOutputTensor {
    type V = InferOutputTensorModel;

    open spec fn view(&self) -> InferOutputTensorModel {
        InferOutputTensorModel {
            name: self.name@,
            datatype: self.datatype@,
            shape: self.shape@,
            parameters: self.parameters.deep_view(),
        }
    }
}

impl DeepView for InferOutputTensor {
    type V = InferOutputTensorModel;

    open spec fn deep_view(&self) -> InferOutputTensorModel {
        self.view()
    }
}

/// An inference response as the proxy sees it.
#[derive(PartialEq, Debug)]
pub struct ModelInferResponse {
    pub model_name: String,
    pub model_version: String,
    pub id: String,
    pub parameters: Vec<(String, InferParameter)>,
    pub outputs: Vec<InferOutputTensor>,
    pub raw_output_contents: Vec<Vec<u8>>,
}

/// The mathematical model of a [`ModelInferResponse`].
pub struct ModelInferResponseModel {
    pub model_name: Seq<char>,
    pub model_version: Seq<char>,
    pub id: Seq<char>,
    pub parameters: Seq<(Seq<char>, Option<ParamModel>)>,
    pub outputs: Seq<InferOutputTensorModel>,
    pub raw_output_contents: Seq<Seq<u8>>,
}

impl View for ModelInferResponse {
    type V = ModelInferResponseModel;

    open spec fn view(&self) -> ModelInferResponseModel {
        ModelInferResponseModel {
            model_name: self.model_name@,
            model_version: self.model_version@,
            id: self.id@,
            parameters: self.parameters.deep_view(),
            outputs: self.outputs.deep_view(),
            raw_output_contents: self.raw_output_contents.deep_view(),
        }
    }
}

/// One message of the streaming response: either a response or an in-band
/// error message.
#[derive(PartialEq, Debug)]
pub struct ModelStreamInferResponse {
    pub error_message: String,
    pub infer_response: Option<ModelInferResponse>,
}

/// A request for a model's configuration.
#[derive(PartialEq, Debug)]
pub struct ModelConfigRequest {
    pub name: String,
    pub version: String,
}

/// A model's configuration as the proxy carries it: the JSON encoding of the
/// wire configuration message, treated as opaque bytes. The proxy never
/// looks inside it; it only stores and replays it.
#[derive(PartialEq, Debug)]
pub struct ModelConfigResponse {
    pub config_json: Vec<u8>,
}

impl ModelConfigRequest {
    /// A copy of this request; its model is unchanged.
    pub fn duplicate(&self) -> (r: ModelConfigRequest)
        ensures
            r.name@ == self.name@,
            r.version@ == self.version@,
    {
        ModelConfigRequest { name: self.name.clone(), version: self.version.clone() }
    }
}

impl ModelConfigResponse {
    /// A copy of this configuration; its bytes are unchanged.
    pub fn duplicate(&self) -> (r: ModelConfigResponse)
        ensures
            r.config_json@ == self.config_json@,
    {
        ModelConfigResponse { config_json: vstd::slice::slice_to_vec(self.config_json.as_slice()) }
    }
}

} // verus!
