//! The model-config entry kind: a (name, version) key with the stored
//! configuration bytes, filed under the `config-…` name.

use vstd::prelude::*;
use vstd::utf8::encode_utf8;
use crate::cachable::Cachable;
use crate::protocol::ModelConfigRequest;
use crate::protocol::ModelConfigResponse;
use crate::codec::spec_config_file_name;
use crate::codec::spec_is_config_file_name;
use crate::codec::config_file_name;
use crate::codec::matches_config_file_name;

verus! {

/// A cached model configuration, keyed by model name and version.
pub struct CachableModelConfig {
    pub input: ModelConfigRequest,
    pub output: ModelConfigResponse,
}

impl Cachable for CachableModelConfig {
    type Input = ModelConfigRequest;

    type Output = ModelConfigResponse;

    type Config = ();

    open spec fn inv(&self) -> bool {
        true
    }

    open spec fn input_inv(input: &ModelConfigRequest) -> bool {
        true
    }

    open spec fn output_inv(output: &ModelConfigResponse) -> bool {
        true
    }

    open spec fn spec_input(&self) -> ModelConfigRequest {
        self.input
    }

    open spec fn spec_output(&self) -> ModelConfigResponse {
        self.output
    }

    open spec fn out_eq(a: &ModelConfigResponse, b: &ModelConfigResponse) -> bool {
        a.config_json@ == b.config_json@
    }

    open spec fn spec_matches(&self, input: &ModelConfigRequest, config: &()) -> bool {
        self.input.name@ == input.name@ && self.input.version@ == input.version@
    }

    open spec fn spec_file_name(&self) -> Seq<u8> {
        spec_config_file_name(
            encode_utf8(self.input.name@),
            encode_utf8(self.input.version@),
        )
    }

    open spec fn spec_name_of(input: &ModelConfigRequest, output: &ModelConfigResponse) -> Seq<
        u8,
    > {
        spec_config_file_name(encode_utf8(input.name@), encode_utf8(input.version@))
    }

    open spec fn spec_matches_file_name(bs: Seq<u8>) -> bool {
        spec_is_config_file_name(bs)
    }

    fn create(input: ModelConfigRequest, output: ModelConfigResponse) -> (r: CachableModelConfig) {
        CachableModelConfig { input, output }
    }

    fn get_input(&self) -> (r: &ModelConfigRequest) {
        &self.input
    }

    fn get_output(&self) -> (r: ModelConfigResponse) {
        self.output.duplicate()
    }

    fn matches(&self, input: &ModelConfigRequest, config: &()) -> (r: bool) {
        crate::pmap::str_equal(self.input.name.as_str(), input.name.as_str())
            && crate::pmap::str_equal(self.input.version.as_str(), input.version.as_str())
    }

    fn file_name(&self) -> (r: String) {
        config_file_name(self.input.name.as_str(), self.input.version.as_str())
    }

    fn matches_file_name(file_name: &str) -> (r: bool) {
        matches_config_file_name(file_name)
    }
}

} // verus!
