//! The inference entry kind: a fingerprint together with its canonical
//! response, filed under the four-block `infer-…` name.

use vstd::prelude::*;
use crate::cachable::Cachable;
use crate::fingerprint::ProcessedInput;
use crate::fingerprint::MatchConfig;
use crate::fingerprint::ProcessedInputModel;
use crate::fingerprint::inputs_hash_preimage;
use crate::fingerprint::outputs_hash_preimage;
use crate::fingerprint::metadata_hash_preimage;
use crate::response::ProcessedOutput;
use crate::response::response_hash_preimage;
use crate::hashing::blake2b64_of;
use crate::codec::spec_infer_file_name;
use crate::codec::spec_is_infer_file_name;
use crate::codec::infer_file_name_from_hash;
use crate::codec::matches_infer_file_name;

verus! {

/// The composite 32-byte hash of a fingerprint and a given response-hash
/// block: the three request-side partial hashes, then the response block.
pub open spec fn spec_composite_hash(f: ProcessedInputModel, response_block: Seq<u8>) -> Seq<u8> {
    blake2b64_of(inputs_hash_preimage(f)) + blake2b64_of(outputs_hash_preimage(f)) + blake2b64_of(
        metadata_hash_preimage(f),
    ) + response_block
}

/// A cached inference call: the request fingerprint, its canonical
/// response, and the 8-byte response block of the file name. When the
/// entry is created from a fresh pair the block is the response hash; when
/// it is recovered from disk the block is read back from the file name.
pub struct CachableModelInfer {
    pub input: ProcessedInput,
    pub output: ProcessedOutput,
    pub output_hash: Vec<u8>,
}

impl CachableModelInfer {
    /// Rebuilds an entry recovered from a stored file: the parsed
    /// fingerprint and response, and the response block taken from the
    /// file name.
    pub fn from_loaded(input: ProcessedInput, output: ProcessedOutput, output_hash: Vec<u8>) -> (r:
        CachableModelInfer)
        requires
            input.wf(),
            output.wf(),
            output_hash@.len() == 8,
        ensures
            r.inv(),
            r.spec_input() == input,
            r.spec_output() == output,
            r.spec_file_name() == spec_infer_file_name(
                spec_composite_hash(input@, output_hash@),
            ),
    {
        CachableModelInfer { input, output, output_hash }
    }
}

impl Cachable for CachableModelInfer {
    type Input = ProcessedInput;

    type Output = ProcessedOutput;

    type Config = MatchConfig;

    open spec fn inv(&self) -> bool {
        &&& self.input.wf()
        &&& self.output.wf()
        &&& self.output_hash@.len() == 8
    }

    open spec fn input_inv(input: &ProcessedInput) -> bool {
        input.wf()
    }

    open spec fn output_inv(output: &ProcessedOutput) -> bool {
        output.wf()
    }

    open spec fn spec_input(&self) -> ProcessedInput {
        self.input
    }

    open spec fn spec_output(&self) -> ProcessedOutput {
        self.output
    }

    open spec fn out_eq(a: &ProcessedOutput, b: &ProcessedOutput) -> bool {
        a@ == b@
    }

    open spec fn spec_matches(&self, input: &ProcessedInput, config: &MatchConfig) -> bool {
        crate::fingerprint::spec_matches(self.input@, input@, config@)
    }

    open spec fn spec_file_name(&self) -> Seq<u8> {
        spec_infer_file_name(spec_composite_hash(self.input@, self.output_hash@))
    }

    open spec fn spec_name_of(input: &ProcessedInput, output: &ProcessedOutput) -> Seq<u8> {
        spec_infer_file_name(
            spec_composite_hash(input@, blake2b64_of(response_hash_preimage(output@))),
        )
    }

    open spec fn spec_matches_file_name(bs: Seq<u8>) -> bool {
        spec_is_infer_file_name(bs)
    }

    fn create(input: ProcessedInput, output: ProcessedOutput) -> (r: CachableModelInfer) {
        let output_hash = output.hash();
        CachableModelInfer { input, output, output_hash }
    }

    fn get_input(&self) -> (r: &ProcessedInput) {
        &self.input
    }

    fn get_output(&self) -> (r: ProcessedOutput) {
        self.output.duplicate()
    }

    fn matches(&self, input: &ProcessedInput, config: &MatchConfig) -> (r: bool) {
        self.input.matches(input, config)
    }

    fn file_name(&self) -> (r: String) {
        let h1 = self.input.inputs_hash();
        let h2 = self.input.outputs_hash();
        let h3 = self.input.metadata_hash();
        let mut hash: Vec<u8> = Vec::new();
        hash.extend_from_slice(h1.as_slice());
        hash.extend_from_slice(h2.as_slice());
        hash.extend_from_slice(h3.as_slice());
        hash.extend_from_slice(self.output_hash.as_slice());
        proof {
            assert(hash@ =~= spec_composite_hash(self.input@, self.output_hash@));
        }
        infer_file_name_from_hash(&hash)
    }

    fn matches_file_name(file_name: &str) -> (r: bool) {
        matches_infer_file_name(file_name)
    }
}

} // verus!
