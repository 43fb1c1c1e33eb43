//! The per-request dispatch policy: consult the cache, answer hits from
//! the store, fail misses in serve mode, and hand misses to the upstream
//! caller in collect mode; persist what the upstream returned. The
//! transport itself stays outside the library: the caller performs the
//! upstream call and hands its outcome back.

use vstd::prelude::*;
use vstd::utf8::encode_utf8;
use crate::cachable::Cachable;
use crate::cachable_modelconfig::CachableModelConfig;
use crate::cachable_modelinfer::CachableModelInfer;
use crate::cachable_modelinfer::spec_composite_hash;
use crate::cachestore::CacheStore;
use crate::codec::spec_config_file_name;
use crate::codec::spec_infer_file_name;
use crate::fingerprint::ProcessedInput;
use crate::fingerprint::ProcessedInputModel;
use crate::fingerprint::spec_fingerprint;
use crate::fingerprint::spec_matches;
use crate::hashing::blake2b64_of;
use crate::protocol::ModelConfigRequest;
use crate::protocol::ModelConfigResponse;
use crate::protocol::ModelInferRequest;
use crate::protocol::ModelInferResponse;
use crate::protocol::ModelStreamInferResponse;
use crate::response::ProcessedOutput;
use crate::response::ProcessedOutputModel;
use crate::response::response_hash_preimage;
use crate::response::spec_processed_response;
use crate::response::spec_to_response;
use crate::settings::Settings;
use crate::settings::spec_match_config;

verus! {

/// The failure statuses the dispatcher reports.
pub enum Status {
    NotFound(String),
    Unavailable(String),
    Unknown(String),
}

/// What one unary inference request requires of the caller.
pub enum InferLookup {
    /// The cache answers: reply with this response.
    Hit(ModelInferResponse),
    /// A miss while serving from the cache alone: fail with this status.
    MissServe(Status),
    /// A miss in collect mode: forward the request upstream, then record
    /// the outcome for this fingerprint.
    MissCollect(ProcessedInput),
}

/// What one streaming message requires of the caller.
pub enum StreamStep {
    /// Send this message and keep the stream open.
    Reply(ModelStreamInferResponse),
    /// Send this status and close the stream.
    CloseStatus(Status),
    /// Forward the message upstream, then record the outcome for this
    /// fingerprint.
    Forward(ProcessedInput),
}

/// What one model-config request requires of the caller.
pub enum ConfigLookup {
    /// The cache answers: reply with this configuration.
    Hit(ModelConfigResponse),
    /// A miss while serving from the cache alone: fail with this status.
    MissServe(Status),
    /// A miss in collect mode: fetch the configuration upstream, then
    /// record it.
    MissCollect,
}

/// The name bytes an inference entry for the pair is filed under.
pub open spec fn spec_entry_name(f: ProcessedInputModel, o: ProcessedOutputModel) -> Seq<u8> {
    spec_infer_file_name(spec_composite_hash(f, blake2b64_of(response_hash_preimage(o))))
}

/// The constant liveness reply.
pub struct ServerLiveResponse {
    pub live: bool,
}

/// The constant readiness reply.
pub struct ServerReadyResponse {
    pub ready: bool,
}

/// The constant per-model readiness reply.
pub struct ModelReadyResponse {
    pub ready: bool,
}

/// The constant server identification reply.
pub struct ServerMetadataResponse {
    pub name: String,
    pub version: String,
    pub extensions: Vec<String>,
}

/// The constant model identification reply.
pub struct ModelMetadataResponse {
    pub name: String,
    pub platform: String,
    pub versions: Vec<String>,
}

/// The dispatcher: the configuration, whether an upstream connection
/// exists (it never does in serve mode), and the two stores.
pub struct InferenceStoreGrpcInferenceService {
    pub settings: Settings,
    pub has_upstream: bool,
    pub inference_store: CacheStore<CachableModelInfer>,
    pub config_store: CacheStore<CachableModelConfig>,
}

impl InferenceStoreGrpcInferenceService {
    /// Both stores are well-formed.
    pub open spec fn inv(&self) -> bool {
        &&& self.inference_store.inv()
        &&& self.config_store.inv()
    }

    /// Wires the dispatcher to its stores. `has_upstream` says whether a
    /// backend connection exists; in serve mode there is none.
    pub fn new(
        settings: Settings,
        inference_store: CacheStore<CachableModelInfer>,
        config_store: CacheStore<CachableModelConfig>,
        has_upstream: bool,
    ) -> (r: InferenceStoreGrpcInferenceService)
        ensures
            r.settings == settings,
            r.inference_store == inference_store,
            r.config_store == config_store,
            r.has_upstream == has_upstream,
    {
        InferenceStoreGrpcInferenceService { settings, has_upstream, inference_store, config_store }
    }

    /// The server is always live.
    pub fn server_live(&self) -> (r: ServerLiveResponse)
        ensures
            r.live == true,
    {
        ServerLiveResponse { live: true }
    }

    /// The server is always ready.
    pub fn server_ready(&self) -> (r: ServerReadyResponse)
        ensures
            r.ready == true,
    {
        ServerReadyResponse { ready: true }
    }

    /// Every model is reported ready.
    pub fn model_ready(&self) -> (r: ModelReadyResponse)
        ensures
            r.ready == true,
    {
        ModelReadyResponse { ready: true }
    }

    /// The constant server identification.
    pub fn server_metadata(&self) -> (r: ServerMetadataResponse)
        ensures
            r.name@ == "Inference Store Server"@,
            r.version@ == "0.0.0"@,
            r.extensions@.len() == 0,
    {
        ServerMetadataResponse {
            name: "Inference Store Server".to_owned(),
            version: "0.0.0".to_owned(),
            extensions: Vec::new(),
        }
    }

    /// The constant model identification.
    pub fn model_metadata(&self) -> (r: ModelMetadataResponse)
        ensures
            r.name@ == "test"@,
            r.platform@ == "test"@,
            r.versions@.len() == 0,
    {
        ModelMetadataResponse {
            name: "test".to_owned(),
            platform: "test".to_owned(),
            versions: Vec::new(),
        }
    }

    /// The cache-aside step of a unary inference call: fingerprint the
    /// request and consult the store under the active policy. A hit
    /// answers from the first matching entry, echoing the request's
    /// identifying triple; a miss fails in serve mode and goes upstream in
    /// collect mode.
    pub fn model_infer(&self, request: &ModelInferRequest) -> (r: InferLookup)
        requires
            self.inv(),
        ensures
            ({
                let fp = spec_fingerprint(request@);
                let c = spec_match_config(self.settings);
                let entries = self.inference_store.entries@;
                match r {
                    InferLookup::Hit(resp) => exists|k: int|
                        {
                            &&& 0 <= k < entries.len()
                            &&& spec_matches((#[trigger] entries[k]).input@, fp, c)
                            &&& forall|j: int|
                                0 <= j < k ==> !spec_matches(
                                    (#[trigger] entries[j]).input@,
                                    fp,
                                    c,
                                )
                            &&& resp@ == spec_to_response(
                                entries[k].output@,
                                request@.model_name,
                                request@.model_version,
                                request@.id,
                            )
                        },
                    InferLookup::MissServe(st) => {
                        &&& !self.has_upstream
                        &&& forall|k: int|
                            0 <= k < entries.len() ==> !spec_matches(
                                (#[trigger] entries[k]).input@,
                                fp,
                                c,
                            )
                        &&& st matches Status::NotFound(m) && m@ == "could not match request"@
                    },
                    InferLookup::MissCollect(fpv) => {
                        &&& self.has_upstream
                        &&& forall|k: int|
                            0 <= k < entries.len() ==> !spec_matches(
                                (#[trigger] entries[k]).input@,
                                fp,
                                c,
                            )
                        &&& fpv@ == fp
                        &&& fpv.wf()
                    },
                }
            }),
    {
        let parsed_input = ProcessedInput::from_infer_request(request);
        let config = self.settings.get_match_config();
        match self.inference_store.find_output(&parsed_input, &config) {
            Some(cached_output) => {
                let echo = ModelInferRequest {
                    model_name: request.model_name.clone(),
                    model_version: request.model_version.clone(),
                    id: request.id.clone(),
                    parameters: Vec::new(),
                    inputs: Vec::new(),
                    outputs: Vec::new(),
                    raw_input_contents: Vec::new(),
                };
                let response = cached_output.to_response(echo);
                InferLookup::Hit(response)
            },
            None => {
                if self.has_upstream {
                    InferLookup::MissCollect(parsed_input)
                } else {
                    InferLookup::MissServe(
                        Status::NotFound("could not match request".to_owned()),
                    )
                }
            },
        }
    }

    /// Records the upstream's response to a collect-mode miss: the
    /// canonical response is filed under the fingerprint, a pair whose
    /// file name is already present being silently kept as it was.
    /// Returns the file name and whether it was fresh.
    pub fn model_infer_record(
        &mut self,
        fingerprint: ProcessedInput,
        response: &ModelInferResponse,
    ) -> (r: (String, bool))
        requires
            old(self).inv(),
            fingerprint.wf(),
        ensures
            final(self).inv(),
            final(self).settings == old(self).settings,
            final(self).has_upstream == old(self).has_upstream,
            final(self).config_store == old(self).config_store,
            ({
                let o = spec_processed_response(response@);
                let name = spec_entry_name(fingerprint@, o);
                let entries = old(self).inference_store.entries@;
                &&& encode_utf8(r.0@) == name
                &&& (exists|i: int|
                    0 <= i < entries.len() && (#[trigger] entries[i]).spec_file_name() == name)
                    ==> (r.1 == false && final(self).inference_store.entries@ == entries)
                &&& (forall|i: int|
                    0 <= i < entries.len() ==> (#[trigger] entries[i]).spec_file_name() != name)
                    ==> (r.1 == true && {
                    &&& final(self).inference_store.entries@.len() == entries.len() + 1
                    &&& final(self).inference_store.entries@.subrange(0, entries.len() as int)
                        == entries
                    &&& final(self).inference_store.entries@.last().input@ == fingerprint@
                    &&& final(self).inference_store.entries@.last().output@ == o
                    &&& final(self).inference_store.entries@.last().spec_file_name() == name
                })
            }),
    {
        let processed_response = ProcessedOutput::from_response(response);
        let ghost fpv = fingerprint;
        let ghost o = processed_response;
        let r = self.inference_store.store(fingerprint, processed_response);
        proof {
            assert(CachableModelInfer::spec_name_of(&fpv, &o) == spec_entry_name(
                fpv@,
                spec_processed_response(response@),
            ));
        }
        r
    }

    /// The per-message step of a streaming inference call: the same
    /// cache-aside policy as the unary call. A hit is sent in-band and
    /// the stream stays open; a serve-mode miss closes the stream with a
    /// status; a collect-mode miss goes upstream.
    pub fn model_stream_infer(&self, request: &ModelInferRequest) -> (r: StreamStep)
        requires
            self.inv(),
        ensures
            ({
                let fp = spec_fingerprint(request@);
                let c = spec_match_config(self.settings);
                let entries = self.inference_store.entries@;
                match r {
                    StreamStep::Reply(msg) => {
                        &&& msg.error_message@ == Seq::<char>::empty()
                        &&& msg.infer_response is Some
                        &&& exists|k: int|
                            {
                                &&& 0 <= k < entries.len()
                                &&& spec_matches((#[trigger] entries[k]).input@, fp, c)
                                &&& forall|j: int|
                                    0 <= j < k ==> !spec_matches(
                                        (#[trigger] entries[j]).input@,
                                        fp,
                                        c,
                                    )
                                &&& msg.infer_response->0@ == spec_to_response(
                                    entries[k].output@,
                                    request@.model_name,
                                    request@.model_version,
                                    request@.id,
                                )
                            }
                    },
                    StreamStep::CloseStatus(st) => {
                        &&& !self.has_upstream
                        &&& forall|k: int|
                            0 <= k < entries.len() ==> !spec_matches(
                                (#[trigger] entries[k]).input@,
                                fp,
                                c,
                            )
                        &&& st matches Status::NotFound(m) && m@ == "could not match request"@
                    },
                    StreamStep::Forward(fpv) => {
                        &&& self.has_upstream
                        &&& forall|k: int|
                            0 <= k < entries.len() ==> !spec_matches(
                                (#[trigger] entries[k]).input@,
                                fp,
                                c,
                            )
                        &&& fpv@ == fp
                        &&& fpv.wf()
                    },
                }
            }),
    {
        match self.model_infer(request) {
            InferLookup::Hit(response) => StreamStep::Reply(
                ModelStreamInferResponse {
                    error_message: String::new(),
                    infer_response: Some(response),
                },
            ),
            InferLookup::MissServe(st) => StreamStep::CloseStatus(st),
            InferLookup::MissCollect(fp) => StreamStep::Forward(fp),
        }
    }

    /// The in-band message a streaming error becomes: the error text with
    /// no response. The stream closes after it.
    pub fn stream_error_response(message: String) -> (r: ModelStreamInferResponse)
        ensures
            r.error_message@ == message@,
            r.infer_response is None,
    {
        ModelStreamInferResponse { error_message: message, infer_response: None }
    }

    /// The cache-aside step of a model-config request: the store is
    /// consulted under plain (name, version) equality. A hit answers from
    /// the first matching entry; a miss fails in serve mode and goes
    /// upstream in collect mode.
    pub fn model_config(&self, request: &ModelConfigRequest) -> (r: ConfigLookup)
        requires
            self.inv(),
        ensures
            ({
                let entries = self.config_store.entries@;
                match r {
                    ConfigLookup::Hit(resp) => exists|k: int|
                        {
                            &&& 0 <= k < entries.len()
                            &&& (#[trigger] entries[k]).input.name@ == request.name@
                            &&& entries[k].input.version@ == request.version@
                            &&& forall|j: int|
                                0 <= j < k ==> !((#[trigger] entries[j]).input.name@
                                    == request.name@ && entries[j].input.version@
                                    == request.version@)
                            &&& resp.config_json@ == entries[k].output.config_json@
                        },
                    ConfigLookup::MissServe(st) => {
                        &&& !self.has_upstream
                        &&& forall|k: int|
                            0 <= k < entries.len() ==> !((#[trigger] entries[k]).input.name@
                                == request.name@ && entries[k].input.version@ == request.version@)
                        &&& st matches Status::Unavailable(m) && m@
                            == "uncached model config not available during serving mode"@
                    },
                    ConfigLookup::MissCollect => {
                        &&& self.has_upstream
                        &&& forall|k: int|
                            0 <= k < entries.len() ==> !((#[trigger] entries[k]).input.name@
                                == request.name@ && entries[k].input.version@ == request.version@)
                    },
                }
            }),
    {
        match self.config_store.find_output(request, &()) {
            Some(cached_output) => ConfigLookup::Hit(cached_output),
            None => {
                if self.has_upstream {
                    ConfigLookup::MissCollect
                } else {
                    ConfigLookup::MissServe(
                        Status::Unavailable(
                            "uncached model config not available during serving mode".to_owned(),
                        ),
                    )
                }
            },
        }
    }

    /// Records the upstream's configuration for a collect-mode miss.
    /// Returns the file name and whether it was fresh.
    pub fn model_config_record(
        &mut self,
        request: &ModelConfigRequest,
        response: &ModelConfigResponse,
    ) -> (r: (String, bool))
        requires
            old(self).inv(),
        ensures
            final(self).inv(),
            final(self).settings == old(self).settings,
            final(self).has_upstream == old(self).has_upstream,
            final(self).inference_store == old(self).inference_store,
            ({
                let name = spec_config_file_name(
                    encode_utf8(request.name@),
                    encode_utf8(request.version@),
                );
                let entries = old(self).config_store.entries@;
                &&& encode_utf8(r.0@) == name
                &&& (exists|i: int|
                    0 <= i < entries.len() && (#[trigger] entries[i]).spec_file_name() == name)
                    ==> (r.1 == false && final(self).config_store.entries@ == entries)
                &&& (forall|i: int|
                    0 <= i < entries.len() ==> (#[trigger] entries[i]).spec_file_name() != name)
                    ==> (r.1 == true && {
                    &&& final(self).config_store.entries@.len() == entries.len() + 1
                    &&& final(self).config_store.entries@.subrange(0, entries.len() as int)
                        == entries
                    &&& final(self).config_store.entries@.last().input.name@ == request.name@
                    &&& final(self).config_store.entries@.last().input.version@
                        == request.version@
                    &&& final(self).config_store.entries@.last().output.config_json@
                        == response.config_json@
                    &&& final(self).config_store.entries@.last().spec_file_name() == name
                })
            }),
    {
        let input = request.duplicate();
        let output = response.duplicate();
        let ghost iv = input;
        let ghost ov = output;
        let r = self.config_store.store(input, output);
        proof {
            assert(CachableModelConfig::spec_name_of(&iv, &ov) == spec_config_file_name(
                encode_utf8(request.name@),
                encode_utf8(request.version@),
            ));
        }
        r
    }
}

} // verus!
