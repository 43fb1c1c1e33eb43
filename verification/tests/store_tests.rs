use inferstore::cachable::Cachable;
use inferstore::cachable_modelinfer::CachableModelInfer;
use inferstore::cachestore::CacheStore;
use inferstore::fingerprint::Input;
use inferstore::fingerprint::MatchConfig;
use inferstore::fingerprint::Output;
use inferstore::fingerprint::ProcessedInput;
use inferstore::inference_store::InferenceStore;
use inferstore::inference_store::InputOutputWrapper;
use inferstore::matching::KeyListMap;
use inferstore::params::InferParameter;
use inferstore::params::Parameter;
use inferstore::pmap::ParamMap;
use inferstore::protocol::InferInputTensor;
use inferstore::protocol::InferOutputTensor;
use inferstore::protocol::InferRequestedOutputTensor;
use inferstore::protocol::ModelConfigRequest;
use inferstore::protocol::ModelConfigResponse;
use inferstore::protocol::ModelInferRequest;
use inferstore::protocol::ModelInferResponse;
use inferstore::response::ProcessedOutput;
use inferstore::service::ConfigLookup;
use inferstore::service::InferLookup;
use inferstore::service::InferenceStoreGrpcInferenceService;
use inferstore::service::Status;
use inferstore::service::StreamStep;
use inferstore::settings::ParameterMatching;
use inferstore::settings::RequestCollection;
use inferstore::settings::RequestMatching;
use inferstore::settings::Server;
use inferstore::settings::ServerMode;
use inferstore::settings::Settings;
use inferstore::settings::TargetServer;

const FLAT_NAME: &str =
    "c9b7e475dd69fa72_bf645d11f6b25b6f_192d91107cec4716_111f49954e134b85.inferstore";

fn stored_input() -> ProcessedInput {
    let mut parameters = ParamMap::new();
    parameters.insert(
        "param1".to_string(),
        Some(Parameter::StringParam("param_value1".to_string())),
    );
    parameters.insert(
        "param2".to_string(),
        Some(Parameter::StringParam("param_value2".to_string())),
    );
    let mut input_params = ParamMap::new();
    input_params.insert(
        "input_param1".to_string(),
        Some(Parameter::StringParam("input_param_value1".to_string())),
    );
    input_params.insert(
        "input_param2".to_string(),
        Some(Parameter::StringParam("input_param_value2".to_string())),
    );
    let mut output_params = ParamMap::new();
    output_params.insert(
        "output_param1".to_string(),
        Some(Parameter::StringParam("output_param_value1".to_string())),
    );
    output_params.insert(
        "output_param2".to_string(),
        Some(Parameter::StringParam("output_param_value2".to_string())),
    );
    let content_hash: Vec<u8> = (1..=32u8).collect();
    ProcessedInput {
        model_name: "test".to_string(),
        model_version: "1".to_string(),
        id: "1".to_string(),
        parameters,
        inputs: vec![Input {
            name: "input1".to_string(),
            datatype: "INT64".to_string(),
            shape: vec![1, 2, 3],
            parameters: input_params,
        }],
        outputs: vec![Output {
            name: "output1".to_string(),
            parameters: output_params,
        }],
        content_hash,
    }
}

fn stored_output() -> ProcessedOutput {
    let mut parameters = ParamMap::new();
    parameters.insert(
        "test".to_string(),
        Some(Parameter::StringParam("test".to_string())),
    );
    let mut output_params = ParamMap::new();
    output_params.insert(
        "test".to_string(),
        Some(Parameter::StringParam("test".to_string())),
    );
    ProcessedOutput {
        parameters,
        outputs: vec![inferstore::response::Output {
            parameters: output_params,
            name: "test".to_string(),
            datatype: "INT64".to_string(),
            shape: vec![1, 2, 3],
        }],
        raw_output_contents: vec![vec![69]],
    }
}

fn settings(mode: ServerMode) -> Settings {
    Settings {
        debug: false,
        mode,
        server: Server {
            host: "0.0.0.0".to_string(),
            port: 50051,
        },
        target_server: TargetServer {
            host: "http://localhost:8001".to_string(),
        },
        request_matching: RequestMatching {
            match_id: false,
            parameter_matching: ParameterMatching::Disable,
            parameter_keys: vec![],
            input_parameter_matching: ParameterMatching::Disable,
            input_parameter_keys: KeyListMap::new(),
            output_parameter_matching: ParameterMatching::Disable,
            output_parameter_keys: KeyListMap::new(),
            match_pruned_output: false,
        },
        request_collection: RequestCollection {
            path: "inferencestore".to_string(),
        },
    }
}

fn collect_service() -> InferenceStoreGrpcInferenceService {
    InferenceStoreGrpcInferenceService::new(
        settings(ServerMode::Collect),
        CacheStore::new("inferencestore".to_string()),
        CacheStore::new("inferencestore".to_string()),
        true,
    )
}

fn serve_service() -> InferenceStoreGrpcInferenceService {
    InferenceStoreGrpcInferenceService::new(
        settings(ServerMode::Serve),
        CacheStore::new("inferencestore".to_string()),
        CacheStore::new("inferencestore".to_string()),
        false,
    )
}

fn collect_request() -> ModelInferRequest {
    ModelInferRequest {
        model_name: "m".to_string(),
        model_version: "1".to_string(),
        id: "r1".to_string(),
        parameters: vec![],
        inputs: vec![InferInputTensor {
            name: "img".to_string(),
            datatype: "FP32".to_string(),
            shape: vec![1, 2, 3],
            parameters: vec![],
        }],
        outputs: vec![InferRequestedOutputTensor {
            name: "o".to_string(),
            parameters: vec![],
        }],
        raw_input_contents: vec![vec![0xFF, 0x80, 0x01]],
    }
}

fn upstream_response() -> ModelInferResponse {
    ModelInferResponse {
        model_name: "m".to_string(),
        model_version: "1".to_string(),
        id: "r1".to_string(),
        parameters: vec![],
        outputs: vec![InferOutputTensor {
            name: "o".to_string(),
            datatype: "FP32".to_string(),
            shape: vec![1, 2, 3],
            parameters: vec![],
        }],
        raw_output_contents: vec![vec![9, 9, 9]],
    }
}

#[test]
fn it_writes_inference_file() {
    let mut store = InferenceStore::new("inference_store_test".to_string());

    let (name, fresh) = store.write(stored_input(), stored_output());

    assert!(fresh);
    assert_eq!(name, FLAT_NAME);
    assert_eq!(store.len(), 1);
}

#[test]
fn it_does_not_write_when_exists() {
    let mut store = InferenceStore::new("inference_store_test".to_string());
    store.write(stored_input(), stored_output());

    let (name, fresh) = store.write(stored_input(), stored_output());

    assert!(!fresh);
    assert_eq!(name, FLAT_NAME);
    assert_eq!(store.len(), 1);
}

#[test]
fn it_loads_inference_file() {
    let mut store = InferenceStore::new("inference_store_test".to_string());

    assert!(store.load(stored_input(), FLAT_NAME));

    assert_eq!(store.len(), 1);
    assert_eq!(store.inference_store[0].input, stored_input());

    let found = store.find_output(&stored_input(), &MatchConfig::default());
    assert_eq!(found, Some(FLAT_NAME.to_string()));
}

#[test]
fn it_skips_files_with_malformed_names() {
    let mut store = InferenceStore::new("inference_store_test".to_string());

    assert!(!store.load(stored_input(), "nonsense.inferstore"));
    assert_eq!(store.len(), 0);
}

#[test]
fn it_pairs_input_and_output_under_one_hash() {
    let wrapper = InputOutputWrapper::new(stored_input(), stored_output());
    let hash = wrapper.hash();

    assert_eq!(hash.len(), 32);
    assert_eq!(wrapper.file_name(), FLAT_NAME);
}

#[test]
fn it_stores() {
    let mut cache_store: CacheStore<CachableModelInfer> =
        CacheStore::new("inference_store_test".to_string());

    let (name, fresh) = cache_store.store(stored_input(), stored_output());

    assert!(fresh);
    assert_eq!(
        name,
        "infer-c9b7e475dd69fa72#bf645d11f6b25b6f#192d91107cec4716#111f49954e134b85.inferstore"
    );
    assert_eq!(cache_store.len(), 1);

    let (again, fresh_again) = cache_store.store(stored_input(), stored_output());
    assert!(!fresh_again);
    assert_eq!(again, name);
    assert_eq!(cache_store.len(), 1);
}

#[test]
fn it_matches() {
    let mut cache_store: CacheStore<CachableModelInfer> =
        CacheStore::new("inference_store_test".to_string());
    cache_store.store(stored_input(), stored_output());

    let output = cache_store
        .find_output(&stored_input(), &MatchConfig::default())
        .expect("no cached output");

    assert_eq!(output, stored_output());
}

#[test]
fn cachestore_it_loads() {
    let mut cache_store: CacheStore<CachableModelInfer> =
        CacheStore::new("inference_store_test".to_string());
    let entry = CachableModelInfer::create(stored_input(), stored_output());
    cache_store.load(entry);

    assert_eq!(cache_store.len(), 1);
    let found = cache_store.find_output(&stored_input(), &MatchConfig::default());
    assert_eq!(found, Some(stored_output()));
}

#[test]
fn serve_mode_miss_returns_not_found() {
    let service = serve_service();

    match service.model_infer(&collect_request()) {
        InferLookup::MissServe(Status::NotFound(message)) => {
            assert_eq!(message, "could not match request");
        }
        _ => panic!("expected a serve-mode miss"),
    }
}

#[test]
fn collect_mode_records_and_replays() {
    let mut service = collect_service();
    let request = collect_request();

    let fingerprint = match service.model_infer(&request) {
        InferLookup::MissCollect(fingerprint) => fingerprint,
        _ => panic!("expected a collect-mode miss"),
    };

    let response = upstream_response();
    let (name, fresh) = service.model_infer_record(fingerprint, &response);
    assert!(fresh);
    assert_eq!(name.len(), 84);
    assert!(name.starts_with("infer-"));
    assert!(name.ends_with(".inferstore"));

    match service.model_infer(&request) {
        InferLookup::Hit(replayed) => {
            assert_eq!(replayed, response);
        }
        _ => panic!("expected a cache hit"),
    }

    let fingerprint_again = ProcessedInput::from_infer_request(&request);
    let (name_again, fresh_again) = service.model_infer_record(fingerprint_again, &response);
    assert!(!fresh_again);
    assert_eq!(name_again, name);
}

#[test]
fn streaming_replays_hits_and_closes_on_miss() {
    let mut service = collect_service();
    let request = collect_request();

    let fingerprint = match service.model_infer(&request) {
        InferLookup::MissCollect(fingerprint) => fingerprint,
        _ => panic!("expected a collect-mode miss"),
    };
    service.model_infer_record(fingerprint, &upstream_response());

    service.has_upstream = false;

    match service.model_stream_infer(&request) {
        StreamStep::Reply(message) => {
            assert_eq!(message.error_message, "");
            assert_eq!(message.infer_response, Some(upstream_response()));
        }
        _ => panic!("expected a streamed reply"),
    }

    let mut other = collect_request();
    other.model_name = "unknown".to_string();
    match service.model_stream_infer(&other) {
        StreamStep::CloseStatus(Status::NotFound(message)) => {
            assert_eq!(message, "could not match request");
        }
        _ => panic!("expected the stream to close"),
    }
}

#[test]
fn config_misses_are_unavailable_when_serving() {
    let service = serve_service();
    let request = ModelConfigRequest {
        name: "m".to_string(),
        version: "1".to_string(),
    };

    match service.model_config(&request) {
        ConfigLookup::MissServe(Status::Unavailable(message)) => {
            assert_eq!(
                message,
                "uncached model config not available during serving mode"
            );
        }
        _ => panic!("expected a serve-mode miss"),
    }
}

#[test]
fn config_round_trip_through_the_store() {
    let mut service = collect_service();
    let request = ModelConfigRequest {
        name: "m".to_string(),
        version: "1".to_string(),
    };

    match service.model_config(&request) {
        ConfigLookup::MissCollect => {}
        _ => panic!("expected a collect-mode miss"),
    }

    let body = ModelConfigResponse {
        config_json: "{\"name\":\"m\"}".as_bytes().to_vec(),
    };
    let (name, fresh) = service.model_config_record(&request, &body);
    assert!(fresh);
    assert_eq!(name, "config-m#1.inferstore");

    match service.model_config(&request) {
        ConfigLookup::Hit(found) => assert_eq!(found, body),
        _ => panic!("expected a config hit"),
    }

    let (name_again, fresh_again) = service.model_config_record(&request, &body);
    assert!(!fresh_again);
    assert_eq!(name_again, name);
}

#[test]
fn trivial_responders_answer_constants() {
    let service = serve_service();

    assert!(service.server_live().live);
    assert!(service.server_ready().ready);
    assert!(service.model_ready().ready);

    let metadata = service.server_metadata();
    assert_eq!(metadata.name, "Inference Store Server");
    assert_eq!(metadata.version, "0.0.0");
    assert!(metadata.extensions.is_empty());

    let model = service.model_metadata();
    assert_eq!(model.name, "test");
    assert_eq!(model.platform, "test");
    assert!(model.versions.is_empty());
}

#[test]
fn it_parsed_a_model_infer_request() {
    let input = ProcessedInput::from_infer_request(&ModelInferRequest {
        model_name: "test".to_string(),
        model_version: "v1".to_string(),
        id: "999".to_string(),
        parameters: vec![(
            "param1".to_string(),
            InferParameter {
                parameter_choice: Some(Parameter::StringParam("hoi".to_string())),
            },
        )],
        inputs: vec![InferInputTensor {
            name: "img".to_string(),
            datatype: "FP32".to_string(),
            shape: vec![1, 2, 3],
            parameters: vec![(
                "input_param1".to_string(),
                InferParameter {
                    parameter_choice: Some(Parameter::StringParam("hoi".to_string())),
                },
            )],
        }],
        outputs: vec![InferRequestedOutputTensor {
            name: "output1".to_string(),
            parameters: vec![(
                "output_param1".to_string(),
                InferParameter {
                    parameter_choice: Some(Parameter::StringParam("hoi".to_string())),
                },
            )],
        }],
        raw_input_contents: vec![vec![255, 128, 1]],
    });

    assert_eq!(input.model_name, "test");
    assert_eq!(input.model_version, "v1");
    assert_eq!(input.id, "999");
    assert_eq!(input.inputs.len(), 1);
    assert_eq!(input.inputs[0].name, "img");
    assert_eq!(input.inputs[0].datatype, "FP32");
    assert_eq!(input.outputs.len(), 1);
    assert_eq!(input.outputs[0].name, "output1");
}

#[test]
fn it_converts_output_to_infer_response() {
    let response = stored_output().to_response(ModelInferRequest {
        model_name: "test".to_string(),
        model_version: "1".to_string(),
        id: "asdf".to_string(),
        parameters: vec![],
        inputs: vec![],
        outputs: vec![],
        raw_input_contents: vec![],
    });

    assert_eq!(response.model_name, "test");
    assert_eq!(response.model_version, "1");
    assert_eq!(response.id, "asdf");
    assert_eq!(response.raw_output_contents, vec![vec![69]]);
}

#[test]
fn disabled_parameter_matching_matches_any_parameters() {
    let mut a = stored_input();
    let mut b = stored_input();
    a.parameters.insert(
        "only_in_a".to_string(),
        Some(Parameter::Int64Param(1)),
    );
    b.parameters.insert(
        "only_in_a".to_string(),
        Some(Parameter::Int64Param(2)),
    );

    let config = settings(ServerMode::Collect).get_match_config();
    assert!(a.matches(&b, &config));

    let mut strict = settings(ServerMode::Collect);
    strict.request_matching.parameter_matching = ParameterMatching::IgnoreKeys;
    assert!(!a.matches(&b, &strict.get_match_config()));

    strict.request_matching.parameter_keys = vec!["only_in_a".to_string()];
    assert!(a.matches(&b, &strict.get_match_config()));

    let mut listed = settings(ServerMode::Collect);
    listed.request_matching.parameter_matching = ParameterMatching::MatchKeys;
    listed.request_matching.parameter_keys = vec!["only_in_a".to_string()];
    assert!(!a.matches(&b, &listed.get_match_config()));

    listed.request_matching.parameter_keys = vec!["param1".to_string()];
    assert!(a.matches(&b, &listed.get_match_config()));
}

#[test]
fn get_match_config_reflects_the_policy() {
    let mut s = settings(ServerMode::Collect);
    s.request_matching.match_id = true;
    s.request_matching.parameter_matching = ParameterMatching::MatchKeys;
    s.request_matching.parameter_keys = vec!["k".to_string()];
    s.request_matching.input_parameter_matching = ParameterMatching::IgnoreKeys;
    s.request_matching.output_parameter_matching = ParameterMatching::Disable;
    s.request_matching.match_pruned_output = true;

    let config = s.get_match_config();
    assert!(config.match_id);
    assert_eq!(config.parameter_keys, vec!["k".to_string()]);
    assert!(!config.exclude_parameters);
    assert!(config.exclude_input_parameters);
    assert!(!config.exclude_output_parameters);
    assert_eq!(config.output_parameter_keys.entries.len(), 0);
    assert!(config.match_pruned_output);
}

#[test]
fn it_reads_inference_files() {
    let store = InferenceStore::new("inference_store_test".to_string());

    let files = store.get_inference_files(&vec!["1.inferstore".to_string(), "2.test".to_string()]);

    assert_eq!(files.len(), 1);
    assert_eq!(files[0], "1.inferstore");
}
