use inferstore::cachable::Cachable;
use inferstore::cachable_modelconfig::CachableModelConfig;
use inferstore::cachable_modelinfer::CachableModelInfer;
use inferstore::codec::config_file_name;
use inferstore::codec::infer_response_hash_from_name;
use inferstore::codec::is_inference_file_name;
use inferstore::codec::parse_config_file_name;
use inferstore::fingerprint::Input;
use inferstore::fingerprint::Output;
use inferstore::fingerprint::ProcessedInput;
use inferstore::params::Parameter;
use inferstore::pmap::ParamMap;
use inferstore::protocol::ModelConfigRequest;
use inferstore::protocol::ModelConfigResponse;
use inferstore::response::ProcessedOutput;

fn sample_input() -> ProcessedInput {
    let mut parameters = ParamMap::new();
    parameters.insert(
        "param1".to_string(),
        Some(Parameter::StringParam("param_value1".to_string())),
    );
    parameters.insert(
        "param2".to_string(),
        Some(Parameter::StringParam("param_value2".to_string())),
    );
    let mut input_params = ParamMap::new();
    input_params.insert(
        "input_param1".to_string(),
        Some(Parameter::StringParam("input_param_value1".to_string())),
    );
    input_params.insert(
        "input_param2".to_string(),
        Some(Parameter::StringParam("input_param_value2".to_string())),
    );
    let mut output_params = ParamMap::new();
    output_params.insert(
        "output_param1".to_string(),
        Some(Parameter::StringParam("output_param_value1".to_string())),
    );
    output_params.insert(
        "output_param2".to_string(),
        Some(Parameter::StringParam("output_param_value2".to_string())),
    );
    let content_hash: Vec<u8> = (1..=32u8).collect();
    ProcessedInput {
        model_name: "test".to_string(),
        model_version: "1".to_string(),
        id: "1".to_string(),
        parameters,
        inputs: vec![Input {
            name: "input1".to_string(),
            datatype: "INT64".to_string(),
            shape: vec![1, 2, 3],
            parameters: input_params,
        }],
        outputs: vec![Output {
            name: "output1".to_string(),
            parameters: output_params,
        }],
        content_hash,
    }
}

fn sample_output() -> ProcessedOutput {
    let mut parameters = ParamMap::new();
    parameters.insert(
        "test".to_string(),
        Some(Parameter::StringParam("test".to_string())),
    );
    let mut output_params = ParamMap::new();
    output_params.insert(
        "test".to_string(),
        Some(Parameter::StringParam("test".to_string())),
    );
    ProcessedOutput {
        parameters,
        outputs: vec![inferstore::response::Output {
            parameters: output_params,
            name: "test".to_string(),
            datatype: "INT64".to_string(),
            shape: vec![1, 2, 3],
        }],
        raw_output_contents: vec![vec![69]],
    }
}

const INFER_NAME: &str =
    "infer-c9b7e475dd69fa72#bf645d11f6b25b6f#192d91107cec4716#111f49954e134b85.inferstore";

#[test]
fn it_creates() {
    let cachable = CachableModelInfer::create(sample_input(), sample_output());
    let path = cachable.file_name();

    let output = cachable.get_output();
    let input = cachable.get_input();

    assert_eq!(sample_input(), *input);
    assert_eq!(sample_output(), output);
    assert_eq!(path, INFER_NAME);
    assert_eq!(path.len(), 84);
}

#[test]
fn it_loads() {
    let output_hash = infer_response_hash_from_name(INFER_NAME).expect("could not load cachable");
    let cachable =
        CachableModelInfer::from_loaded(sample_input(), sample_output(), output_hash);

    let input = cachable.get_input();
    let output = cachable.get_output();

    assert_eq!(sample_input(), *input);
    assert_eq!(sample_output(), output);
    assert_eq!(cachable.file_name(), INFER_NAME);
}

#[test]
fn it_matches_input() {
    let cachable = CachableModelInfer::create(sample_input(), sample_output());

    assert!(cachable.matches(&sample_input(), &Default::default()));
}

#[test]
fn it_matches_file_name() {
    assert!(CachableModelInfer::matches_file_name(INFER_NAME));
    assert!(!CachableModelInfer::matches_file_name("infer-asdf.inferstore"));
}

#[test]
fn cachable_modelconfig_it_creates() {
    let req = ModelConfigRequest {
        name: "test".to_string(),
        version: "1".to_string(),
    };
    let body = ModelConfigResponse {
        config_json: "{\"name\":\"test\"}".as_bytes().to_vec(),
    };

    let cachable = CachableModelConfig::create(req.duplicate(), body.duplicate());

    let output = cachable.get_output();
    let input = cachable.get_input();

    assert_eq!(req, *input);
    assert_eq!(body, output);
    assert_eq!(cachable.file_name(), "config-test#1.inferstore");
}

#[test]
fn cachable_modelconfig_it_loads() {
    let (name, version) =
        parse_config_file_name("config-test#1.inferstore").expect("could not load cachable");
    let body = ModelConfigResponse {
        config_json: "{}".as_bytes().to_vec(),
    };
    let cachable =
        CachableModelConfig::create(ModelConfigRequest { name, version }, body.duplicate());

    let input = cachable.get_input();
    let output = cachable.get_output();

    assert_eq!(
        ModelConfigRequest {
            name: "test".to_string(),
            version: "1".to_string()
        },
        *input
    );
    assert_eq!(body, output);
    assert_eq!(cachable.file_name(), "config-test#1.inferstore");
}

#[test]
fn it_saves_and_loads_special_characters() {
    let req = ModelConfigRequest {
        name: "_test-".to_string(),
        version: "_1-".to_string(),
    };
    let body = ModelConfigResponse {
        config_json: "{}".as_bytes().to_vec(),
    };

    let cachable = CachableModelConfig::create(req, body);

    assert_eq!("_test-", cachable.input.name);
    assert_eq!("_1-", cachable.input.version);

    let (name, version) =
        parse_config_file_name(&cachable.file_name()).expect("could not load cachable");

    assert_eq!("_test-", name);
    assert_eq!("_1-", version);
}

#[test]
fn cachable_modelconfig_it_matches_input() {
    let req = ModelConfigRequest {
        name: "test".to_string(),
        version: "1".to_string(),
    };
    let body = ModelConfigResponse {
        config_json: "{}".as_bytes().to_vec(),
    };

    let cachable = CachableModelConfig::create(req.duplicate(), body);

    assert!(cachable.matches(&req, &Default::default()));
}

#[test]
fn cachable_modelconfig_it_matches_file_name() {
    assert!(CachableModelConfig::matches_file_name(
        "config-test#1.inferstore"
    ));
    assert!(!CachableModelConfig::matches_file_name("asdf.inferstore"));
}

#[test]
fn it_encodes_special_characters_in_config_names() {
    let name = config_file_name("a/b", "1 2");
    assert_eq!(name, "config-a%2Fb#1%202.inferstore");

    let (recovered_name, recovered_version) =
        parse_config_file_name(&name).expect("could not parse name");
    assert_eq!(recovered_name, "a/b");
    assert_eq!(recovered_version, "1 2");
}

#[test]
fn it_rejects_config_names_without_separator() {
    assert_eq!(parse_config_file_name("config-test.inferstore"), None);
    assert_eq!(parse_config_file_name("asdf.inferstore"), None);
}

#[test]
fn it_recovers_the_response_hash_from_the_name() {
    let block = infer_response_hash_from_name(INFER_NAME).expect("could not parse name");
    assert_eq!(block, vec![0x11, 0x1f, 0x49, 0x95, 0x4e, 0x13, 0x4b, 0x85]);
    assert_eq!(block, sample_output().hash());
    assert_eq!(infer_response_hash_from_name("short"), None);
}

#[test]
fn it_tells_store_files_apart_by_extension() {
    assert!(is_inference_file_name("1.inferstore"));
    assert!(is_inference_file_name(INFER_NAME));
    assert!(!is_inference_file_name("2.test"));
    assert!(!is_inference_file_name(".inferstore"));
}

#[test]
fn it_names_entries_deterministically() {
    let a = CachableModelInfer::create(sample_input(), sample_output());
    let b = CachableModelInfer::create(sample_input(), sample_output());
    assert_eq!(a.file_name(), b.file_name());
}

#[test]
fn it_hashes_raw_contents_through_the_digest() {
    let request = inferstore::protocol::ModelInferRequest {
        model_name: "m".to_string(),
        model_version: "1".to_string(),
        id: "r1".to_string(),
        parameters: vec![],
        inputs: vec![],
        outputs: vec![],
        raw_input_contents: vec![vec![255, 128, 1]],
    };
    let fp1 = ProcessedInput::from_infer_request(&request);
    let fp2 = ProcessedInput::from_infer_request(&request);
    assert_eq!(fp1.content_hash.len(), 32);
    assert_eq!(fp1.content_hash, fp2.content_hash);

    let mut other = inferstore::protocol::ModelInferRequest {
        model_name: "m".to_string(),
        model_version: "1".to_string(),
        id: "r1".to_string(),
        parameters: vec![],
        inputs: vec![],
        outputs: vec![],
        raw_input_contents: vec![vec![255, 128, 2]],
    };
    let fp3 = ProcessedInput::from_infer_request(&other);
    assert_ne!(fp1.content_hash, fp3.content_hash);

    other.raw_input_contents = vec![vec![255, 128], vec![1]];
    let fp4 = ProcessedInput::from_infer_request(&other);
    assert_eq!(fp1.content_hash, fp4.content_hash);
}

#[test]
fn it_decodes_uppercase_hex_blocks() {
    let upper =
        "infer-C9B7E475DD69FA72#BF645D11F6B25B6F#192D91107CEC4716#111F49954E134B85.inferstore";
    let block = infer_response_hash_from_name(upper).expect("hex of either case decodes");
    assert_eq!(block, vec![0x11, 0x1f, 0x49, 0x95, 0x4e, 0x13, 0x4b, 0x85]);
}

#[test]
fn it_passes_malformed_percent_escapes_through() {
    let (name, version) = parse_config_file_name("config-a%ZZ#1.inferstore").expect("parses");
    assert_eq!(name, "a%ZZ");
    assert_eq!(version, "1");
}

#[test]
fn it_encodes_parameter_values_canonically() {
    assert_eq!(Parameter::BoolParam(true).as_bytes(), vec![1, 1]);
    assert_eq!(Parameter::BoolParam(false).as_bytes(), vec![1, 0]);
    assert_eq!(
        Parameter::Int64Param(-2).as_bytes(),
        vec![2, 254, 255, 255, 255, 255, 255, 255, 255]
    );
    assert_eq!(
        Parameter::StringParam("hi".to_string()).as_bytes(),
        vec![3, 0x68, 0x69]
    );
    assert_eq!(
        Parameter::DoubleParam(1.5f64.to_bits()).as_bytes(),
        vec![4, 0, 0, 0, 0, 0, 0, 0xf8, 0x3f]
    );
    assert_eq!(
        Parameter::Uint64Param(0x0102).as_bytes(),
        vec![5, 2, 1, 0, 0, 0, 0, 0, 0]
    );
}
