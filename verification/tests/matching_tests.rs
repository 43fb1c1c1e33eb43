use inferstore::fingerprint::Input;
use inferstore::fingerprint::MatchConfig;
use inferstore::fingerprint::Output;
use inferstore::fingerprint::ProcessedInput;
use inferstore::matching::KeyListMap;
use inferstore::matching::btreemap_compare;
use inferstore::params::Parameter;
use inferstore::pmap::ParamMap;

fn base_input() -> ProcessedInput {
    let mut parameters = ParamMap::new();
    parameters.insert(
        "param1".to_string(),
        Some(Parameter::StringParam("param_value1".to_string())),
    );
    parameters.insert(
        "param2".to_string(),
        Some(Parameter::StringParam("param_value2".to_string())),
    );
    let mut input_params = ParamMap::new();
    input_params.insert(
        "input_param1".to_string(),
        Some(Parameter::StringParam("input_param_value1".to_string())),
    );
    input_params.insert(
        "input_param2".to_string(),
        Some(Parameter::StringParam("input_param_value2".to_string())),
    );
    let mut output_params = ParamMap::new();
    output_params.insert(
        "output_param1".to_string(),
        Some(Parameter::StringParam("output_param_value1".to_string())),
    );
    output_params.insert(
        "output_param2".to_string(),
        Some(Parameter::StringParam("output_param_value2".to_string())),
    );
    let content_hash: Vec<u8> = (1..=32u8).collect();
    ProcessedInput {
        model_name: "test".to_string(),
        model_version: "1".to_string(),
        id: "1".to_string(),
        parameters,
        inputs: vec![Input {
            name: "input1".to_string(),
            datatype: "INT64".to_string(),
            shape: vec![1, 2, 3],
            parameters: input_params,
        }],
        outputs: vec![Output {
            name: "output1".to_string(),
            parameters: output_params,
        }],
        content_hash,
    }
}

#[test]
fn it_matches_equal_inputs() {
    let input1 = base_input();
    let input2 = base_input();

    assert!(input1.matches(&input2, &Default::default()));
}

#[test]
fn it_not_matches_different_model_name() {
    let input1 = base_input();
    let mut input2 = base_input();

    input2.model_name = "hoi".to_string();

    assert!(!input1.matches(&input2, &Default::default()));
}

#[test]
fn it_not_matches_different_model_version() {
    let input1 = base_input();
    let mut input2 = base_input();

    input2.model_version = "19".to_string();

    assert!(!input1.matches(&input2, &Default::default()));
}

#[test]
fn it_not_matches_different_parameters() {
    let input1 = base_input();
    let mut input2 = base_input();

    input2.parameters.insert(
        "test".to_string(),
        Some(Parameter::StringParam("test2".to_string())),
    );

    assert!(!input1.matches(&input2, &Default::default()));
}

#[test]
fn it_excludes_provided_parameters() {
    let mut input1 = base_input();
    let mut input2 = base_input();

    input1.parameters.insert(
        "ignore_me".to_string(),
        Some(Parameter::StringParam("1".to_string())),
    );
    input2.parameters.insert(
        "ignore_me".to_string(),
        Some(Parameter::StringParam("2".to_string())),
    );

    assert!(input1.matches(
        &input2,
        &MatchConfig {
            parameter_keys: vec!["ignore_me".to_string()],
            ..Default::default()
        }
    ));
}

#[test]
fn it_includes_provided_parameters() {
    let mut input1 = base_input();
    let mut input2 = base_input();

    input1.parameters.insert(
        "ignore_me".to_string(),
        Some(Parameter::StringParam("1".to_string())),
    );
    input2.parameters.insert(
        "ignore_me".to_string(),
        Some(Parameter::StringParam("2".to_string())),
    );

    assert!(input1.matches(
        &input2,
        &MatchConfig {
            parameter_keys: vec!["test".to_string()],
            exclude_parameters: false,
            ..Default::default()
        }
    ));
}

#[test]
fn it_not_matches_different_input_parameters() {
    let input1 = base_input();
    let mut input2 = base_input();

    input2.inputs[0].parameters.insert(
        "test".to_string(),
        Some(Parameter::StringParam("test2".to_string())),
    );

    assert!(!input1.matches(&input2, &Default::default()));
}

#[test]
fn it_excludes_provided_input_parameters() {
    let mut input1 = base_input();
    let mut input2 = base_input();

    input1.inputs[0].parameters.insert(
        "ignore_me".to_string(),
        Some(Parameter::StringParam("1".to_string())),
    );
    input2.inputs[0].parameters.insert(
        "ignore_me".to_string(),
        Some(Parameter::StringParam("2".to_string())),
    );

    let mut input_parameter_keys = KeyListMap::new();
    input_parameter_keys.push("input1".to_string(), vec!["ignore_me".to_string()]);

    assert!(input1.matches(
        &input2,
        &MatchConfig {
            input_parameter_keys,
            ..Default::default()
        }
    ));
}

#[test]
fn it_includes_provided_input_parameters() {
    let mut input1 = base_input();
    let mut input2 = base_input();

    input1.inputs[0].parameters.insert(
        "ignore_me".to_string(),
        Some(Parameter::StringParam("1".to_string())),
    );
    input2.inputs[0].parameters.insert(
        "ignore_me".to_string(),
        Some(Parameter::StringParam("2".to_string())),
    );

    let mut input_parameter_keys = KeyListMap::new();
    input_parameter_keys.push("input1".to_string(), vec!["test".to_string()]);

    assert!(input1.matches(
        &input2,
        &MatchConfig {
            input_parameter_keys,
            exclude_input_parameters: false,
            ..Default::default()
        }
    ));
}

#[test]
fn it_not_matches_different_output_parameters() {
    let input1 = base_input();
    let mut input2 = base_input();

    input2.outputs[0].parameters.insert(
        "test".to_string(),
        Some(Parameter::StringParam("test2".to_string())),
    );

    assert!(!input1.matches(&input2, &Default::default()));
}

#[test]
fn it_excludes_provided_output_parameters() {
    let mut input1 = base_input();
    let mut input2 = base_input();

    input1.outputs[0].parameters.insert(
        "ignore_me".to_string(),
        Some(Parameter::StringParam("1".to_string())),
    );
    input2.outputs[0].parameters.insert(
        "ignore_me".to_string(),
        Some(Parameter::StringParam("2".to_string())),
    );

    let mut output_parameter_keys = KeyListMap::new();
    output_parameter_keys.push("output1".to_string(), vec!["ignore_me".to_string()]);

    assert!(input1.matches(
        &input2,
        &MatchConfig {
            output_parameter_keys,
            ..Default::default()
        }
    ));
}

#[test]
fn it_includes_provided_output_parameters() {
    let mut input1 = base_input();
    let mut input2 = base_input();

    input1.outputs[0].parameters.insert(
        "ignore_me".to_string(),
        Some(Parameter::StringParam("1".to_string())),
    );
    input2.outputs[0].parameters.insert(
        "ignore_me".to_string(),
        Some(Parameter::StringParam("2".to_string())),
    );

    let mut output_parameter_keys = KeyListMap::new();
    output_parameter_keys.push("input1".to_string(), vec!["test".to_string()]);

    assert!(input1.matches(
        &input2,
        &MatchConfig {
            output_parameter_keys,
            exclude_output_parameters: false,
            ..Default::default()
        }
    ));
}

#[test]
fn it_not_matches_different_input_name() {
    let input1 = base_input();
    let mut input2 = base_input();

    input2.inputs[0].name = "asdf".to_string();

    assert!(!input1.matches(&input2, &MatchConfig { ..Default::default() }));
}

#[test]
fn it_not_matches_different_input_shape() {
    let input1 = base_input();
    let mut input2 = base_input();

    input2.inputs[0].shape = vec![3, 2, 1];

    assert!(!input1.matches(&input2, &MatchConfig { ..Default::default() }));
}

#[test]
fn it_not_matches_different_input_datatype() {
    let input1 = base_input();
    let mut input2 = base_input();

    input2.inputs[0].datatype = "FP32".to_string();

    assert!(!input1.matches(&input2, &MatchConfig { ..Default::default() }));
}

#[test]
fn it_not_matches_different_output_name() {
    let input1 = base_input();
    let mut input2 = base_input();

    input2.outputs[0].name = "asdf".to_string();

    assert!(!input1.matches(&input2, &MatchConfig { ..Default::default() }));
}

#[test]
fn it_matches_different_id_by_default() {
    let input1 = base_input();
    let mut input2 = base_input();

    input2.id = "99".to_string();

    assert!(input1.matches(&input2, &Default::default()));
    assert!(!input1.matches(
        &input2,
        &MatchConfig {
            match_id: true,
            ..Default::default()
        }
    ));
}

#[test]
fn it_compares_maps_on_included_keys_only() {
    let mut m1 = ParamMap::new();
    m1.insert("a".to_string(), Some(Parameter::Int64Param(1)));
    m1.insert("b".to_string(), Some(Parameter::Int64Param(2)));
    let mut m2 = ParamMap::new();
    m2.insert("a".to_string(), Some(Parameter::Int64Param(1)));
    m2.insert("b".to_string(), Some(Parameter::Int64Param(3)));

    assert!(btreemap_compare(&m1, &m2, &vec!["a".to_string()], false));
    assert!(!btreemap_compare(&m1, &m2, &vec!["b".to_string()], false));
    assert!(!btreemap_compare(
        &m1,
        &m2,
        &vec!["a".to_string(), "b".to_string()],
        false
    ));
    assert!(btreemap_compare(&m1, &m2, &vec![], false));
    assert!(btreemap_compare(
        &m1,
        &m2,
        &vec!["missing".to_string()],
        false
    ));
}

#[test]
fn it_compares_maps_outside_excluded_keys() {
    let mut m1 = ParamMap::new();
    m1.insert("a".to_string(), Some(Parameter::Int64Param(1)));
    m1.insert("b".to_string(), Some(Parameter::Int64Param(2)));
    let mut m2 = ParamMap::new();
    m2.insert("a".to_string(), Some(Parameter::Int64Param(1)));
    m2.insert("b".to_string(), Some(Parameter::Int64Param(3)));

    assert!(btreemap_compare(&m1, &m2, &vec!["b".to_string()], true));
    assert!(!btreemap_compare(&m1, &m2, &vec!["a".to_string()], true));
    assert!(!btreemap_compare(&m1, &m2, &vec![], true));

    let mut m3 = ParamMap::new();
    m3.insert("a".to_string(), Some(Parameter::Int64Param(1)));
    assert!(!btreemap_compare(&m1, &m3, &vec![], true));
    assert!(btreemap_compare(&m1, &m3, &vec!["b".to_string()], true));
}

#[test]
fn it_keeps_parameter_maps_in_key_order() {
    let mut m = ParamMap::new();
    m.insert("zz".to_string(), Some(Parameter::BoolParam(true)));
    m.insert("aa".to_string(), Some(Parameter::BoolParam(false)));
    m.insert("mm".to_string(), None);
    m.insert("aa".to_string(), Some(Parameter::Int64Param(7)));

    assert_eq!(m.len(), 3);
    assert_eq!(m.entries[0].key, "aa");
    assert_eq!(m.entries[1].key, "mm");
    assert_eq!(m.entries[2].key, "zz");
    assert_eq!(m.get("aa"), Some(Some(Parameter::Int64Param(7))));
    assert_eq!(m.get("mm"), Some(None));
    assert_eq!(m.get("absent"), None);
}
