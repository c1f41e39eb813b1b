use ninja_api::{classify_status, generate_api_configurations, Api, ApiConfig, ApiError, ApiParam, NinjaAPI};

fn sample_registry() -> NinjaAPI {
    NinjaAPI::new(
        "https://api.example.com/v1",
        "test-api-key",
        generate_api_configurations(),
    )
    .expect("registry construction with valid credentials and catalog")
}

#[test]
fn catalog_has_four_modules_in_order() {
    let configs = generate_api_configurations();
    assert_eq!(configs.len(), 4);
    assert_eq!(configs[0].name.as_str(), "Dad Jokes");
    assert_eq!(configs[0].path.as_str(), "dadjokes");
    assert_eq!(configs[0].parameter_names, vec!["limit".to_string()]);
    assert_eq!(configs[1].name.as_str(), "Historical Events");
    assert_eq!(configs[1].path.as_str(), "historicalevents");
    assert_eq!(
        configs[1].parameter_names,
        vec![
            "text".to_string(),
            "year".to_string(),
            "month".to_string(),
            "day".to_string()
        ]
    );
    assert_eq!(configs[2].name.as_str(), "Chuck Norris");
    assert_eq!(configs[2].path.as_str(), "chucknorris");
    assert!(configs[2].parameter_names.is_empty());
    assert_eq!(configs[3].name.as_str(), "Password Generator");
    assert_eq!(configs[3].path.as_str(), "password");
    assert_eq!(configs[3].parameter_names, vec!["length".to_string()]);
}

#[test]
fn registry_new_finds_every_configured_module() {
    let registry = sample_registry();
    for name in [
        "Dad Jokes",
        "Historical Events",
        "Chuck Norris",
        "Password Generator",
    ] {
        let module = registry.find_module(name).expect("configured module resolves");
        assert_eq!(module.name().as_str(), name);
    }
}

#[test]
fn duplicate_module_name_is_rejected() {
    let configs = vec![
        ApiConfig::new("Twin".to_string(), "first".to_string(), Vec::new()),
        ApiConfig::new("Twin".to_string(), "second".to_string(), Vec::new()),
    ];
    let result = NinjaAPI::new("https://api.example.com", "key", configs);
    assert!(matches!(result, Err(ApiError::DuplicateModuleName)));
}

#[test]
fn missing_api_key_is_rejected_before_modules_are_built() {
    let result = NinjaAPI::new("https://api.example.com", "", generate_api_configurations());
    assert!(matches!(result, Err(ApiError::MissingCredential)));
}

#[test]
fn missing_base_url_is_rejected() {
    let result = NinjaAPI::new("", "key", generate_api_configurations());
    assert!(matches!(result, Err(ApiError::MissingCredential)));
}

#[test]
fn unknown_module_lookup_fails() {
    let registry = sample_registry();
    match registry.find_module("Knock Knock") {
        Err(e) => assert_eq!(e, ApiError::ModuleNotFound),
        Ok(_) => panic!("lookup of an unknown module must fail"),
    }
}

#[test]
fn set_parameter_round_trip_on_dad_jokes() {
    let mut configs = generate_api_configurations();
    let mut module = Api::new(configs.remove(0));
    module
        .set_parameter("limit", "5")
        .expect("limit is a declared parameter");
    assert_eq!(module.build_query_string(), "limit=5");
}

#[test]
fn set_parameter_unknown_name_fails_and_changes_nothing() {
    let mut configs = generate_api_configurations();
    let mut module = Api::new(configs.remove(0));
    module.set_parameter("limit", "3").expect("declared parameter");
    let before = module.build_query_string();
    let result = module.set_parameter("linit", "5");
    assert_eq!(result, Err(ApiError::UnknownParameter));
    assert_eq!(module.build_query_string(), before);
    assert_eq!(module.build_query_string(), "limit=3");
}

#[test]
fn query_string_is_identical_across_repeated_builds() {
    let mut configs = generate_api_configurations();
    let mut module = Api::new(configs.remove(1));
    module.set_parameter("year", "1999").expect("declared parameter");
    let first = module.build_query_string();
    let second = module.build_query_string();
    assert_eq!(first, second);
}

#[test]
fn empty_parameters_are_omitted_from_query_string() {
    let mut configs = generate_api_configurations();
    let mut module = Api::new(configs.remove(1));
    module.set_parameter("text", "abc").expect("declared parameter");
    module.set_parameter("day", "9").expect("declared parameter");
    assert_eq!(module.build_query_string(), "text=abc&day=9");
}

#[test]
fn module_with_no_set_parameters_builds_empty_query_string() {
    let mut configs = generate_api_configurations();
    let module = Api::new(configs.remove(1));
    assert_eq!(module.build_query_string(), "");
}

#[test]
fn url_for_module_without_query_has_no_question_mark() {
    let registry = sample_registry();
    let url = registry
        .build_request_url("Dad Jokes")
        .expect("configured module resolves");
    assert_eq!(url, "https://api.example.com/v1/dadjokes");
}

#[test]
fn chuck_norris_module_has_no_parameters() {
    let registry = sample_registry();
    let module = registry.find_module("Chuck Norris").expect("configured module");
    assert!(module.list_params().is_empty());
    assert!(module.get_api_params().is_empty());
    let url = registry
        .build_request_url("Chuck Norris")
        .expect("configured module resolves");
    assert_eq!(url, "https://api.example.com/v1/chucknorris");
}

#[test]
fn url_includes_query_string_after_binding_parameters() {
    let mut registry = sample_registry();
    registry
        .set_parameter("Historical Events", "text", "rome")
        .expect("declared parameter on configured module");
    registry
        .set_parameter("Historical Events", "year", "476")
        .expect("declared parameter on configured module");
    let url = registry
        .build_request_url("Historical Events")
        .expect("configured module resolves");
    assert_eq!(
        url,
        "https://api.example.com/v1/historicalevents?text=rome&year=476"
    );
}

#[test]
fn registry_set_parameter_propagates_module_lookup_failure() {
    let mut registry = sample_registry();
    let result = registry.set_parameter("Knock Knock", "limit", "1");
    assert_eq!(result, Err(ApiError::ModuleNotFound));
}

#[test]
fn registry_set_parameter_propagates_unknown_parameter() {
    let mut registry = sample_registry();
    let result = registry.set_parameter("Dad Jokes", "size", "1");
    assert_eq!(result, Err(ApiError::UnknownParameter));
    let url = registry
        .build_request_url("Dad Jokes")
        .expect("configured module resolves");
    assert_eq!(url, "https://api.example.com/v1/dadjokes");
}

#[test]
fn clearing_a_parameter_removes_it_from_the_query() {
    let mut registry = sample_registry();
    registry
        .set_parameter("Password Generator", "length", "32")
        .expect("declared parameter");
    let with_query = registry
        .build_request_url("Password Generator")
        .expect("configured module resolves");
    assert_eq!(with_query, "https://api.example.com/v1/password?length=32");
    registry
        .set_parameter("Password Generator", "length", "")
        .expect("declared parameter");
    let without_query = registry
        .build_request_url("Password Generator")
        .expect("configured module resolves");
    assert_eq!(without_query, "https://api.example.com/v1/password");
}

#[test]
fn build_request_url_fails_for_unknown_module() {
    let registry = sample_registry();
    let result = registry.build_request_url("Knock Knock");
    assert_eq!(result, Err(ApiError::ModuleNotFound));
}

#[test]
fn api_param_encodes_name_and_value() {
    let mut param = ApiParam::new(&"limit".to_string());
    assert_eq!(param.to_string(), "limit=");
    assert!(param.is_unset());
    param.update_value("7");
    assert!(!param.is_unset());
    assert_eq!(param.value().as_str(), "7");
    assert_eq!(param.to_string(), "limit=7");
    param.update_value("");
    assert!(param.is_unset());
    assert_eq!(param.to_string(), "limit=");
}

#[test]
fn successful_statuses_pass_classification() {
    assert_eq!(classify_status(200), Ok(200));
    assert_eq!(classify_status(204), Ok(204));
    assert_eq!(classify_status(299), Ok(299));
}

#[test]
fn non_success_statuses_become_http_errors() {
    assert_eq!(classify_status(199), Err(ApiError::HttpError(199)));
    assert_eq!(classify_status(301), Err(ApiError::HttpError(301)));
    assert_eq!(classify_status(404), Err(ApiError::HttpError(404)));
    assert_eq!(classify_status(500), Err(ApiError::HttpError(500)));
}

#[test]
fn every_error_kind_has_a_description() {
    let errors = [
        ApiError::MissingCredential,
        ApiError::DuplicateModuleName,
        ApiError::ModuleNotFound,
        ApiError::UnknownParameter,
        ApiError::TransportError,
        ApiError::HttpError(503),
        ApiError::Cancelled,
    ];
    for e in errors {
        assert!(!e.describe().is_empty());
    }
}

#[test]
fn registry_exposes_credentials_for_the_transport_layer() {
    let registry = sample_registry();
    assert_eq!(registry.base_url().as_str(), "https://api.example.com/v1");
    assert_eq!(registry.api_key().as_str(), "test-api-key");
}
