use deepseek_api::client::{
    authorization, balance_url, completions_url, models_url, ClientBuilder, DeepSeekClientBuilder,
};
use deepseek_api::error::{is_error_status, ApiError};

#[test]
fn test_ok_responses() {
    for status in [200u16, 201, 302, 404] {
        assert!(!is_error_status(status));
        assert_eq!(ApiError::from_status(status, String::new()), None);
    }
}

#[test]
fn test_error_mapping() {
    let test_cases = vec![
        (400, "bad request", ApiError::BadRequest("bad request".into())),
        (401, "unauthorized", ApiError::Unauthorized("unauthorized".into())),
        (402, "insufficient funds", ApiError::InsufficientFunds("insufficient funds".into())),
        (422, "invalid params", ApiError::InvalidParameters("invalid params".into())),
        (429, "rate limit", ApiError::RateLimitExceeded("rate limit".into())),
        (500, "server error", ApiError::ServerError("server error".into())),
        (503, "unavailable", ApiError::ServiceUnavailable("unavailable".into())),
    ];
    for (status, err_str, expected_err) in test_cases {
        assert!(is_error_status(status));
        let err = ApiError::from_status(status, err_str.to_string()).unwrap();
        assert_eq!(err, expected_err, "status {}", status);
        assert_eq!(err.to_string(), expected_err.to_string());
    }
}

#[test]
fn api_error_descriptions() {
    assert_eq!(ApiError::BadRequest("x".into()).to_string(), "Bad Request: x");
    assert_eq!(ApiError::Unknown("boom".into()).to_string(), "Unknown Error: boom");
    assert_eq!(
        ApiError::ServiceUnavailable("later".into()).to_string(),
        "Service Unavailable: later"
    );
    assert!(!is_error_status(403));
}

#[test]
fn test_deep_seek_client_builder_from_env_var() {
    let builder = DeepSeekClientBuilder::from_env_value(Some("test_api_key".to_string())).with_timeout(15);
    assert_eq!(builder.host(), "https://api.deepseek.com");
    assert_eq!(builder.timeout(), Some(15));
    assert_eq!(builder.api_key(), "test_api_key");
    assert_eq!(DeepSeekClientBuilder::from_env_value(None).api_key(), "");
}

#[test]
fn test_deep_seek_client_override_options() {
    let builder = DeepSeekClientBuilder::new("test_api_key".to_string())
        .with_host("http://override.com")
        .with_api_key("another_test_api_keyu");
    assert_eq!(builder.host(), "http://override.com");
    assert_eq!(builder.api_key(), "another_test_api_keyu");
}

#[test]
fn test_deep_seek_client_builder_from_new_function() {
    let builder = DeepSeekClientBuilder::new("test_api_key".to_string()).with_timeout(20);
    assert_eq!(builder.host(), "https://api.deepseek.com");
    assert_eq!(builder.timeout(), Some(20));
    assert_eq!(builder.api_key(), "test_api_key");
}

#[test]
fn client_builder_settings() {
    let builder = ClientBuilder::new("key".to_string()).timeout(30);
    assert_eq!(builder.api_key(), "key");
    assert_eq!(builder.timeout_secs(), Some(30));
    assert_eq!(builder.host(), "https://api.deepseek.com");
    assert_eq!(ClientBuilder::new("k".to_string()).timeout_secs(), None);
}

#[test]
fn endpoints_and_authorization() {
    assert_eq!(authorization("abc"), "Bearer abc");
    assert_eq!(models_url("https://h"), "https://h/models");
    assert_eq!(balance_url("https://h"), "https://h/user/balance");
    assert_eq!(completions_url("https://h", true), "https://h/beta/completions");
    assert_eq!(completions_url("https://h", false), "https://h/chat/completions");
}
