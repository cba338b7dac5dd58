use plane_cli::client::{handle_response, ApiError, Client, ClientError};
use plane_cli::settings::Settings;

fn test_settings(base_url: &str) -> Settings {
    Settings {
        api_key: Some("test-key".to_string()),
        base_url: base_url.to_string(),
        workspace: Some("test-ws".to_string()),
        timeout: 5,
    }
}

#[test]
fn test_new_requires_api_key() {
    let settings = Settings {
        api_key: None,
        base_url: "https://example.com".to_string(),
        workspace: None,
        timeout: 30,
    };
    let err = Client::new(&settings, false).unwrap_err();
    let msg = err.message();
    assert!(msg.contains("API key is required"), "got: {msg}");
}

#[test]
fn test_new_succeeds_with_api_key() {
    let client = Client::new(&test_settings("https://example.com"), false);
    assert!(client.is_ok());
}

#[test]
fn new_builds_api_root_and_keeps_settings() {
    let client = Client::new(&test_settings("https://example.com//"), true).unwrap();
    assert_eq!(client.base_url, "https://example.com/api/v1");
    assert_eq!(client.api_key, "test-key");
    assert_eq!(client.timeout, 5);
    assert!(!client.show_spinner);
    let client = Client::new(&test_settings("http://127.0.0.1:8080"), false).unwrap();
    assert_eq!(client.base_url, "http://127.0.0.1:8080/api/v1");
    assert!(client.show_spinner);
}

#[test]
fn new_rejects_key_unfit_for_a_header() {
    let mut settings = test_settings("https://example.com");
    settings.api_key = Some("bad\nkey".to_string());
    let err = Client::new(&settings, false).unwrap_err();
    assert!(matches!(err, ClientError::InvalidApiKey));
    assert_eq!(err.message(), "invalid API key value");

    settings.api_key = Some("tab\tand ünïcode".to_string());
    assert!(Client::new(&settings, false).is_ok());
}

#[test]
fn url_drops_leading_slashes_of_the_path() {
    let client = Client::new(&test_settings("https://example.com/"), true).unwrap();
    assert_eq!(client.url("test-path"), "https://example.com/api/v1/test-path");
    assert_eq!(client.url("//issues/123"), "https://example.com/api/v1/issues/123");
    assert_eq!(client.url(""), "https://example.com/api/v1/");
}

#[test]
fn success_returns_the_body() {
    let body = handle_response(200, "{\"id\":\"123\"}".to_string()).unwrap();
    assert_eq!(body, "{\"id\":\"123\"}");
    assert!(handle_response(204, String::new()).is_ok());
}

#[test]
fn test_error_401() {
    let msg = handle_response(401, String::new()).unwrap_err().message();
    assert!(msg.contains("unauthorized"), "got: {msg}");
}

#[test]
fn test_error_404() {
    let err = handle_response(404, "no such issue".to_string()).unwrap_err();
    let msg = err.message();
    assert!(msg.contains("not found"), "got: {msg}");
    assert_eq!(msg, "not found: no such issue");
}

#[test]
fn test_error_429() {
    let msg = handle_response(429, String::new()).unwrap_err().message();
    assert!(msg.contains("rate limited"), "got: {msg}");
}

#[test]
fn test_error_500() {
    let err = handle_response(500, "internal".to_string()).unwrap_err();
    let msg = err.message();
    assert!(msg.contains("server error"), "got: {msg}");
    assert_eq!(msg, "server error (500 Internal Server Error): internal");
}

#[test]
fn status_words_are_distinct() {
    let words = ["unauthorized", "not found", "rate limited", "server error"];
    let msgs: Vec<String> = [401u16, 404, 429, 503]
        .iter()
        .map(|s| handle_response(*s, "x".to_string()).unwrap_err().message())
        .collect();
    for (i, m) in msgs.iter().enumerate() {
        for (j, w) in words.iter().enumerate() {
            assert_eq!(m.contains(w), i == j, "{m} / {w}");
        }
    }
}

#[test]
fn other_statuses_are_generic_failures() {
    let err = handle_response(418, "teapot".to_string()).unwrap_err();
    assert!(matches!(err, ApiError::Failed { status: 418, .. }));
    assert_eq!(err.message(), "request failed (418 I'm a teapot): teapot");
    let err = handle_response(302, String::new()).unwrap_err();
    assert!(matches!(err, ApiError::Failed { status: 302, .. }));
    let err = handle_response(599, "x".to_string()).unwrap_err();
    assert!(matches!(err, ApiError::Server { status: 599, .. }));
    assert!(err.message().starts_with("server error (599"));
}

#[test]
fn describe_uses_the_given_status_words() {
    let err = ApiError::Server {
        status: 500,
        body: "b".to_string(),
    };
    assert_eq!(err.describe("500 X"), "server error (500 X): b");
    let err = ApiError::Failed {
        status: 400,
        body: String::new(),
    };
    assert_eq!(err.describe("400 Bad Request"), "request failed (400 Bad Request): ");
    assert_eq!(err.message(), "request failed (400 Bad Request): ");
    assert_eq!(ApiError::RateLimited.describe("ignored"), "rate limited — try again later");
}
