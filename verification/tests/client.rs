use typesafe_jev_sdk::client::{client_settings, settings_from_parsed, ClientSetupError, DEFAULT_CONNECT_TIMEOUT_SECS};

fn s(text: &str) -> String {
    text.to_string()
}

#[test]
fn default_endpoint_is_used_when_none_is_configured() {
    let settings = client_settings(None, Some(s("SECRET-REDACTED"))).unwrap();
    assert_eq!(settings.base_url, "https://api.typesafe.ai/v1/systemone");
    assert_eq!(settings.api_key, "SECRET-REDACTED");
    assert!(settings.https_only);
    assert_eq!(
        settings.headers,
        vec![
            (s("content-type"), s("application/json")),
            (s("accept"), s("application/json")),
        ]
    );
}

#[test]
fn configured_endpoint_is_normalized() {
    let settings = client_settings(Some(s("HTTPS://Example.COM")), Some(s("key"))).unwrap();
    assert_eq!(settings.base_url, "https://example.com/");
}

#[test]
fn invalid_endpoint_is_refused() {
    let r = client_settings(Some(s("not a url")), Some(s("key")));
    assert!(matches!(r, Err(ClientSetupError::InvalidBaseUrl)));
}

#[test]
fn invalid_endpoint_is_reported_before_missing_key() {
    let r = client_settings(Some(s("not a url")), None);
    assert!(matches!(r, Err(ClientSetupError::InvalidBaseUrl)));
}

#[test]
fn missing_key_is_refused() {
    let r = client_settings(None, None);
    assert!(matches!(r, Err(ClientSetupError::MissingApiKey)));
}

#[test]
fn settings_from_parsed_endpoint() {
    assert!(matches!(settings_from_parsed(None, Some(s("k"))), Err(ClientSetupError::InvalidBaseUrl)));
    let st = settings_from_parsed(Some(s("https://x.example/")), Some(s("k"))).unwrap();
    assert_eq!(st.base_url, "https://x.example/");
    assert_eq!(st.api_key, "k");
}

#[test]
fn default_timeout_is_five_seconds() {
    assert_eq!(DEFAULT_CONNECT_TIMEOUT_SECS, 5);
}
