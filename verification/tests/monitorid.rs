use cronwell::MonitorError;
use cronwell::MonitorId;
use cronwell::monitorid::try_decode_monitor_token;

#[test]
fn direct_https_token_is_accepted_and_secure() {
    let id = MonitorId::from_str("https://example.com/api/0/monitors/abc/").unwrap();
    assert!(id.is_secure());
    assert_eq!(id.api_url().as_str(), "https://example.com/api/0/monitors/abc/");
}

#[test]
fn direct_http_token_is_accepted_but_not_secure() {
    let id = MonitorId::from_str("http://example.com/api/").unwrap();
    assert!(!id.is_secure());
}

#[test]
fn url_text_is_normalized_by_parsing() {
    // Parsing adds the root path: the identifier keeps the normalized text,
    // not the raw token.
    let id = MonitorId::from_str("https://example.com").unwrap();
    assert_eq!(id.api_url().as_str(), "https://example.com/");
}

#[test]
fn base64_token_is_decoded_to_its_url() {
    let token = base64::encode("https://example.com/api/0/monitors/abc/");
    let id = MonitorId::from_str(&token).unwrap();
    assert_eq!(id.api_url().as_str(), "https://example.com/api/0/monitors/abc/");
    assert!(id.is_secure());
}

#[test]
fn token_is_trimmed_base64_of_the_url() {
    let url = "https://example.com/api/0/monitors/abc/";
    let id = MonitorId::from_str(url).unwrap();
    let expected = base64::encode(url);
    let expected = expected.trim_end_matches('=');
    assert_eq!(id.token(), expected);
    assert!(!id.token().ends_with('='));
    assert_ne!(id.token(), url, "the token must be an encoding, not the URL");
}

#[test]
fn non_http_scheme_is_rejected_as_unsupported() {
    let token = base64::encode("ftp://example.com/");
    match MonitorId::from_str(&token) {
        Err(MonitorError::UnsupportedScheme(scheme)) => assert_eq!(scheme, "ftp"),
        _ => panic!("an ftp URL must be rejected for its scheme"),
    }
}

#[test]
fn garbage_token_is_malformed() {
    assert!(matches!(
        MonitorId::from_str("not a token!!"),
        Err(MonitorError::Malformed)
    ));
}

#[test]
fn base64_of_a_non_url_is_malformed() {
    let token = base64::encode("just some words");
    assert!(matches!(
        MonitorId::from_str(&token),
        Err(MonitorError::Malformed)
    ));
}

#[test]
fn decoding_passes_literal_urls_through() {
    let decoded = try_decode_monitor_token("http://example.com/x").unwrap();
    assert_eq!(decoded, "http://example.com/x");
}

#[test]
fn decoding_rejects_invalid_base64() {
    assert!(try_decode_monitor_token("@@@@").is_none());
}

#[test]
fn decoding_rejects_base64_of_invalid_utf8() {
    let token = base64::encode([0xff_u8, 0xfe, 0x00, 0x81]);
    assert!(try_decode_monitor_token(&token).is_none());
}
