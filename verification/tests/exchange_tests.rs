use oauth_core::exchange::{
    parse_token_response, parse_refresh_response, tokens_from_fields, exchange_params,
    refresh_params, default_token_endpoint, ExchangeError,
};
use oauth_core::{Tokens, AppConfig};

fn stored_tokens() -> Tokens {
    Tokens {
        access_token: "OLD".to_string(),
        refresh_token: "R0".to_string(),
        expires_in: 100,
        created_at: 10,
    }
}

#[test]
fn exchange_success_normalizes_all_fields() {
    let now: u64 = 1_700_000_123;
    let body = "{\"access_token\":\"A\",\"refresh_token\":\"R\",\"expires_in\":3600}";
    let t = parse_token_response(body, now).unwrap();
    assert_eq!(t.access_token, "A");
    assert_eq!(t.refresh_token, "R");
    assert_eq!(t.expires_in, 3600);
    assert_eq!(t.created_at, now);
}

#[test]
fn exchange_defaults_optional_fields() {
    let t = parse_token_response("{\"access_token\":\"A\"}", 7).unwrap();
    assert_eq!(t.access_token, "A");
    assert_eq!(t.refresh_token, "");
    assert_eq!(t.expires_in, 0);
    assert_eq!(t.created_at, 7);
}

#[test]
fn exchange_failure_on_missing_access_token() {
    let body = "{\"error\":\"invalid_grant\"}";
    match parse_token_response(body, 0) {
        Err(ExchangeError::ProviderRejected(raw)) => assert_eq!(raw, body),
        other => panic!("expected ProviderRejected, got {:?}", other),
    }
}

#[test]
fn exchange_failure_on_empty_access_token() {
    match parse_token_response("{\"access_token\":\"\"}", 0) {
        Err(ExchangeError::ProviderRejected(_)) => {},
        other => panic!("expected ProviderRejected, got {:?}", other),
    }
}

#[test]
fn exchange_failure_on_non_json_body() {
    match parse_token_response("<html>busy</html>", 0) {
        Err(ExchangeError::Protocol(raw)) => assert_eq!(raw, "<html>busy</html>"),
        other => panic!("expected Protocol, got {:?}", other),
    }
}

#[test]
fn exchange_ignores_wrongly_typed_fields() {
    // expires_in as a string is not an integer field: it defaults to 0.
    let t = parse_token_response("{\"access_token\":\"A\",\"expires_in\":\"3600\"}", 1).unwrap();
    assert_eq!(t.expires_in, 0);
}

#[test]
fn tokens_from_fields_matches_parse() {
    let t = tokens_from_fields(Some("A".to_string()), None, Some(5), 9, "raw").unwrap();
    assert_eq!(t.access_token, "A");
    assert_eq!(t.refresh_token, "");
    assert_eq!(t.expires_in, 5);
    assert_eq!(t.created_at, 9);
    match tokens_from_fields(None, Some("R".to_string()), None, 9, "raw") {
        Err(ExchangeError::ProviderRejected(raw)) => assert_eq!(raw, "raw"),
        other => panic!("expected ProviderRejected, got {:?}", other),
    }
}

#[test]
fn refresh_preserves_refresh_token_when_omitted() {
    let now: u64 = 55;
    let body = "{\"access_token\":\"NEW\",\"expires_in\":3600}";
    let t = parse_refresh_response(&stored_tokens(), body, now).unwrap();
    assert_eq!(t.access_token, "NEW");
    assert_eq!(t.refresh_token, "R0");
    assert_eq!(t.expires_in, 3600);
    assert_eq!(t.created_at, now);
}

#[test]
fn refresh_preserves_refresh_token_when_empty() {
    let body = "{\"access_token\":\"NEW\",\"refresh_token\":\"\"}";
    let t = parse_refresh_response(&stored_tokens(), body, 0).unwrap();
    assert_eq!(t.refresh_token, "R0");
}

#[test]
fn refresh_takes_new_refresh_token_when_sent() {
    let body = "{\"access_token\":\"NEW\",\"refresh_token\":\"R1\"}";
    let t = parse_refresh_response(&stored_tokens(), body, 0).unwrap();
    assert_eq!(t.refresh_token, "R1");
}

#[test]
fn refresh_rejected_without_access_token() {
    match parse_refresh_response(&stored_tokens(), "{\"error\":\"x\"}", 0) {
        Err(ExchangeError::ProviderRejected(_)) => {},
        other => panic!("expected ProviderRejected, got {:?}", other),
    }
}

#[test]
fn exchange_params_are_complete_and_ordered() {
    let cfg = AppConfig {
        client_id: "ID".to_string(),
        client_secret: "S".to_string(),
    };
    let p = exchange_params(&cfg, "CODE", "http://127.0.0.1:14321/callback");
    let expected = vec![
        ("code", "CODE"),
        ("client_id", "ID"),
        ("client_secret", "S"),
        ("redirect_uri", "http://127.0.0.1:14321/callback"),
        ("grant_type", "authorization_code"),
    ];
    assert_eq!(p.len(), expected.len());
    for (got, want) in p.iter().zip(expected.iter()) {
        assert_eq!(got.0, want.0);
        assert_eq!(got.1, want.1);
    }
}

#[test]
fn refresh_params_require_a_refresh_token() {
    let cfg = AppConfig {
        client_id: "ID".to_string(),
        client_secret: "S".to_string(),
    };
    let mut stored = stored_tokens();
    let p = refresh_params(&cfg, &stored).unwrap();
    assert_eq!(p.len(), 4);
    assert_eq!(p[2].0, "refresh_token");
    assert_eq!(p[2].1, "R0");
    assert_eq!(p[3].1, "refresh_token");

    stored.refresh_token = String::new();
    match refresh_params(&cfg, &stored) {
        Err(ExchangeError::NoRefreshToken) => {},
        other => panic!("expected NoRefreshToken, got {:?}", other),
    }
}

#[test]
fn default_endpoint_is_the_provider_token_url() {
    assert_eq!(default_token_endpoint(), "https://oauth2.googleapis.com/token");
}
