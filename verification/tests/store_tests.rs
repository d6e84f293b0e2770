use oauth_core::store::{render_tokens, parse_tokens, render_config, parse_config};
use oauth_core::{Tokens, AppConfig};

#[test]
fn tokens_round_trip_plain() {
    let t = Tokens {
        access_token: "ya29.something".to_string(),
        refresh_token: "1//refresh".to_string(),
        expires_in: 3599,
        created_at: 1_700_000_000,
    };
    let doc = render_tokens(&t);
    let back = parse_tokens(&doc).unwrap();
    assert_eq!(back, t);
}

#[test]
fn tokens_round_trip_special_characters() {
    let t = Tokens {
        access_token: "quote\" backslash\\ newline\n tab\t cr\r done".to_string(),
        refresh_token: "".to_string(),
        expires_in: 0,
        created_at: u64::MAX,
    };
    let doc = render_tokens(&t);
    let back = parse_tokens(&doc).unwrap();
    assert_eq!(back, t);
}

#[test]
fn tokens_round_trip_unicode() {
    let t = Tokens {
        access_token: "zażółć gęślą jaźń".to_string(),
        refresh_token: "日本語".to_string(),
        expires_in: 1,
        created_at: 0,
    };
    let back = parse_tokens(&render_tokens(&t)).unwrap();
    assert_eq!(back, t);
}

#[test]
fn tokens_document_is_pretty_printed_json() {
    let t = Tokens {
        access_token: "A".to_string(),
        refresh_token: "R".to_string(),
        expires_in: 3600,
        created_at: 5,
    };
    let expected = "{\n  \"access_token\": \"A\",\n  \"refresh_token\": \"R\",\n  \"expires_in\": 3600,\n  \"created_at\": 5\n}";
    assert_eq!(render_tokens(&t), expected);
}

#[test]
fn corrupt_tokens_documents_read_as_absent() {
    assert!(parse_tokens("").is_none());
    assert!(parse_tokens("not json at all").is_none());
    assert!(parse_tokens("{\n  \"access_token\": \"A\"").is_none());
    assert!(parse_tokens("{\n  \"access_token\": \"A\",\n  \"refresh_token\": \"R\",\n  \"expires_in\": -1,\n  \"created_at\": 5\n}").is_none());
    assert!(parse_tokens("{\n  \"access_token\": \"A\",\n  \"refresh_token\": \"R\",\n  \"expires_in\": 3600,\n  \"created_at\": 5\n} ").is_none());
    // 2^64 does not fit a u64.
    assert!(parse_tokens("{\n  \"access_token\": \"A\",\n  \"refresh_token\": \"R\",\n  \"expires_in\": 18446744073709551616,\n  \"created_at\": 5\n}").is_none());
    // an escape the codec never writes
    assert!(parse_tokens("{\n  \"access_token\": \"a\\x\",\n  \"refresh_token\": \"R\",\n  \"expires_in\": 1,\n  \"created_at\": 5\n}").is_none());
}

#[test]
fn tokens_document_with_max_u64_reads_back() {
    let doc = "{\n  \"access_token\": \"A\",\n  \"refresh_token\": \"R\",\n  \"expires_in\": 18446744073709551615,\n  \"created_at\": 0\n}";
    let t = parse_tokens(doc).unwrap();
    assert_eq!(t.expires_in, u64::MAX);
    assert_eq!(t.created_at, 0);
}

#[test]
fn config_round_trip_plain() {
    let c = AppConfig {
        client_id: "abc.apps.googleusercontent.com".to_string(),
        client_secret: "SECRET-REDACTED".to_string(),
    };
    let doc = render_config(&c);
    let back = parse_config(&doc).unwrap();
    assert_eq!(back, c);
}

#[test]
fn config_round_trip_special_characters() {
    let c = AppConfig {
        client_id: "".to_string(),
        client_secret: "a\"b\\c\nd".to_string(),
    };
    let back = parse_config(&render_config(&c)).unwrap();
    assert_eq!(back, c);
}

#[test]
fn corrupt_config_documents_read_as_absent() {
    assert!(parse_config("").is_none());
    assert!(parse_config("{}").is_none());
    assert!(parse_config("{\n  \"client_id\": \"x\"\n}").is_none());
}

#[test]
fn test_set_and_get_config() {
    let client_id = "test_client_id".to_string();
    let client_secret = "test_client_secret".to_string();
    let written = render_config(&AppConfig {
        client_id: client_id.clone(),
        client_secret: client_secret.clone(),
    });
    let config = parse_config(&written).unwrap();
    assert_eq!(config.client_id, client_id);
    assert_eq!(config.client_secret, client_secret);
}

#[test]
fn test_check_tokens() {
    let tokens = Tokens {
        access_token: "test_access_token".to_string(),
        refresh_token: "test_refresh_token".to_string(),
        expires_in: 3600,
        created_at: 0,
    };
    let written = render_tokens(&tokens);
    let checked_tokens = parse_tokens(&written).unwrap();
    assert_eq!(checked_tokens.access_token, "test_access_token");
    assert_eq!(checked_tokens.refresh_token, "test_refresh_token");
}
