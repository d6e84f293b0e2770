use oauth_core::coordinator::{
    build_auth_url, begin_login_url, redirect_uri, auth_scope, plan_token_use, resolve_refresh,
    TokenPlan, RefreshOutcome, AuthError,
};
use oauth_core::exchange::{parse_token_response, exchange_params, ExchangeError};
use oauth_core::store::{render_tokens, parse_tokens};
use oauth_core::callback::handle_callback;
use oauth_core::{format_env_text, generate_env, now_secs, setup, Tokens, AppConfig};

fn cfg() -> AppConfig {
    AppConfig {
        client_id: "my id:with/specials".to_string(),
        client_secret: "s".to_string(),
    }
}

#[test]
fn auth_url_percent_encodes_every_variable_part() {
    let url = build_auth_url("my id:with/specials", "http://127.0.0.1:14321/callback", "https://www.googleapis.com/auth/youtube.readonly");
    let expected = "https://accounts.google.com/o/oauth2/v2/auth?client_id=my%20id%3Awith%2Fspecials&response_type=code&redirect_uri=http%3A%2F%2F127.0.0.1%3A14321%2Fcallback&access_type=offline&prompt=consent&scope=https%3A%2F%2Fwww.googleapis.com%2Fauth%2Fyoutube.readonly";
    assert_eq!(url, expected);
}

#[test]
fn begin_login_uses_fixed_redirect_and_scope() {
    let url = begin_login_url(Some(&cfg())).unwrap();
    assert_eq!(url, build_auth_url(&cfg().client_id, redirect_uri(), auth_scope()));
    assert_eq!(redirect_uri(), "http://127.0.0.1:14321/callback");
    assert_eq!(auth_scope(), "https://www.googleapis.com/auth/youtube.readonly");
}

#[test]
fn begin_login_without_config_is_refused() {
    match begin_login_url(None) {
        Err(AuthError::ConfigMissing) => {},
        other => panic!("expected ConfigMissing, got {:?}", other),
    }
}

#[test]
fn plan_token_use_covers_all_cases() {
    let now: u64 = 1_700_000_000;
    match plan_token_use(None, now) {
        Err(AuthError::NotAuthenticated) => {},
        other => panic!("expected NotAuthenticated, got {:?}", other),
    }

    let fresh = Tokens {
        access_token: "A".to_string(),
        refresh_token: "R".to_string(),
        expires_in: 3600,
        created_at: now - 10,
    };
    match plan_token_use(Some(fresh.clone()), now) {
        Ok(TokenPlan::Use(t)) => assert_eq!(t, fresh),
        other => panic!("expected Use, got {:?}", other),
    }

    let stale = Tokens { created_at: now - 3595, ..fresh.clone() };
    match plan_token_use(Some(stale.clone()), now) {
        Ok(TokenPlan::RefreshFirst(t)) => assert_eq!(t, stale),
        other => panic!("expected RefreshFirst, got {:?}", other),
    }
}

#[test]
fn resolve_refresh_keeps_stale_set_on_failure() {
    let stale = Tokens {
        access_token: "OLD".to_string(),
        refresh_token: "R".to_string(),
        expires_in: 10,
        created_at: 0,
    };
    let new = Tokens { access_token: "NEW".to_string(), ..stale.clone() };
    match resolve_refresh(stale.clone(), Ok(new.clone())) {
        RefreshOutcome::Fresh(t) => assert_eq!(t, new),
        other => panic!("expected Fresh, got {:?}", other),
    }
    match resolve_refresh(stale.clone(), Err(ExchangeError::Transport("down".to_string()))) {
        RefreshOutcome::KeptStale(t, ExchangeError::Transport(d)) => {
            assert_eq!(t, stale);
            assert_eq!(d, "down");
        },
        other => panic!("expected KeptStale, got {:?}", other),
    }
}

#[test]
fn env_text_renders_both_records() {
    let c = AppConfig {
        client_id: "ID".to_string(),
        client_secret: "S".to_string(),
    };
    let t = Tokens {
        access_token: "A".to_string(),
        refresh_token: "R".to_string(),
        expires_in: 0,
        created_at: 0,
    };
    let text = format_env_text(&c, &t);
    let expected = "# YouTube OAuth environment export\nYOUTUBE_CLIENT_ID=ID\nYOUTUBE_CLIENT_SECRET=S\nUPLOAD_PRIVACY=unlisted\nAUTO_UPLOAD=false\n\n# Optional (not recommended to store in .env)\n# YOUTUBE_ACCESS_TOKEN=A\n# YOUTUBE_REFRESH_TOKEN=R\n";
    assert_eq!(text, expected);
}

#[test]
fn generate_env_treats_missing_records_as_empty() {
    let text = generate_env(None, None);
    assert!(text.contains("YOUTUBE_CLIENT_ID=\n"));
    assert!(text.contains("# YOUTUBE_ACCESS_TOKEN=\n"));
    let empty = AppConfig { client_id: String::new(), client_secret: String::new() };
    let no_tokens = Tokens {
        access_token: String::new(),
        refresh_token: String::new(),
        expires_in: 0,
        created_at: 0,
    };
    assert_eq!(text, format_env_text(&empty, &no_tokens));
}

#[test]
fn clock_reads_a_plausible_unix_time() {
    let t = now_secs();
    assert!(t > 1_500_000_000);
    setup();
}

#[test]
fn end_to_end_with_stubbed_endpoint() {
    // The full local flow around a stubbed token endpoint: the redirect
    // arrives, the code is extracted, the exchange request is built, the
    // stub's response is normalized, and the result is persisted and read
    // back.
    let (_page, code) = handle_callback("code=XYZ&scope=email");
    let code = code.unwrap();
    assert_eq!(code, "XYZ");

    let params = exchange_params(&cfg(), &code, redirect_uri());
    assert_eq!(params[0].1, "XYZ");

    let stub_response = "{\"access_token\":\"STUB_A\",\"refresh_token\":\"STUB_R\",\"expires_in\":1234}";
    let now: u64 = 1_800_000_000;
    let tokens = parse_token_response(stub_response, now).unwrap();

    let persisted = render_tokens(&tokens);
    let loaded = parse_tokens(&persisted).unwrap();
    assert_eq!(loaded.access_token, "STUB_A");
    assert_eq!(loaded.refresh_token, "STUB_R");
    assert_eq!(loaded.expires_in, 1234);
    assert_eq!(loaded.created_at, now);
}
