//! Normalization of token-endpoint responses and construction of the
//! form parameters for the two exchanges (authorization code -> tokens,
//! refresh token -> tokens).
//!
//! The HTTP round trip itself is I/O and lives outside this crate; the
//! functions here compute what is sent and decide what a response means.

use vstd::prelude::*;
use crate::records::{Tokens, AppConfig};

verus! {

/// A typed failure of an exchange or refresh.
#[derive(Clone, Debug, PartialEq)]
pub enum ExchangeError {
    /// The stored token set has no refresh token; a full re-login is needed.
    NoRefreshToken,
    /// The provider answered, but without a usable access token; carries the
    /// raw response payload for diagnosis.
    ProviderRejected(String),
    /// Network or connection failure; transient, safe to retry.
    Transport(String),
    /// Malformed or non-JSON provider response.
    Protocol(String),
}

/// Mathematical model of an `ExchangeError`.
pub ghost enum ExchangeErrorV {
    NoRefreshToken,
    ProviderRejected(Seq<char>),
    Transport(Seq<char>),
    Protocol(Seq<char>),
}

impl View for ExchangeError {
    type V = ExchangeErrorV;

    open spec fn view(&self) -> ExchangeErrorV {
        match self {
            ExchangeError::NoRefreshToken => ExchangeErrorV::NoRefreshToken,
            ExchangeError::ProviderRejected(s) => ExchangeErrorV::ProviderRejected(s@),
            ExchangeError::Transport(s) => ExchangeErrorV::Transport(s@),
            ExchangeError::Protocol(s) => ExchangeErrorV::Protocol(s@),
        }
    }
}

/// What the provider's JSON answer holds: the `access_token` and
/// `refresh_token` string fields and the `expires_in` integer field, each
/// absent when the document lacks it (or holds it with another type), the
/// whole absent when the document is not JSON at all.
///
/// The value depends on the response text alone.
pub uninterp spec fn provider_fields(body: Seq<char>) -> Option<
    (Option<Seq<char>>, Option<Seq<char>>, Option<u64>),
>;

/// Relies on `serde_json::from_str` and on `serde_json::Value::get`,
/// `Value::as_str` and `Value::as_u64`: parses the response document and
/// hands out its three token fields as plain values, `None` where the
/// document is not JSON.
#[verifier::external_body]
fn json_token_fields(body: &str) -> (r: Option<
    (Option<String>, Option<String>, Option<u64>),
>)
    ensures
        r.deep_view() == provider_fields(body@),
{
    let v: serde_json::Value = match serde_json::from_str(body) {
        Ok(v) => v,
        Err(_) => return None,
    };
    let access = v.get("access_token").and_then(|x| x.as_str()).map(|s| s.to_owned());
    let refresh = v.get("refresh_token").and_then(|x| x.as_str()).map(|s| s.to_owned());
    let expires = v.get("expires_in").and_then(|x| x.as_u64());
    Some((access, refresh, expires))
}

/// The token set that a code exchange yields from the provider's three
/// response fields, stamped `now`: defined iff an access token is present
/// and non-empty; a missing refresh token becomes `""`, a missing lifetime
/// becomes `0`.
pub open spec fn spec_tokens_from_fields(
    access: Option<Seq<char>>,
    refresh: Option<Seq<char>>,
    expires: Option<u64>,
    now: u64,
) -> Option<crate::records::TokensV> {
    if access is Some && access.unwrap().len() > 0 {
        Some(crate::records::TokensV {
            access_token: access.unwrap(),
            refresh_token: if refresh is Some { refresh.unwrap() } else { Seq::empty() },
            expires_in: if expires is Some { expires.unwrap() } else { 0 },
            created_at: now,
        })
    } else {
        None
    }
}

/// Build the token set that a successful code exchange yields, from the
/// three response fields; reject a response whose access token is absent or
/// empty, carrying the raw response for diagnosis.
pub fn tokens_from_fields(
    access: Option<String>,
    refresh: Option<String>,
    expires: Option<u64>,
    now: u64,
    raw: &str,
) -> (r: Result<Tokens, ExchangeError>)
    ensures
        r is Ok <==> spec_tokens_from_fields(access.deep_view(), refresh.deep_view(), expires, now)
            is Some,
        r is Ok ==> r.unwrap()@ == spec_tokens_from_fields(
            access.deep_view(),
            refresh.deep_view(),
            expires,
            now,
        ).unwrap(),
        r is Err ==> r->Err_0@ == ExchangeErrorV::ProviderRejected(raw@),
{
    match access {
        Some(a) => {
            if a.as_str().is_empty() {
                Err(ExchangeError::ProviderRejected(raw.to_owned()))
            } else {
                let refresh_token = match refresh {
                    Some(rf) => rf,
                    None => String::new(),
                };
                let expires_in = match expires {
                    Some(e) => e,
                    None => 0,
                };
                Ok(Tokens { access_token: a, refresh_token, expires_in, created_at: now })
            }
        },
        None => Err(ExchangeError::ProviderRejected(raw.to_owned())),
    }
}

/// What `parse_token_response` returns for a given response text: a
/// `Protocol` failure on a non-JSON document, a `ProviderRejected` failure
/// when the access token is absent or empty, and otherwise the token set of
/// `spec_tokens_from_fields`, stamped `now`.
pub open spec fn spec_parse_token_response(body: Seq<char>, now: u64) -> Result<
    crate::records::TokensV,
    ExchangeErrorV,
> {
    match provider_fields(body) {
        None => Err(ExchangeErrorV::Protocol(body)),
        Some(f) => match spec_tokens_from_fields(f.0, f.1, f.2, now) {
            Some(t) => Ok(t),
            None => Err(ExchangeErrorV::ProviderRejected(body)),
        },
    }
}

/// Normalize a token-endpoint response for the authorization-code exchange:
/// parse the document, require a non-empty `access_token`, default the
/// optional fields, and stamp the result with `now` as its issue time.
pub fn parse_token_response(body: &str, now: u64) -> (r: Result<Tokens, ExchangeError>)
    ensures
        r is Ok <==> spec_parse_token_response(body@, now) is Ok,
        r is Ok ==> r.unwrap()@ == spec_parse_token_response(body@, now)->Ok_0,
        r is Err ==> r->Err_0@ == spec_parse_token_response(body@, now)->Err_0,
{
    match json_token_fields(body) {
        None => Err(ExchangeError::Protocol(body.to_owned())),
        Some((access, refresh, expires)) => tokens_from_fields(access, refresh, expires, now, body),
    }
}

/// The token set after a successful refresh: the new access token and
/// lifetime, stamped `now`; the stored refresh token is kept unless the
/// response carries a non-empty one.
pub open spec fn spec_refreshed_tokens(
    stored: crate::records::TokensV,
    access: Option<Seq<char>>,
    refresh: Option<Seq<char>>,
    expires: Option<u64>,
    now: u64,
) -> Option<crate::records::TokensV> {
    if access is Some && access.unwrap().len() > 0 {
        Some(crate::records::TokensV {
            access_token: access.unwrap(),
            refresh_token: if refresh is Some && refresh.unwrap().len() > 0 {
                refresh.unwrap()
            } else {
                stored.refresh_token
            },
            expires_in: if expires is Some { expires.unwrap() } else { 0 },
            created_at: now,
        })
    } else {
        None
    }
}

/// What `parse_refresh_response` returns for a given stored set and
/// response text.
pub open spec fn spec_parse_refresh_response(
    stored: crate::records::TokensV,
    body: Seq<char>,
    now: u64,
) -> Result<crate::records::TokensV, ExchangeErrorV> {
    match provider_fields(body) {
        None => Err(ExchangeErrorV::Protocol(body)),
        Some(f) => match spec_refreshed_tokens(stored, f.0, f.1, f.2, now) {
            Some(t) => Ok(t),
            None => Err(ExchangeErrorV::ProviderRejected(body)),
        },
    }
}

/// Normalize a token-endpoint response for the refresh exchange: as
/// `parse_token_response`, but a response that omits the refresh token (or
/// sends an empty one) must not erase the stored one.
pub fn parse_refresh_response(stored: &Tokens, body: &str, now: u64) -> (r: Result<
    Tokens,
    ExchangeError,
>)
    ensures
        r is Ok <==> spec_parse_refresh_response(stored@, body@, now) is Ok,
        r is Ok ==> r.unwrap()@ == spec_parse_refresh_response(stored@, body@, now)->Ok_0,
        r is Err ==> r->Err_0@ == spec_parse_refresh_response(
            stored@,
            body@,
            now,
        )->Err_0,
{
    match json_token_fields(body) {
        None => Err(ExchangeError::Protocol(body.to_owned())),
        Some((access, refresh, expires)) => {
            match access {
                Some(a) => {
                    if a.as_str().is_empty() {
                        Err(ExchangeError::ProviderRejected(body.to_owned()))
                    } else {
                        let refresh_token = match refresh {
                            Some(rf) => {
                                if rf.as_str().is_empty() {
                                    stored.refresh_token.clone()
                                } else {
                                    rf
                                }
                            },
                            None => stored.refresh_token.clone(),
                        };
                        let expires_in = match expires {
                            Some(e) => e,
                            None => 0,
                        };
                        Ok(Tokens {
                            access_token: a,
                            refresh_token,
                            expires_in,
                            created_at: now,
                        })
                    }
                },
                None => Err(ExchangeError::ProviderRejected(body.to_owned())),
            }
        },
    }
}

/// A refresh response that omits the refresh token, or sends an empty one,
/// leaves the stored refresh token in place in the resulting set.
pub proof fn lemma_refresh_preserves_refresh_token(
    stored: crate::records::TokensV,
    body: Seq<char>,
    now: u64,
)
    requires
        spec_parse_refresh_response(stored, body, now) is Ok,
        match provider_fields(body) {
            Some(f) => f.1 is None || f.1.unwrap().len() == 0,
            None => false,
        },
    ensures
        spec_parse_refresh_response(stored, body, now)->Ok_0.refresh_token
            == stored.refresh_token,
{
}

/// The form parameters of the authorization-code exchange, in order:
/// `code`, `client_id`, `client_secret`, `redirect_uri`, and
/// `grant_type=authorization_code`.
pub fn exchange_params(cfg: &AppConfig, code: &str, redirect: &str) -> (r: Vec<(String, String)>)
    ensures
        r@.len() == 5,
        r@[0].0@ == "code"@ && r@[0].1@ == code@,
        r@[1].0@ == "client_id"@ && r@[1].1@ == cfg@.client_id,
        r@[2].0@ == "client_secret"@ && r@[2].1@ == cfg@.client_secret,
        r@[3].0@ == "redirect_uri"@ && r@[3].1@ == redirect@,
        r@[4].0@ == "grant_type"@ && r@[4].1@ == "authorization_code"@,
{
    let mut r: Vec<(String, String)> = Vec::new();
    r.push(("code".to_owned(), code.to_owned()));
    r.push(("client_id".to_owned(), cfg.client_id.clone()));
    r.push(("client_secret".to_owned(), cfg.client_secret.clone()));
    r.push(("redirect_uri".to_owned(), redirect.to_owned()));
    r.push(("grant_type".to_owned(), "authorization_code".to_owned()));
    r
}

/// The form parameters of the refresh exchange, in order: `client_id`,
/// `client_secret`, `refresh_token`, and `grant_type=refresh_token`;
/// refused with `NoRefreshToken`, before any network use, when the stored
/// set has no refresh token.
pub fn refresh_params(cfg: &AppConfig, stored: &Tokens) -> (r: Result<
    Vec<(String, String)>,
    ExchangeError,
>)
    ensures
        r is Ok <==> stored@.refresh_token.len() > 0,
        r is Err ==> r->Err_0@ == ExchangeErrorV::NoRefreshToken,
        r is Ok ==> {
            let p = r.unwrap()@;
            p.len() == 4
            && p[0].0@ == "client_id"@ && p[0].1@ == cfg@.client_id
            && p[1].0@ == "client_secret"@ && p[1].1@ == cfg@.client_secret
            && p[2].0@ == "refresh_token"@ && p[2].1@ == stored@.refresh_token
            && p[3].0@ == "grant_type"@ && p[3].1@ == "refresh_token"@
        },
{
    if stored.refresh_token.as_str().is_empty() {
        return Err(ExchangeError::NoRefreshToken);
    }
    let mut r: Vec<(String, String)> = Vec::new();
    r.push(("client_id".to_owned(), cfg.client_id.clone()));
    r.push(("client_secret".to_owned(), cfg.client_secret.clone()));
    r.push(("refresh_token".to_owned(), stored.refresh_token.clone()));
    r.push(("grant_type".to_owned(), "refresh_token".to_owned()));
    Ok(r)
}

/// The provider's token endpoint used when no override is configured.
pub fn default_token_endpoint() -> (r: String)
    ensures
        r@ == "https://oauth2.googleapis.com/token"@,
{
    "https://oauth2.googleapis.com/token".to_owned()
}

} // verus!
