//! Decision logic of the auth coordinator: building the authorization URL,
//! choosing whether a stored token set can be used or must be refreshed
//! first, resolving a refresh attempt under the keep-stale policy, and the
//! plain-text environment rendering of the current records.

use vstd::prelude::*;
use vstd::string::StringExecFns;
use crate::records::{Tokens, TokensV, AppConfig, ConfigV};
use crate::exchange::{ExchangeError, ExchangeErrorV};
use crate::expiry;

verus! {

/// A failure of the coordinator itself, before any exchange is attempted.
#[derive(Clone, Debug, PartialEq)]
pub enum AuthError {
    /// No client credentials are registered; the user must configure them.
    ConfigMissing,
    /// No token set is stored; the user must log in.
    NotAuthenticated,
}

/// Mathematical model of an `AuthError`.
pub ghost enum AuthErrorV {
    ConfigMissing,
    NotAuthenticated,
}

impl View for AuthError {
    type V = AuthErrorV;

    open spec fn view(&self) -> AuthErrorV {
        match self {
            AuthError::ConfigMissing => AuthErrorV::ConfigMissing,
            AuthError::NotAuthenticated => AuthErrorV::NotAuthenticated,
        }
    }
}

/// What the percent-encoding of a string is. The value depends on the
/// characters alone: every byte of the UTF-8 form except ASCII
/// alphanumerics and `-`, `_`, `.`, `~` becomes a `%xx` escape.
pub uninterp spec fn url_encoded(s: Seq<char>) -> Seq<char>;

/// Relies on `urlencoding::encode`: percent-encodes every byte except
/// ASCII alphanumerics and `-`, `_`, `.`, `~`; an empty input stays empty.
#[verifier::external_body]
fn url_encode(s: &str) -> (r: String)
    ensures
        r@ == url_encoded(s@),
        s@.len() == 0 ==> r@.len() == 0,
{
    urlencoding::encode(s).into_owned()
}

/// The fixed local redirect URI registered with the provider; the callback
/// listener must match it exactly.
pub fn redirect_uri() -> (r: &'static str)
    ensures
        r@ == "http://127.0.0.1:14321/callback"@,
{
    "http://127.0.0.1:14321/callback"
}

/// The OAuth scope requested at login.
pub fn auth_scope() -> (r: &'static str)
    ensures
        r@ == "https://www.googleapis.com/auth/youtube.readonly"@,
{
    "https://www.googleapis.com/auth/youtube.readonly"
}

/// The authorization URL for the given client id, redirect URI and scope:
/// the provider's authorization endpoint with `response_type=code`,
/// `access_type=offline` and `prompt=consent` fixed, and the three variable
/// parameters percent-encoded.
pub open spec fn spec_auth_url(client_id: Seq<char>, redirect: Seq<char>, scope: Seq<char>) -> Seq<
    char,
> {
    "https://accounts.google.com/o/oauth2/v2/auth?client_id="@ + url_encoded(client_id)
        + "&response_type=code&redirect_uri="@ + url_encoded(redirect)
        + "&access_type=offline&prompt=consent&scope="@ + url_encoded(scope)
}

/// Build the authorization URL opened in the user's browser.
pub fn build_auth_url(client_id: &str, redirect: &str, scope: &str) -> (r: String)
    ensures
        r@ == spec_auth_url(client_id@, redirect@, scope@),
{
    let mut r = String::from_str("https://accounts.google.com/o/oauth2/v2/auth?client_id=");
    let enc_id = url_encode(client_id);
    r.append(enc_id.as_str());
    r.append("&response_type=code&redirect_uri=");
    let enc_redirect = url_encode(redirect);
    r.append(enc_redirect.as_str());
    r.append("&access_type=offline&prompt=consent&scope=");
    let enc_scope = url_encode(scope);
    r.append(enc_scope.as_str());
    r
}

/// Begin a login: with registered credentials, the authorization URL to
/// open (with the fixed redirect URI and scope); without them,
/// `ConfigMissing`.
pub fn begin_login_url(cfg: Option<&AppConfig>) -> (r: Result<String, AuthError>)
    ensures
        r is Ok <==> cfg is Some,
        r is Ok ==> r.unwrap()@ == spec_auth_url(
            cfg.unwrap()@.client_id,
            "http://127.0.0.1:14321/callback"@,
            "https://www.googleapis.com/auth/youtube.readonly"@,
        ),
        r is Err ==> r->Err_0@ == AuthErrorV::ConfigMissing,
{
    match cfg {
        None => Err(AuthError::ConfigMissing),
        Some(c) => Ok(build_auth_url(c.client_id.as_str(), redirect_uri(), auth_scope())),
    }
}

/// How a stored token set is to be used at time `now`.
#[derive(Debug)]
pub enum TokenPlan {
    /// The set is usable as it is.
    Use(Tokens),
    /// The set must be refreshed before use; holds the stale set.
    RefreshFirst(Tokens),
}

/// Mathematical model of a `TokenPlan`.
pub ghost enum TokenPlanV {
    Use(TokensV),
    RefreshFirst(TokensV),
}

impl View for TokenPlan {
    type V = TokenPlanV;

    open spec fn view(&self) -> TokenPlanV {
        match self {
            TokenPlan::Use(t) => TokenPlanV::Use(t@),
            TokenPlan::RefreshFirst(t) => TokenPlanV::RefreshFirst(t@),
        }
    }
}

/// Decide how to satisfy a request for a fresh token at time `now`: with no
/// stored set, `NotAuthenticated`; with one that the expiry policy flags,
/// refresh first; otherwise use it as it is.
pub fn plan_token_use(stored: Option<Tokens>, now: u64) -> (r: Result<TokenPlan, AuthError>)
    ensures
        r is Ok <==> stored is Some,
        r is Err ==> r->Err_0@ == AuthErrorV::NotAuthenticated,
        r is Ok ==> r.unwrap()@ == (if expiry::spec_needs_refresh(stored.unwrap()@, now) {
            TokenPlanV::RefreshFirst(stored.unwrap()@)
        } else {
            TokenPlanV::Use(stored.unwrap()@)
        }),
{
    match stored {
        None => Err(AuthError::NotAuthenticated),
        Some(t) => {
            if expiry::needs_refresh(&t, now) {
                Ok(TokenPlan::RefreshFirst(t))
            } else {
                Ok(TokenPlan::Use(t))
            }
        },
    }
}

/// The outcome of a refresh attempt under the keep-stale policy.
#[derive(Debug)]
pub enum RefreshOutcome {
    /// The refresh succeeded; the new set must be persisted and used.
    Fresh(Tokens),
    /// The refresh failed; the stale stored set is used as a best effort,
    /// with the failure kept for logging.
    KeptStale(Tokens, ExchangeError),
}

/// Mathematical model of a `RefreshOutcome`.
pub ghost enum RefreshOutcomeV {
    Fresh(TokensV),
    KeptStale(TokensV, ExchangeErrorV),
}

impl View for RefreshOutcome {
    type V = RefreshOutcomeV;

    open spec fn view(&self) -> RefreshOutcomeV {
        match self {
            RefreshOutcome::Fresh(t) => RefreshOutcomeV::Fresh(t@),
            RefreshOutcome::KeptStale(t, e) => RefreshOutcomeV::KeptStale(t@, e@),
        }
    }
}

/// Resolve a refresh attempt: a success carries the new set; a failure is
/// never propagated here — the stale set is kept and the error made
/// explicit, so the caller proceeds with what is stored.
pub fn resolve_refresh(stale: Tokens, attempt: Result<Tokens, ExchangeError>) -> (r:
    RefreshOutcome)
    ensures
        attempt is Ok ==> r@ == RefreshOutcomeV::Fresh(attempt.unwrap()@),
        attempt is Err ==> r@ == RefreshOutcomeV::KeptStale(stale@, attempt->Err_0@),
{
    match attempt {
        Ok(t) => RefreshOutcome::Fresh(t),
        Err(e) => RefreshOutcome::KeptStale(stale, e),
    }
}

/// The plain-text environment rendering of the current credentials and
/// tokens.
pub open spec fn spec_env_text(c: ConfigV, t: TokensV) -> Seq<char> {
    "# YouTube OAuth environment export\nYOUTUBE_CLIENT_ID="@ + c.client_id
        + "\nYOUTUBE_CLIENT_SECRET="@ + c.client_secret
        + "\nUPLOAD_PRIVACY=unlisted\nAUTO_UPLOAD=false\n\n# Optional (not recommended to store in .env)\n# YOUTUBE_ACCESS_TOKEN="@
        + t.access_token + "\n# YOUTUBE_REFRESH_TOKEN="@ + t.refresh_token + "\n"@
}

/// Render the environment-file text for the given records.
pub fn format_env_text(cfg: &AppConfig, t: &Tokens) -> (r: String)
    ensures
        r@ == spec_env_text(cfg@, t@),
{
    let mut r = String::from_str("# YouTube OAuth environment export\nYOUTUBE_CLIENT_ID=");
    r.append(cfg.client_id.as_str());
    r.append("\nYOUTUBE_CLIENT_SECRET=");
    r.append(cfg.client_secret.as_str());
    r.append(
        "\nUPLOAD_PRIVACY=unlisted\nAUTO_UPLOAD=false\n\n# Optional (not recommended to store in .env)\n# YOUTUBE_ACCESS_TOKEN=",
    );
    r.append(t.access_token.as_str());
    r.append("\n# YOUTUBE_REFRESH_TOKEN=");
    r.append(t.refresh_token.as_str());
    r.append("\n");
    r
}

/// Render the environment-file text from whatever records are stored,
/// treating a missing record as empty.
pub fn generate_env(cfg: Option<AppConfig>, t: Option<Tokens>) -> (r: String)
    ensures
        r@ == spec_env_text(
            match cfg {
                Some(c) => c@,
                None => ConfigV { client_id: Seq::empty(), client_secret: Seq::empty() },
            },
            match t {
                Some(tk) => tk@,
                None => TokensV {
                    access_token: Seq::empty(),
                    refresh_token: Seq::empty(),
                    expires_in: 0,
                    created_at: 0,
                },
            },
        ),
{
    let c = match cfg {
        Some(c) => c,
        None => Default::default(),
    };
    let tk = match t {
        Some(tk) => tk,
        None => Default::default(),
    };
    format_env_text(&c, &tk)
}

/// Relies on `std::time::SystemTime::now`: the current unix time in
/// seconds, `0` if the clock reads earlier than the epoch.
#[verifier::external_body]
pub fn now_secs() -> u64 {
    std::time::SystemTime::now()
        .duration_since(std::time::UNIX_EPOCH)
        .map(|d| d.as_secs())
        .unwrap_or(0)
}

/// Reserved hook run at application start; it has nothing to do yet.
pub fn setup() {
}

} // verus!
