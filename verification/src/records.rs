//! The two durable records of the system: the registered OAuth client
//! credentials and the current token set.

use vstd::prelude::*;

verus! {

/// A set of OAuth tokens as returned by the provider's token endpoint and
/// persisted between runs.
///
/// `expires_in` is the nominal lifetime in seconds, `0` meaning unknown /
/// non-expiring; `created_at` is the unix time (seconds) at which the set
/// was issued.
#[derive(Clone, Debug, PartialEq)]
pub struct Tokens {
    pub access_token: String,
    pub refresh_token: String,
    pub expires_in: u64,
    pub created_at: u64,
}

/// Mathematical model of a `Tokens` value: the string fields as character
/// sequences.
pub ghost struct TokensV {
    pub access_token: Seq<char>,
    pub refresh_token: Seq<char>,
    pub expires_in: u64,
    pub created_at: u64,
}

impl View for Tokens {
    type V = TokensV;

    open spec fn view(&self) -> TokensV {
        TokensV {
            access_token: self.access_token@,
            refresh_token: self.refresh_token@,
            expires_in: self.expires_in,
            created_at: self.created_at,
        }
    }
}

impl Default for Tokens {
    /// An empty token set: no tokens, unknown lifetime.
    fn default() -> (r: Self)
        ensures
            r@.access_token.len() == 0,
            r@.refresh_token.len() == 0,
            r@.expires_in == 0,
            r@.created_at == 0,
    {
        Tokens {
            access_token: String::new(),
            refresh_token: String::new(),
            expires_in: 0,
            created_at: 0,
        }
    }
}

/// The registered OAuth client credentials.
#[derive(Clone, Debug, PartialEq)]
pub struct AppConfig {
    pub client_id: String,
    pub client_secret: String,
}

/// Mathematical model of an `AppConfig` value.
pub ghost struct ConfigV {
    pub client_id: Seq<char>,
    pub client_secret: Seq<char>,
}

impl View for AppConfig {
    type V = ConfigV;

    open spec fn view(&self) -> ConfigV {
        ConfigV { client_id: self.client_id@, client_secret: self.client_secret@ }
    }
}

impl Default for AppConfig {
    /// Empty credentials.
    fn default() -> (r: Self)
        ensures
            r@.client_id.len() == 0,
            r@.client_secret.len() == 0,
    {
        AppConfig { client_id: String::new(), client_secret: String::new() }
    }
}

} // verus!
