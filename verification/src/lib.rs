//! Verified core of an OAuth2 authorization-code token lifecycle manager:
//! token records and their persisted document format, the expiry policy,
//! normalization of token-endpoint responses, the redirect-callback query
//! parsing, and the decision logic of the auth coordinator.
//!
//! Network and file I/O live outside this crate; everything here is pure
//! computation on plain values, verified end to end.

pub mod records;
pub mod chars;
pub mod expiry;
pub mod exchange;
pub mod codec;
pub mod store;
pub mod callback;
pub mod coordinator;

pub use records::{Tokens, TokensV, AppConfig, ConfigV};
pub use coordinator::{setup, now_secs, format_env_text, generate_env};
