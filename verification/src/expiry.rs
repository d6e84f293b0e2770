//! The expiry policy: decide whether a token set must be refreshed before
//! use.

use vstd::prelude::*;
use crate::records::{Tokens, TokensV};

verus! {

/// Refresh proactively this many seconds before nominal expiry, to tolerate
/// clock drift and in-flight request latency.
pub const REFRESH_SKEW_SECONDS: u64 = 60;

/// Seconds elapsed since the set was issued, clamped at zero when the clock
/// reads earlier than the issue time.
pub open spec fn elapsed_seconds(t: TokensV, now: u64) -> int {
    if now >= t.created_at {
        now - t.created_at
    } else {
        0
    }
}

/// A token set must be refreshed before use iff its lifetime is known
/// (`expires_in > 0`) and the elapsed time plus the skew margin has reached
/// that lifetime.
pub open spec fn spec_needs_refresh(t: TokensV, now: u64) -> bool {
    t.expires_in > 0 && elapsed_seconds(t, now) + REFRESH_SKEW_SECONDS >= t.expires_in
}

/// Decide whether `t` must be refreshed before use at time `now`.
pub fn needs_refresh(t: &Tokens, now: u64) -> (r: bool)
    ensures
        r == spec_needs_refresh(t@, now),
{
    if t.expires_in == 0 {
        return false;
    }
    let elapsed = if now >= t.created_at {
        now - t.created_at
    } else {
        0
    };
    // `elapsed + skew >= expires_in` rewritten without the possible overflow
    // of the addition.
    if t.expires_in <= REFRESH_SKEW_SECONDS {
        true
    } else {
        elapsed >= t.expires_in - REFRESH_SKEW_SECONDS
    }
}

/// A token set with unknown lifetime (`expires_in == 0`) never needs a
/// proactive refresh, whatever the current time.
pub proof fn lemma_zero_expiry_never_refreshes(t: TokensV, now: u64)
    requires
        t.expires_in == 0,
    ensures
        !spec_needs_refresh(t, now),
{
}

/// The refresh boundary sits exactly `expires_in - REFRESH_SKEW_SECONDS`
/// seconds after issue: with a known lifetime longer than the skew, a set
/// needs a refresh iff at least that much time has elapsed.
pub proof fn lemma_refresh_boundary(t: TokensV, now: u64)
    requires
        t.expires_in > REFRESH_SKEW_SECONDS,
    ensures
        spec_needs_refresh(t, now) <==> elapsed_seconds(t, now)
            >= t.expires_in - REFRESH_SKEW_SECONDS,
{
}

} // verus!
