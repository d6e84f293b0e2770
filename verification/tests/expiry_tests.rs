use oauth_core::expiry::{needs_refresh, REFRESH_SKEW_SECONDS};
use oauth_core::Tokens;

fn tokens_with(expires_in: u64, created_at: u64) -> Tokens {
    Tokens {
        access_token: "a".to_string(),
        refresh_token: "r".to_string(),
        expires_in,
        created_at,
    }
}

#[test]
fn refresh_boundary_inside_skew_window() {
    let now: u64 = 2_000_000_000;
    // 3541 seconds elapsed of a 3600 second lifetime: inside the 60 s skew.
    assert!(needs_refresh(&tokens_with(3600, now - 3541), now));
}

#[test]
fn refresh_boundary_outside_skew_window() {
    let now: u64 = 2_000_000_000;
    // 3500 seconds elapsed of a 3600 second lifetime: not yet stale.
    assert!(!needs_refresh(&tokens_with(3600, now - 3500), now));
}

#[test]
fn refresh_boundary_exact() {
    let now: u64 = 2_000_000_000;
    // elapsed + skew == expires_in is already stale ...
    assert!(needs_refresh(&tokens_with(3600, now - 3540), now));
    // ... one second earlier is not.
    assert!(!needs_refresh(&tokens_with(3600, now - 3539), now));
}

#[test]
fn zero_expiry_never_refreshes() {
    assert!(!needs_refresh(&tokens_with(0, 0), 0));
    assert!(!needs_refresh(&tokens_with(0, 0), u64::MAX));
    assert!(!needs_refresh(&tokens_with(0, 123_456), 42));
    assert!(!needs_refresh(&tokens_with(0, u64::MAX), 7));
}

#[test]
fn lifetime_shorter_than_skew_is_always_stale() {
    let now: u64 = 1_000;
    assert_eq!(REFRESH_SKEW_SECONDS, 60);
    assert!(needs_refresh(&tokens_with(59, now), now));
    assert!(needs_refresh(&tokens_with(60, now), now));
}

#[test]
fn clock_behind_issue_time_counts_as_no_elapsed_time() {
    // created_at in the future: elapsed clamps to zero.
    assert!(!needs_refresh(&tokens_with(3600, 5_000), 1_000));
    assert!(needs_refresh(&tokens_with(40, 5_000), 1_000));
}
