use oauth_core::callback::{
    handle_callback, confirmation_html, plan_start, plan_request, plan_request_done, ListenerState,
};

#[test]
fn callback_without_code_returns_fixed_page_and_no_exchange() {
    let (body, code) = handle_callback("state=xyz&error=access_denied");
    assert_eq!(body, confirmation_html());
    assert!(code.is_none());
}

#[test]
fn callback_with_empty_query_is_a_no_op() {
    let (body, code) = handle_callback("");
    assert_eq!(body, confirmation_html());
    assert!(code.is_none());
}

#[test]
fn callback_extracts_plain_code() {
    let (body, code) = handle_callback("code=XYZ");
    assert_eq!(body, confirmation_html());
    assert_eq!(code.unwrap(), "XYZ");
}

#[test]
fn callback_decodes_percent_escapes_and_plus() {
    let (_, code) = handle_callback("scope=email&code=4%2F0AbCdEf%3D%3D+end");
    assert_eq!(code.unwrap(), "4/0AbCdEf== end");
}

#[test]
fn callback_takes_the_first_code_parameter() {
    let (_, code) = handle_callback("code=first&code=second");
    assert_eq!(code.unwrap(), "first");
}

#[test]
fn callback_ignores_keys_that_merely_contain_code() {
    let (_, code) = handle_callback("encoded=1&codex=2&xcode=3");
    assert!(code.is_none());
}

#[test]
fn callback_with_valueless_code_is_empty() {
    let (_, code) = handle_callback("code&state=1");
    assert_eq!(code.unwrap(), "");
}

#[test]
fn callback_with_broken_escape_yields_no_code() {
    assert!(handle_callback("code=%zz").1.is_none());
    assert!(handle_callback("code=%4").1.is_none());
    // a non-ASCII escape is refused rather than misread
    assert!(handle_callback("code=%C3%A9").1.is_none());
}

#[test]
fn callback_page_is_always_the_same() {
    let (with_code, _) = handle_callback("code=A");
    let (without, _) = handle_callback("other=B");
    assert_eq!(with_code, without);
    assert!(with_code.contains("Authorization complete"));
}

#[test]
fn listener_binds_only_once() {
    let (s1, bind1) = plan_start(ListenerState::Stopped);
    assert!(bind1);
    assert_eq!(s1, ListenerState::Listening);

    let (s2, bind2) = plan_start(s1);
    assert!(!bind2);
    assert_eq!(s2, ListenerState::Listening);

    let (s3, taken) = plan_request(s2);
    assert!(taken);
    assert_eq!(s3, ListenerState::Handling);

    let (s4, bind3) = plan_start(s3);
    assert!(!bind3);
    assert_eq!(s4, ListenerState::Handling);

    let s5 = plan_request_done(s4);
    assert_eq!(s5, ListenerState::Listening);
}
