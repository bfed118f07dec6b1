use authcore::auth::{get_auth_header, AuthError, HeaderLookup};
use authcore::clients::{
    create_link_outcome, map_auth_response, relay_error, resolve_link_outcome,
    resolve_user_outcome, RestError, UpstreamResponse, link_url, message_link_url,
    message_links_url, user_me_url,
};

fn upstream(status: u16, ct: Option<&str>, body: Option<&[u8]>) -> UpstreamResponse {
    UpstreamResponse {
        status_code: status,
        content_type: ct.map(|s| s.to_string()),
        body: body.map(|b| b.to_vec()),
    }
}

#[test]
fn relayed_unauthorized_is_byte_identical() {
    // A mocked authority answers 401 with a challenge-worthy JSON body.
    let mock_body: &[u8] = br#"{"errors":[{"detail":"Incorrect username or password","status":401}]}"#;
    let resp = upstream(401, Some("application/json"), Some(mock_body));

    let err = resolve_user_outcome(Some(resp)).unwrap_err();
    let env = map_auth_response(err);

    assert_eq!(env.status_code, 401);
    assert_eq!(env.body, mock_body.to_vec());
    assert_eq!(env.content_type.as_deref(), Some("application/json"));
    // The challenge is never dropped in the relay path.
    assert_eq!(env.www_authenticate.as_deref(), Some("Basic"));
}

#[test]
fn relayed_forbidden_keeps_status_and_body() {
    let mock_body: &[u8] = br#"{"errors":[{"detail":"You cannot perform this action","status":403}]}"#;
    let resp = upstream(403, Some("application/json"), Some(mock_body));
    let err = resolve_user_outcome(Some(resp)).unwrap_err();
    let env = map_auth_response(err);
    assert_eq!(env.status_code, 403);
    assert_eq!(env.body, mock_body.to_vec());
}

#[test]
fn transport_failure_is_a_generic_500() {
    let err = resolve_user_outcome(None).unwrap_err();
    assert!(matches!(err, RestError::Error));
    let env = map_auth_response(err);
    assert_eq!(env.status_code, 500);
    assert!(env.www_authenticate.is_none());
    assert_eq!(
        env.body,
        br#"{"errors":[{"detail":"Internal server error","status":500}]}"#.to_vec()
    );
}

#[test]
fn successful_body_is_handed_on_unchanged() {
    let body: &[u8] = br#"{"id":"00000000-0000-0000-0000-000000000001"}"#;
    let resp = upstream(200, Some("application/json"), Some(body));
    let out = resolve_user_outcome(Some(resp)).unwrap();
    assert_eq!(out, body.to_vec());
}

#[test]
fn unreadable_body_degrades_to_transport_failure() {
    let resp = upstream(200, Some("application/json"), None);
    assert!(matches!(resolve_user_outcome(Some(resp)), Err(RestError::Error)));
    let resp2 = upstream(401, None, None);
    assert!(matches!(resolve_user_outcome(Some(resp2)), Err(RestError::Error)));
}

#[test]
fn link_not_found_is_synthesized_as_unauthorized() {
    let resp = upstream(404, Some("application/json"), Some(b"ignored"));
    let err = resolve_link_outcome(Some(resp)).unwrap_err();
    let env = map_auth_response(err);
    assert_eq!(env.status_code, 401);
    assert_eq!(env.content_type.as_deref(), Some("application/json"));
    assert_eq!(
        env.body,
        br#"{"errors":[{"detail":"Message link not found","status":401}]}"#.to_vec()
    );
}

#[test]
fn other_link_failures_are_relayed_verbatim() {
    let body: &[u8] = b"teapot";
    let resp = upstream(418, Some("text/plain"), Some(body));
    let err = resolve_link_outcome(Some(resp)).unwrap_err();
    let env = map_auth_response(err);
    assert_eq!(env.status_code, 418);
    assert_eq!(env.body, body.to_vec());
    assert!(env.www_authenticate.is_none());
}

#[test]
fn create_link_failures_are_relayed_verbatim() {
    let body: &[u8] = br#"{"errors":[{"detail":"message not found","status":404}]}"#;
    let resp = upstream(404, Some("application/json"), Some(body));
    let err = create_link_outcome(Some(resp)).unwrap_err();
    let env = map_auth_response(err);
    assert_eq!(env.status_code, 404);
    assert_eq!(env.body, body.to_vec());
    assert_eq!(env.content_type.as_deref(), Some("application/json"));
    assert_eq!(env.www_authenticate.as_deref(), Some("Basic"));
    assert!(matches!(create_link_outcome(None), Err(RestError::Error)));
}

#[test]
fn rest_error_builders() {
    let e = RestError::response(b"abc", Some("text/plain"), 404);
    let e = e.authenticate("Basic");
    let env = map_auth_response(e);
    assert_eq!(env.status_code, 404);
    assert_eq!(env.body, b"abc".to_vec());
    assert_eq!(env.www_authenticate.as_deref(), Some("Basic"));

    let ise = RestError::internal_server_error();
    let env2 = map_auth_response(ise);
    assert_eq!(env2.status_code, 500);
    assert_eq!(env2.body, b"Internal server error".to_vec());
}

#[test]
fn relay_error_without_challenge() {
    let resp = upstream(502, None, Some(b"bad gateway"));
    let e = relay_error(resp, None);
    let env = map_auth_response(e);
    assert_eq!(env.status_code, 502);
    assert_eq!(env.body, b"bad gateway".to_vec());
    assert!(env.www_authenticate.is_none());
    assert!(env.content_type.is_none());
}

#[test]
fn auth_error_mirrors_relay_semantics() {
    let e = AuthError::response(b"body", Some("application/json"), 401).authenticate("Basic");
    let env = authcore::auth::map_auth_response(e);
    assert_eq!(env.status_code, 401);
    assert_eq!(env.body, b"body".to_vec());
    assert_eq!(env.www_authenticate.as_deref(), Some("Basic"));

    let env2 = authcore::auth::map_auth_response(AuthError::Error);
    assert_eq!(env2.status_code, 500);
}

#[test]
fn header_presence_check() {
    let ok = get_auth_header(HeaderLookup::Value("Basic abc".to_string())).unwrap();
    assert_eq!(ok, "Basic abc");
    let missing = get_auth_header(HeaderLookup::Missing).unwrap_err();
    assert_eq!(missing.status, 401);
    assert_eq!(missing.detail, "Missing authorization header");
    let bad = get_auth_header(HeaderLookup::Undecodable).unwrap_err();
    assert_eq!(bad.status, 401);
    assert_eq!(bad.detail, "Invalid authorization header");
    // Every 401 carries the Basic challenge.
    assert_eq!(missing.to_response().www_authenticate.as_deref(), Some("Basic"));
}

#[test]
fn authority_urls() {
    assert_eq!(user_me_url("https://auth"), "https://auth/users/@me");
    assert_eq!(link_url("https://auth", "tok"), "https://auth/links/tok");
    assert_eq!(message_links_url("https://auth", "42"), "https://auth/messages/42/links");
    assert_eq!(
        message_link_url("https://auth", "42", "tok"),
        "https://auth/messages/42/links/tok"
    );
    assert_eq!(authcore::clients::messages_url("https://msg"), "https://msg/messages");
}
