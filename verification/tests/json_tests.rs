use authcore::dto::parse_duration;
use authcore::errors::{Error, ErrorsResponse};
use authcore::json::envelope_to_json;

fn body(resp: &ErrorsResponse) -> String {
    String::from_utf8(envelope_to_json(resp)).unwrap()
}

#[test]
fn empty_envelope() {
    let resp = ErrorsResponse::default();
    assert_eq!(body(&resp), r#"{"errors":[]}"#);
}

#[test]
fn single_error_with_status_and_detail() {
    let resp = ErrorsResponse::default()
        .with_error(Error::default().status(404).detail("Link not found"));
    assert_eq!(
        body(&resp),
        r#"{"errors":[{"detail":"Link not found","status":404}]}"#
    );
}

#[test]
fn fields_come_in_declaration_order() {
    let e = Error::default()
        .title("Bad request")
        .status(400)
        .id("e-1")
        .detail("What happened")
        .code("invalid");
    let resp = ErrorsResponse::default().with_error(e);
    assert_eq!(
        body(&resp),
        r#"{"errors":[{"code":"invalid","detail":"What happened","id":"e-1","status":400,"title":"Bad request"}]}"#
    );
}

#[test]
fn source_pointer_and_parameter() {
    let resp = ErrorsResponse::default()
        .with_error(Error::default().status(400).pointer("/data/name"));
    assert_eq!(
        body(&resp),
        r#"{"errors":[{"source":{"pointer":"/data/name"},"status":400}]}"#
    );
    let resp2 = ErrorsResponse::default()
        .with_error(Error::default().status(400).parameter("link"));
    assert_eq!(
        body(&resp2),
        r#"{"errors":[{"source":{"parameter":"link"},"status":400}]}"#
    );
}

#[test]
fn several_errors_are_comma_separated() {
    let resp = ErrorsResponse::default()
        .with_error(Error::default().status(400))
        .with_error(Error::default().status(500));
    assert_eq!(body(&resp), r#"{"errors":[{"status":400},{"status":500}]}"#);
}

#[test]
fn string_content_is_escaped() {
    let resp = ErrorsResponse::default().with_error(
        Error::default().detail("say \"hi\" \\ twice\nplease\ttab\rret\u{8}b\u{c}f\u{1}one"),
    );
    assert_eq!(
        body(&resp),
        "{\"errors\":[{\"detail\":\"say \\\"hi\\\" \\\\ twice\\nplease\\ttab\\rret\\bb\\ff\\u0001one\"}]}"
    );
}

#[test]
fn multibyte_text_passes_through() {
    let resp = ErrorsResponse::default().with_error(Error::default().detail("héllo ☃"));
    assert_eq!(body(&resp), "{\"errors\":[{\"detail\":\"héllo ☃\"}]}");
}

#[test]
fn meta_fields_insert_and_replace() {
    let e = Error::default()
        .meta_field("k1", "v1")
        .meta_field("k2", "v2")
        .meta_field("k1", "v3");
    let resp = ErrorsResponse::default().with_error(e);
    assert_eq!(
        body(&resp),
        r#"{"errors":[{"meta":{"k1":"v3","k2":"v2"}}]}"#
    );
}

#[test]
fn emitted_envelope_is_what_serde_would_read() {
    let resp = ErrorsResponse::default().with_error(
        Error::default().status(401).detail("Incorrect username or password").code("mismatch"),
    );
    let bytes = envelope_to_json(&resp);
    let parsed: serde_json::Value = serde_json::from_slice(&bytes).unwrap();
    assert_eq!(parsed["errors"][0]["status"], 401);
    assert_eq!(parsed["errors"][0]["detail"], "Incorrect username or password");
    assert_eq!(parsed["errors"][0]["code"], "mismatch");
}

#[test]
fn duration_notation() {
    assert_eq!(authcore::dto::serialize_duration(20), "PT20S");
    assert_eq!(authcore::dto::serialize_duration(0), "PT0S");
    assert_eq!(authcore::dto::serialize_duration(-5), "PT-5S");
    assert_eq!(authcore::dto::serialize_duration(86400), "PT86400S");
    assert_eq!(
        authcore::dto::serialize_duration(i64::MIN),
        format!("PT{}S", i64::MIN)
    );
}

#[test]
fn duration_parsing() {
    assert_eq!(parse_duration("PT20S"), Some(20));
    assert_eq!(parse_duration("P1DT2H3M4S"), Some(86400 + 7200 + 180 + 4));
    assert_eq!(parse_duration("PT0S"), Some(0));
    assert_eq!(parse_duration("twenty seconds"), None);
    // What the notation writer produces, the parser reads back.
    assert_eq!(parse_duration(&authcore::dto::serialize_duration(3600)), Some(3600));
    // Notation with an oversized digit run is rejected outright, never fed
    // to the parser.
    assert_eq!(parse_duration("P1000000000000000000WT"), None);
    assert_eq!(parse_duration("PT99999999999999999999999999S"), None);
    // Thirteen digits are still read.
    assert_eq!(parse_duration("PT9999999999999S"), Some(9_999_999_999_999));
}
