use ov_cli::base_client::api_error_from_envelope;
use ov_cli::base_client::deserialize_failure;
use ov_cli::base_client::empty_response_failure;
use ov_cli::base_client::format_status;
use ov_cli::base_client::deserialize_failure_for_body;
use ov_cli::base_client::handle_body;
use ov_cli::base_client::handle_response;
use ov_cli::base_client::status_text;
use ov_cli::base_client::response_has_body;
use ov_cli::base_client::BaseClient;
use ov_cli::base_client::TimeoutSecs;
use ov_cli::base_client::JsonParseFailure;
use ov_cli::error::Error;
use ov_cli::json::JsonValue;

fn s(v: &str) -> JsonValue {
    JsonValue::String(v.to_string())
}

fn obj(members: Vec<(&str, JsonValue)>) -> JsonValue {
    JsonValue::Object(members.into_iter().map(|(k, v)| (k.to_string(), v)).collect())
}

fn client() -> BaseClient {
    BaseClient::new(
        "http://localhost:1933/",
        Some("key-1".to_string()),
        Some("agent-1".to_string()),
        Some("acme".to_string()),
        None,
        TimeoutSecs { bits: 60.0f64.to_bits() },
        None,
    )
}

#[test]
fn new_client_drops_trailing_slashes() {
    let c = client();
    assert_eq!(c.base_url(), "http://localhost:1933");
    assert_eq!(c.request_url("/api/v1/fs/ls"), "http://localhost:1933/api/v1/fs/ls");
    let simple = BaseClient::new_simple("http://h//", TimeoutSecs { bits: 3.0f64.to_bits() });
    assert_eq!(simple.base_url(), "http://h");
    assert_eq!(simple.api_key(), None);
    assert_eq!(simple.user_id(), None);
    assert_eq!(simple.agent_id(), None);
    assert_eq!(f64::from_bits(simple.timeout.bits), 3.0);
    assert_eq!(f64::from_bits(c.timeout.bits), 60.0);
}

#[test]
fn build_headers_carries_identity() {
    let headers = client().build_headers();
    assert_eq!(headers.len(), 4);
    assert_eq!(headers.get("content-type").unwrap(), "application/json");
    assert_eq!(headers.get("x-api-key").unwrap(), "key-1");
    assert_eq!(headers.get("x-openviking-agent").unwrap(), "agent-1");
    assert_eq!(headers.get("x-openviking-account").unwrap(), "acme");
    assert!(headers.get("x-openviking-user").is_none());
}

#[test]
fn build_headers_skips_invalid_values_and_applies_extra_headers_in_order() {
    let c = BaseClient::new(
        "http://h",
        Some("bad\nkey".to_string()),
        None,
        None,
        Some("alice".to_string()),
        TimeoutSecs { bits: 30.0f64.to_bits() },
        Some(vec![
            ("X-Trace".to_string(), "1".to_string()),
            ("bad name".to_string(), "x".to_string()),
            ("x-trace".to_string(), "2".to_string()),
            ("X-OpenViking-User".to_string(), "bob".to_string()),
        ]),
    );
    let headers = c.build_headers();
    assert!(headers.get("x-api-key").is_none());
    assert_eq!(headers.get("x-trace").unwrap(), "2");
    assert_eq!(headers.get("x-openviking-user").unwrap(), "bob");
    assert_eq!(headers.len(), 3);
}

#[test]
fn status_is_shown_with_reason_phrase() {
    assert_eq!(format_status(404), "404 Not Found");
    assert_eq!(format_status(200), "200 OK");
    assert_eq!(format_status(599), "599 <unknown status code>");
}

#[test]
fn envelope_error_prefers_error_message_then_detail_then_status() {
    let json = obj(vec![("error", obj(vec![("code", s("NOT_FOUND")), ("message", s("no such uri"))]))]);
    assert_eq!(api_error_from_envelope(&json, 404), "[NOT_FOUND] no such uri");

    let json = obj(vec![("detail", s("bad request body"))]);
    assert_eq!(api_error_from_envelope(&json, 422), "bad request body");

    let json = obj(vec![("error", obj(vec![("code", s("E1"))])), ("detail", s("d"))]);
    assert_eq!(api_error_from_envelope(&json, 500), "[E1] d");

    let json = JsonValue::Array(vec![]);
    assert_eq!(api_error_from_envelope(&json, 502), "HTTP error 502 Bad Gateway");
}

#[test]
fn response_without_body_is_null() {
    assert!(!response_has_body(204));
    assert!(!response_has_body(202));
    assert!(response_has_body(200));
    assert_eq!(handle_response(204, None).ok(), Some(JsonValue::Null));
    assert_eq!(handle_response(202, None).ok(), Some(JsonValue::Null));
}

#[test]
fn response_result_member_is_unwrapped() {
    let body = obj(vec![("status", s("ok")), ("result", obj(vec![("uri", s("viking://a"))])), ("error", JsonValue::Null)]);
    let r = handle_response(200, Some(Ok(body)));
    assert_eq!(r.ok(), Some(obj(vec![("uri", s("viking://a"))])));

    let body = obj(vec![("uri", s("viking://b"))]);
    let r = handle_response(201, Some(Ok(body)));
    assert_eq!(r.ok(), Some(obj(vec![("uri", s("viking://b"))])));
}

#[test]
fn response_errors_are_reported() {
    let body = obj(vec![("error", obj(vec![("message", s("denied"))]))]);
    match handle_response(200, Some(Ok(body))) {
        Err(Error::Api(m)) => assert_eq!(m, "[UNKNOWN] denied"),
        _ => panic!("expected an API error"),
    }
    let body = obj(vec![("error", s("boom"))]);
    match handle_response(200, Some(Ok(body))) {
        Err(Error::Api(m)) => assert_eq!(m, "[UNKNOWN] Unknown error"),
        _ => panic!("expected an API error"),
    }
    let body = obj(vec![("detail", s("Not allowed"))]);
    match handle_response(403, Some(Ok(body))) {
        Err(Error::Api(m)) => assert_eq!(m, "Not allowed"),
        _ => panic!("expected an API error"),
    }
    let failure = JsonParseFailure { error: "expected value".to_string(), raw_body: "<html>".to_string() };
    match handle_response(500, Some(Err(failure))) {
        Err(Error::Network(m)) => assert_eq!(m, "Failed to parse JSON response: expected value\n\nRaw response body:\n<html>"),
        _ => panic!("expected a network error"),
    }
    match deserialize_failure("missing field", "{}") {
        Error::Parse(m) => assert_eq!(m, "Failed to deserialize response: missing field\n\nJSON that failed to parse:\n{}"),
        _ => panic!("expected a parse error"),
    }
}

#[test]
fn empty_response_failure_names_the_empty_answer() {
    assert_eq!(
        empty_response_failure("invalid type: null, expected a string"),
        Error::Parse("Failed to parse empty response: invalid type: null, expected a string".to_string())
    );
}

#[test]
fn handle_body_reads_the_raw_json() {
    let body: &[u8] = br#"{"result": {"a": 1, "b": [true, null]}}"#;
    assert_eq!(
        handle_body(200, Some(body)),
        Ok(obj(vec![
            ("a", JsonValue::Number("1".to_string())),
            ("b", JsonValue::Array(vec![JsonValue::Bool(true), JsonValue::Null])),
        ]))
    );
    let refused: &[u8] = br#"{"error": {"code": "NOT_FOUND", "message": "no such uri"}}"#;
    assert_eq!(handle_body(404, Some(refused)), Err(Error::Api("[NOT_FOUND] no such uri".to_string())));
    assert_eq!(handle_body(204, None), Ok(JsonValue::Null));
    assert_eq!(handle_body(202, Some(b"not json")), Ok(JsonValue::Null));
}

#[test]
fn handle_body_reports_unparsable_bodies_with_their_text() {
    match handle_body(500, Some(b"not json")) {
        Err(Error::Network(m)) => {
            assert!(m.starts_with("Failed to parse JSON response: "));
            assert!(m.contains("line 1"));
            assert!(m.ends_with("\n\nRaw response body:\nnot json"));
        }
        other => panic!("unexpected {:?}", other),
    }
    match handle_body(200, Some(&[0xff, b'x'])) {
        Err(Error::Network(m)) => assert!(m.ends_with("\n\nRaw response body:\n\u{FFFD}x")),
        other => panic!("unexpected {:?}", other),
    }
}

#[test]
fn deserialize_failure_shows_the_compact_json() {
    let body: &[u8] = br#"{ "b": 2, "a": [1, true, null] }"#;
    assert_eq!(
        deserialize_failure_for_body("invalid type", body),
        Some(Error::Parse(
            "Failed to deserialize response: invalid type\n\nJSON that failed to parse:\n{\"a\":[1,true,null],\"b\":2}"
                .to_string()
        ))
    );
    assert_eq!(deserialize_failure_for_body("invalid type", b"oops"), None);
}

#[test]
fn status_text_falls_back_for_unknown_phrases() {
    assert_eq!(status_text(404, Some("Not Found")), "404 Not Found");
    assert_eq!(status_text(599, None), "599 <unknown status code>");
}

#[test]
fn distinct_extra_headers_do_not_depend_on_order() {
    let pairs = vec![
        ("X-A".to_string(), "1".to_string()),
        ("X-B".to_string(), "2".to_string()),
        ("X-API-Key".to_string(), "override".to_string()),
    ];
    let mut reversed = pairs.clone();
    reversed.reverse();
    let make = |extra: Vec<(String, String)>| {
        BaseClient::new(
            "http://h",
            Some("key".to_string()),
            None,
            None,
            None,
            TimeoutSecs { bits: 1.0f64.to_bits() },
            Some(extra),
        )
        .build_headers()
    };
    let forward = make(pairs);
    let backward = make(reversed);
    assert_eq!(forward, backward);
    assert_eq!(forward.get("x-a").unwrap(), "1");
    assert_eq!(forward.get("x-b").unwrap(), "2");
    assert_eq!(forward.get("x-api-key").unwrap(), "override");
    assert_eq!(forward.get("content-type").unwrap(), "application/json");
}
