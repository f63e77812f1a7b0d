use sidecar::inspect;

#[test]
fn ok() {
    let parsed = inspect::parse(
        "{\"kind\":\"event_response\",\"id\":\"req-1\",\"payload\":{\"answer\":42}}",
        "req-1",
    )
    .unwrap();
    match parsed {
        inspect::Response::Success(value) => {
            assert_eq!(
                value.get("answer").and_then(serde_json::Value::as_i64),
                Some(42)
            );
        }
        other => panic!("expected ok response, got {other:?}"),
    }
}

#[test]
fn error() {
    let parsed = inspect::parse(
        "{\"kind\":\"event_error\",\"id\":\"req-1\",\"error\":{\"code\":\"boom\",\"message\":\"failed\"}}",
        "req-1",
    )
    .unwrap();
    match parsed {
        inspect::Response::Error(message) => assert_eq!(message, "boom: failed"),
        other => panic!("expected error response, got {other:?}"),
    }
}

#[test]
fn inspect_empty() {
    let err = inspect::parse("", "req-1").unwrap_err();
    assert!(err.contains("empty"));
}

#[test]
fn blank_line_is_empty() {
    let err = inspect::parse("  \n", "req-1").unwrap_err();
    assert_eq!(err, "inspect endpoint returned empty response");
}

#[test]
fn not_json_is_an_error() {
    assert!(inspect::parse("{kind", "req-1").is_err());
}

#[test]
fn missing_payload_is_null() {
    match inspect::parse("{\"kind\":\"event_response\",\"id\":\"a\"}", "a").unwrap() {
        inspect::Response::Success(value) => assert!(value.is_null()),
        other => panic!("expected ok response, got {other:?}"),
    }
}

#[test]
fn id_mismatch() {
    let err = inspect::parse("{\"kind\":\"event_response\",\"id\":\"b\"}", "a").unwrap_err();
    assert_eq!(err, "inspect response id mismatch: expected a, got b");
}

#[test]
fn missing_kind() {
    let err = inspect::parse("{\"id\":\"a\"}", "a").unwrap_err();
    assert_eq!(err, "inspect response missing kind");
}

#[test]
fn unknown_kind() {
    let err = inspect::parse("{\"kind\":\"other\",\"id\":\"a\"}", "a").unwrap_err();
    assert_eq!(
        err,
        "expected event_response/event_error inspect frame, got other"
    );
}

#[test]
fn error_defaults() {
    match inspect::parse("{\"kind\":\"event_error\",\"id\":\"a\",\"error\":{}}", "a").unwrap() {
        inspect::Response::Error(message) => assert_eq!(
            message,
            "event_error: inspect endpoint returned event_error"
        ),
        other => panic!("expected error response, got {other:?}"),
    }
    match inspect::parse("{\"kind\":\"event_error\",\"id\":\"a\"}", "a").unwrap() {
        inspect::Response::Error(message) => {
            assert_eq!(message, "inspect endpoint returned event_error")
        }
        other => panic!("expected error response, got {other:?}"),
    }
}

#[test]
fn describe_joins_code_and_message() {
    assert_eq!(
        inspect::describe(Some("E1".to_string()), None),
        "E1: inspect endpoint returned event_error"
    );
}

#[test]
fn payload_defaults_to_an_empty_object() {
    let empty = serde_json::Value::Object(serde_json::Map::new());
    assert_eq!(inspect::payload(None).unwrap(), empty);
    assert_eq!(inspect::payload(Some("")).unwrap(), empty);
    assert_eq!(
        inspect::payload(Some("{\"window\":\"main\"}")).unwrap()["window"],
        "main"
    );
    assert!(inspect::payload(Some("{oops"))
        .unwrap_err()
        .starts_with("payload is not valid JSON: "));
}

#[test]
fn omitted_payload_is_object() {
    let line = inspect::request_line("req-1", "server.status", None).unwrap();
    assert_eq!(
        line,
        "{\"kind\":\"event\",\"id\":\"req-1\",\"verb\":\"server.status\",\"payload\":{}}\n"
    );
    let value: serde_json::Value = serde_json::from_str(line.trim()).unwrap();
    assert!(value["payload"].is_object());
    assert_eq!(inspect::request_line("a", "b", Some("")).unwrap(), "{\"kind\":\"event\",\"id\":\"a\",\"verb\":\"b\",\"payload\":{}}\n");
}

#[test]
fn request_line_carries_compact_payload() {
    let line = inspect::request_line("i\"d", "host", Some(" { \"window\" : \"main\" } ")).unwrap();
    assert_eq!(
        line,
        "{\"kind\":\"event\",\"id\":\"i\\\"d\",\"verb\":\"host\",\"payload\":{\"window\":\"main\"}}\n"
    );
    let err = inspect::request_line("a", "b", Some("{oops")).unwrap_err();
    assert!(err.starts_with("payload is not valid JSON: "));
    assert!(err.ends_with("; quote the payload as a single argument"));
}
