use agent_browser::render::{exit_code, render, Rendering};
use agent_browser::response::{parse_response, response_from_value, Response, TransportError};

fn data(json: &str) -> Option<serde_json::Value> {
    Some(serde_json::from_str(json).unwrap())
}

fn ok_with(json: &str) -> Response {
    Response { success: true, data: data(json), error: None }
}

#[test]
fn url_and_title_take_the_two_line_form() {
    let r = render(&ok_with("{\"url\":\"https://a.com\",\"title\":\"A\"}"));
    assert_eq!(
        r,
        Rendering::TitleUrl { title: "A".to_string(), url: "https://a.com".to_string() }
    );
}

#[test]
fn url_alone_is_one_line() {
    let r = render(&ok_with("{\"url\":\"https://a.com\"}"));
    assert_eq!(r, Rendering::Plain { text: "https://a.com".to_string() });
}

#[test]
fn precedence_order() {
    // snapshot beats title and text
    let r = render(&ok_with("{\"snapshot\":\"- tree\",\"title\":\"T\",\"text\":\"x\"}"));
    assert_eq!(r, Rendering::Plain { text: "- tree".to_string() });
    // title beats text
    let r = render(&ok_with("{\"title\":\"T\",\"text\":\"x\"}"));
    assert_eq!(r, Rendering::Plain { text: "T".to_string() });
    let r = render(&ok_with("{\"text\":\"x\"}"));
    assert_eq!(r, Rendering::Plain { text: "x".to_string() });
}

#[test]
fn result_is_pretty_printed() {
    let r = render(&ok_with("{\"result\":{\"a\":1}}"));
    match r {
        Rendering::ResultDump { pretty } => {
            assert_eq!(pretty, "{\n  \"a\": 1\n}");
        },
        other => panic!("expected a result dump, got {:?}", other),
    }
}

#[test]
fn closed_and_done_notes() {
    assert_eq!(render(&ok_with("{\"closed\":true}")), Rendering::ClosedNote);
    assert_eq!(render(&ok_with("{\"other\":1}")), Rendering::DoneNote);
}

#[test]
fn success_without_data_shows_generic_note() {
    let r = render(&Response { success: true, data: None, error: None });
    assert_eq!(r, Rendering::DoneNote);
}

#[test]
fn failure_shows_error_text() {
    let r = render(&Response { success: false, data: None, error: Some("boom".to_string()) });
    assert_eq!(r, Rendering::ErrorLine { message: "boom".to_string() });
}

#[test]
fn failure_without_error_uses_fixed_fallback() {
    let r = render(&Response { success: false, data: None, error: None });
    assert_eq!(r, Rendering::ErrorLine { message: "Unknown error".to_string() });
}

#[test]
fn exit_codes() {
    assert_eq!(exit_code(true), 0);
    assert_eq!(exit_code(false), 1);
}

#[test]
fn response_parses_fields() {
    let v: serde_json::Value =
        serde_json::from_str("{\"success\":true,\"data\":{\"url\":\"u\"},\"error\":null}").unwrap();
    let resp = response_from_value(&v).unwrap();
    assert!(resp.success);
    assert!(resp.data.is_some());
    assert!(resp.error.is_none());
}

#[test]
fn response_null_data_counts_as_absent() {
    let v: serde_json::Value = serde_json::from_str("{\"success\":true,\"data\":null}").unwrap();
    let resp = response_from_value(&v).unwrap();
    assert!(resp.data.is_none());
}

#[test]
fn response_needs_boolean_success() {
    let v: serde_json::Value = serde_json::from_str("{\"data\":{}}").unwrap();
    assert!(response_from_value(&v).is_none());
    let v: serde_json::Value = serde_json::from_str("{\"success\":\"yes\"}").unwrap();
    assert!(response_from_value(&v).is_none());
}

#[test]
fn response_rejects_error_of_wrong_type() {
    let v: serde_json::Value = serde_json::from_str("{\"success\":false,\"error\":5}").unwrap();
    assert!(response_from_value(&v).is_none());
    match parse_response("{\"success\":false,\"error\":5}") {
        Err(TransportError::InvalidResponse { raw }) => {
            assert_eq!(raw, "{\"success\":false,\"error\":5}")
        },
        other => panic!("expected an invalid-response error, got {:?}", other),
    }
}

#[test]
fn invalid_line_carries_raw_text() {
    match parse_response("not json") {
        Err(TransportError::InvalidResponse { raw }) => assert_eq!(raw, "not json"),
        other => panic!("expected an invalid-response error, got {:?}", other),
    }
    match parse_response("{\"nosuccess\":1}") {
        Err(TransportError::InvalidResponse { raw }) => assert_eq!(raw, "{\"nosuccess\":1}"),
        other => panic!("expected an invalid-response error, got {:?}", other),
    }
}

#[test]
fn valid_line_parses() {
    let resp = parse_response("{\"success\":false,\"error\":\"nope\"}").unwrap();
    assert!(!resp.success);
    assert_eq!(resp.error.as_deref(), Some("nope"));
}

#[test]
fn transport_error_messages() {
    assert_eq!(
        TransportError::ConnectFailed { detail: "x".to_string() }.message(),
        "Failed to connect: x"
    );
    assert_eq!(TransportError::SendFailed { detail: "y".to_string() }.message(), "Failed to send: y");
    assert_eq!(
        TransportError::ReceiveFailed { detail: "z".to_string() }.message(),
        "Failed to read: z"
    );
    assert_eq!(
        TransportError::InvalidResponse { raw: "w".to_string() }.message(),
        "Invalid response: w"
    );
}
