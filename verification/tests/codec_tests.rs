use agent_browser::codec::encode_request;
use agent_browser::decode::decode_request;
use agent_browser::request::{Action, Request};

fn req(action: Action) -> Request {
    Request { id: "r42".to_string(), action }
}

/// Stands in for the daemon: takes the wire line and decodes it.
fn mock_daemon_roundtrip(r: &Request) {
    let line = encode_request(r);
    let chars: Vec<char> = line.chars().collect();
    let back = decode_request(&chars).expect("the daemon should read back what was sent");
    assert_eq!(&back, r);
}

#[test]
fn encode_navigate_exact() {
    let line = encode_request(&req(Action::Navigate { url: "https://example.com".to_string() }));
    assert_eq!(
        line,
        "{\"id\":\"r42\",\"action\":\"navigate\",\"url\":\"https://example.com\"}"
    );
}

#[test]
fn encode_wait_timeout_exact() {
    let line = encode_request(&req(Action::WaitTimeout { timeout: 500 }));
    assert_eq!(line, "{\"id\":\"r42\",\"action\":\"wait\",\"timeout\":500}");
}

#[test]
fn encode_escapes_strings() {
    let line = encode_request(&req(Action::Click { selector: "a\"b\\c\nd".to_string() }));
    assert_eq!(
        line,
        "{\"id\":\"r42\",\"action\":\"click\",\"selector\":\"a\\\"b\\\\c\\nd\"}"
    );
}

#[test]
fn encode_is_valid_json() {
    let line = encode_request(&req(Action::Fill {
        selector: "#n\t".to_string(),
        value: "x \"y\" \\z".to_string(),
    }));
    let v: serde_json::Value = serde_json::from_str(&line).expect("the line must be one JSON doc");
    assert_eq!(v.get("id").and_then(|x| x.as_str()), Some("r42"));
    assert_eq!(v.get("action").and_then(|x| x.as_str()), Some("fill"));
    assert_eq!(v.get("selector").and_then(|x| x.as_str()), Some("#n\t"));
    assert_eq!(v.get("value").and_then(|x| x.as_str()), Some("x \"y\" \\z"));
}

#[test]
fn encode_snapshot_omits_unset_fields() {
    let line = encode_request(&req(Action::Snapshot {
        interactive: true,
        compact: false,
        max_depth: Some(3),
        selector: None,
    }));
    assert_eq!(
        line,
        "{\"id\":\"r42\",\"action\":\"snapshot\",\"interactive\":true,\"maxDepth\":3}"
    );
}

#[test]
fn encode_screenshot_null_path() {
    let line = encode_request(&req(Action::Screenshot { path: None }));
    assert_eq!(line, "{\"id\":\"r42\",\"action\":\"screenshot\",\"path\":null}");
}

#[test]
fn roundtrip_every_action() {
    mock_daemon_roundtrip(&req(Action::Navigate { url: "https://example.com".to_string() }));
    mock_daemon_roundtrip(&req(Action::Click { selector: "@e2".to_string() }));
    mock_daemon_roundtrip(&req(Action::Fill {
        selector: "#name".to_string(),
        value: "Ada Lovelace".to_string(),
    }));
    mock_daemon_roundtrip(&req(Action::Type {
        selector: "#q".to_string(),
        text: "hello world".to_string(),
    }));
    mock_daemon_roundtrip(&req(Action::Hover { selector: ".menu".to_string() }));
    mock_daemon_roundtrip(&req(Action::Snapshot {
        interactive: false,
        compact: true,
        max_depth: Some(-7),
        selector: Some("#root".to_string()),
    }));
    mock_daemon_roundtrip(&req(Action::Snapshot {
        interactive: true,
        compact: false,
        max_depth: None,
        selector: None,
    }));
    mock_daemon_roundtrip(&req(Action::Screenshot { path: Some("/tmp/s.png".to_string()) }));
    mock_daemon_roundtrip(&req(Action::Screenshot { path: None }));
    mock_daemon_roundtrip(&req(Action::Close));
    mock_daemon_roundtrip(&req(Action::GetText { selector: "h1".to_string() }));
    mock_daemon_roundtrip(&req(Action::GetUrl));
    mock_daemon_roundtrip(&req(Action::GetTitle));
    mock_daemon_roundtrip(&req(Action::Press { key: "Enter".to_string() }));
    mock_daemon_roundtrip(&req(Action::WaitTimeout { timeout: 500 }));
    mock_daemon_roundtrip(&req(Action::WaitTimeout { timeout: 0 }));
    mock_daemon_roundtrip(&req(Action::WaitTimeout { timeout: u64::MAX }));
    mock_daemon_roundtrip(&req(Action::WaitSelector { selector: "#foo".to_string() }));
    mock_daemon_roundtrip(&req(Action::Back));
    mock_daemon_roundtrip(&req(Action::Forward));
    mock_daemon_roundtrip(&req(Action::Reload));
    mock_daemon_roundtrip(&req(Action::Evaluate { script: "1 + 2".to_string() }));
}

#[test]
fn encode_escapes_control_characters() {
    let line = encode_request(&req(Action::Press { key: "a\u{1}b\u{1f}".to_string() }));
    assert_eq!(
        line,
        "{\"id\":\"r42\",\"action\":\"press\",\"key\":\"a\\u0001b\\u001f\"}"
    );
    let v: serde_json::Value = serde_json::from_str(&line).expect("must stay valid JSON");
    assert_eq!(v.get("key").and_then(|x| x.as_str()), Some("a\u{1}b\u{1f}"));
}

#[test]
fn roundtrip_with_escapes() {
    mock_daemon_roundtrip(&req(Action::Evaluate {
        script: "say(\"hi\\n\")\twith\rtabs".to_string(),
    }));
    mock_daemon_roundtrip(&req(Action::Fill {
        selector: "\u{0}\u{1f}\u{7f}".to_string(),
        value: "x\u{b}y".to_string(),
    }));
    mock_daemon_roundtrip(&Request {
        id: "r\\\"0".to_string(),
        action: Action::Click { selector: "\"\"\\".to_string() },
    });
}

#[test]
fn decode_rejects_garbage() {
    let cases = [
        "",
        "{",
        "nope",
        "{\"id\":\"r1\"}",
        "{\"id\":\"r1\",\"action\":\"frobnicate\"}",
        "{\"id\":\"r1\",\"action\":\"close\"} ",
        "{\"id\":\"r1\",\"action\":\"wait\",\"timeout\":99999999999999999999999999}",
    ];
    for c in cases {
        let chars: Vec<char> = c.chars().collect();
        assert!(decode_request(&chars).is_none(), "should reject: {}", c);
    }
}
