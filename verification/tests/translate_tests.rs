use agent_browser::request::Action;
use agent_browser::translate::translate;

fn toks(v: &[&str]) -> Vec<String> {
    v.iter().map(|s| s.to_string()).collect()
}

fn tr(v: &[&str]) -> Option<agent_browser::request::Request> {
    translate(&toks(v), "r1".to_string())
}

#[test]
fn open_prepends_https() {
    let req = tr(&["open", "example.com"]).unwrap();
    assert_eq!(req.id, "r1");
    assert_eq!(req.action, Action::Navigate { url: "https://example.com".to_string() });
}

#[test]
fn open_preserves_scheme() {
    let req = tr(&["open", "https://x.com"]).unwrap();
    assert_eq!(req.action, Action::Navigate { url: "https://x.com".to_string() });
    let req = tr(&["goto", "http://y.org"]).unwrap();
    assert_eq!(req.action, Action::Navigate { url: "http://y.org".to_string() });
}

#[test]
fn navigate_aliases_agree() {
    for cmd in ["open", "goto", "navigate"] {
        let req = tr(&[cmd, "a.com"]).unwrap();
        assert!(matches!(req.action, Action::Navigate { .. }));
    }
}

#[test]
fn action_table_mapping() {
    assert!(matches!(tr(&["click", "#b"]).unwrap().action, Action::Click { .. }));
    assert!(matches!(tr(&["hover", "#b"]).unwrap().action, Action::Hover { .. }));
    assert!(matches!(tr(&["press", "Enter"]).unwrap().action, Action::Press { .. }));
    assert!(matches!(tr(&["screenshot"]).unwrap().action, Action::Screenshot { path: None }));
    assert!(matches!(tr(&["back"]).unwrap().action, Action::Back));
    assert!(matches!(tr(&["forward"]).unwrap().action, Action::Forward));
    assert!(matches!(tr(&["reload"]).unwrap().action, Action::Reload));
    for cmd in ["close", "quit", "exit"] {
        assert!(matches!(tr(&[cmd]).unwrap().action, Action::Close));
    }
}

#[test]
fn fill_joins_remaining_tokens() {
    let req = tr(&["fill", "#name", "Ada", "Lovelace"]).unwrap();
    assert_eq!(
        req.action,
        Action::Fill { selector: "#name".to_string(), value: "Ada Lovelace".to_string() }
    );
}

#[test]
fn type_joins_remaining_tokens() {
    let req = tr(&["type", "#q", "hello", "world"]).unwrap();
    assert_eq!(
        req.action,
        Action::Type { selector: "#q".to_string(), text: "hello world".to_string() }
    );
}

#[test]
fn eval_joins_all_tokens() {
    let req = tr(&["eval", "1", "+", "2"]).unwrap();
    assert_eq!(req.action, Action::Evaluate { script: "1 + 2".to_string() });
}

#[test]
fn get_subcommands() {
    assert_eq!(
        tr(&["get", "text", "#t"]).unwrap().action,
        Action::GetText { selector: "#t".to_string() }
    );
    assert!(matches!(tr(&["get", "url"]).unwrap().action, Action::GetUrl));
    assert!(matches!(tr(&["get", "title"]).unwrap().action, Action::GetTitle));
    assert!(tr(&["get", "html"]).is_none());
    assert!(tr(&["get"]).is_none());
}

#[test]
fn wait_numeric_and_selector() {
    assert_eq!(tr(&["wait", "500"]).unwrap().action, Action::WaitTimeout { timeout: 500 });
    assert_eq!(
        tr(&["wait", "#foo"]).unwrap().action,
        Action::WaitSelector { selector: "#foo".to_string() }
    );
    // a leading plus parses as a number, as Rust's u64 parser reads it
    assert_eq!(tr(&["wait", "+7"]).unwrap().action, Action::WaitTimeout { timeout: 7 });
    // an out-of-range number is not a timeout, so it is a selector
    assert_eq!(
        tr(&["wait", "18446744073709551616"]).unwrap().action,
        Action::WaitSelector { selector: "18446744073709551616".to_string() }
    );
}

#[test]
fn snapshot_flags() {
    let req = tr(&["snapshot", "-i", "-d", "3"]).unwrap();
    assert_eq!(
        req.action,
        Action::Snapshot { interactive: true, compact: false, max_depth: Some(3), selector: None }
    );
}

#[test]
fn snapshot_flag_order_permutations() {
    let a = tr(&["snapshot", "-i", "-d", "3"]).unwrap();
    let b = tr(&["snapshot", "-d", "3", "-i"]).unwrap();
    assert_eq!(a.action, b.action);
}

#[test]
fn snapshot_all_flags_and_long_forms() {
    let req = tr(&["snapshot", "--interactive", "--compact", "--depth", "-2", "--selector", "#s"])
        .unwrap();
    assert_eq!(
        req.action,
        Action::Snapshot {
            interactive: true,
            compact: true,
            max_depth: Some(-2),
            selector: Some("#s".to_string()),
        }
    );
}

#[test]
fn snapshot_ignores_unknown_flags_and_bad_depth() {
    let req = tr(&["snapshot", "--wat", "-d", "x"]).unwrap();
    assert_eq!(
        req.action,
        Action::Snapshot { interactive: false, compact: false, max_depth: None, selector: None }
    );
}

#[test]
fn snapshot_later_depth_wins() {
    let req = tr(&["snapshot", "-d", "1", "-d", "2"]).unwrap();
    assert_eq!(
        req.action,
        Action::Snapshot { interactive: false, compact: false, max_depth: Some(2), selector: None }
    );
}

#[test]
fn screenshot_with_path() {
    let req = tr(&["screenshot", "/tmp/shot.png"]).unwrap();
    assert_eq!(req.action, Action::Screenshot { path: Some("/tmp/shot.png".to_string()) });
}

#[test]
fn unknown_command_is_none() {
    assert!(tr(&["frobnicate"]).is_none());
    assert!(tr(&[]).is_none());
}

#[test]
fn missing_required_argument_is_none() {
    assert!(tr(&["open"]).is_none());
    assert!(tr(&["click"]).is_none());
    assert!(tr(&["fill"]).is_none());
    assert!(tr(&["type"]).is_none());
    assert!(tr(&["hover"]).is_none());
    assert!(tr(&["press"]).is_none());
    assert!(tr(&["wait"]).is_none());
}

#[test]
fn eval_without_script_is_empty() {
    let req = tr(&["eval"]).unwrap();
    assert_eq!(req.action, Action::Evaluate { script: String::new() });
}
