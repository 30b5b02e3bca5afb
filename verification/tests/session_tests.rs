use agent_browser::session::{pid_path, session_name, socket_path};

#[test]
fn socket_path_shape() {
    assert_eq!(socket_path("/tmp", "default"), "/tmp/agent-browser-default.sock");
    assert_eq!(pid_path("/tmp", "default"), "/tmp/agent-browser-default.pid");
}

#[test]
fn paths_are_deterministic_across_calls() {
    let a = socket_path("/tmp", "work");
    let b = socket_path("/tmp", "work");
    assert_eq!(a, b);
    let c = pid_path("/tmp", "work");
    let d = pid_path("/tmp", "work");
    assert_eq!(c, d);
}

#[test]
fn different_sessions_do_not_collide() {
    assert_ne!(socket_path("/tmp", "alpha"), socket_path("/tmp", "beta"));
    assert_ne!(socket_path("/tmp", "s"), pid_path("/tmp", "s"));
}

#[test]
fn session_name_defaults() {
    assert_eq!(session_name(None), "default");
    assert_eq!(session_name(Some("work".to_string())), "work");
}
