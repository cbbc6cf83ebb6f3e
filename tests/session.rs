use nix_bootstrap::session::{
    auth_methods, join_path, parse_port, plan_upload, select_auth_method, AuthMethod,
    CommandResult, Endpoint, LocalEntry, PortError, RemoteSession, SessionError, SessionState,
    UploadStep,
};

fn endpoint() -> Endpoint {
    Endpoint { destination: "10.0.0.5".to_string(), port: 22 }
}

#[test]
fn new_session_is_disconnected() {
    let s = RemoteSession::new(endpoint());
    assert_eq!(s.state(), SessionState::Disconnected);
    assert!(s.host_key().is_none());
    assert!(s.user().is_none());
    assert_eq!(s.endpoint().destination, "10.0.0.5");
    assert_eq!(s.endpoint().port, 22);
}

#[test]
fn handshake_then_authentication() {
    let mut s = RemoteSession::new(endpoint());
    s.record_handshake(Ok("ssh-ed25519 K".to_string()));
    assert_eq!(s.state(), SessionState::Connected);
    assert_eq!(s.host_key().map(|k| k.as_str()), Some("ssh-ed25519 K"));
    assert_eq!(s.require_authenticated(), Err(SessionError::NotAuthenticated));
    assert_eq!(s.record_authentication("nixos".to_string(), true, true), Ok(()));
    assert_eq!(s.state(), SessionState::Authenticated);
    assert_eq!(s.user().map(|u| u.as_str()), Some("nixos"));
    assert_eq!(s.require_authenticated(), Ok(()));
}

#[test]
fn failed_handshake_is_transport_failure() {
    let mut s = RemoteSession::new(endpoint());
    s.record_handshake(Err(SessionError::Transport));
    assert_eq!(s.state(), SessionState::Failed(SessionError::Transport));
    assert_eq!(
        s.record_authentication("nixos".to_string(), true, true),
        Err(SessionError::NotConnected)
    );
    assert_eq!(s.state(), SessionState::Failed(SessionError::Transport));
}

#[test]
fn rejected_credential_is_auth_failure() {
    let mut s = RemoteSession::new(endpoint());
    s.record_handshake(Ok("k".to_string()));
    assert_eq!(s.record_authentication("root".to_string(), false, false), Err(SessionError::Auth));
    assert_eq!(s.state(), SessionState::Failed(SessionError::Auth));
}

#[test]
fn accepted_but_not_marked_is_auth_failure() {
    let mut s = RemoteSession::new(endpoint());
    s.record_handshake(Ok("k".to_string()));
    assert_eq!(s.record_authentication("root".to_string(), true, false), Err(SessionError::Auth));
    assert!(s.user().is_none());
}

#[test]
fn reconnect_keeps_endpoint_and_takes_new_key() {
    let mut s = RemoteSession::new(endpoint());
    s.record_handshake(Ok("old".to_string()));
    s.record_authentication("nixos".to_string(), true, true).unwrap();
    s.record_reconnect("new".to_string(), "root".to_string());
    assert_eq!(s.state(), SessionState::Authenticated);
    assert_eq!(s.host_key().map(|k| k.as_str()), Some("new"));
    assert_eq!(s.user().map(|u| u.as_str()), Some("root"));
    assert_eq!(s.endpoint().destination, "10.0.0.5");
    assert_eq!(s.endpoint().port, 22);
}

#[test]
fn command_exit_seven_keeps_partial_output() {
    let r = CommandResult::new(b"partial".to_vec(), b"boom".to_vec(), 7);
    assert_eq!(r.exit_code, 7);
    assert_eq!(r.stdout, b"partial".to_vec());
    assert!(!r.succeeded());
    let e = r.into_stdout().unwrap_err();
    assert_eq!(e.exit_code, 7);
    assert_eq!(e.stderr, b"boom".to_vec());
}

#[test]
fn command_success_gives_stdout() {
    let r = CommandResult::new(b"out".to_vec(), Vec::new(), 0);
    assert!(r.succeeded());
    assert_eq!(r.into_stdout().unwrap(), b"out".to_vec());
}

#[test]
fn ports_are_read_like_u16() {
    assert_eq!(parse_port("22"), Ok(22));
    assert_eq!(parse_port("+2222"), Ok(2222));
    assert_eq!(parse_port("65535"), Ok(65535));
    assert_eq!(parse_port("00080"), Ok(80));
    assert_eq!(parse_port("1"), Ok(1));
}

#[test]
fn bad_ports_are_refused() {
    assert_eq!(parse_port("0"), Err(PortError::OutOfRange));
    assert_eq!(parse_port("65536"), Err(PortError::NotANumber));
    assert_eq!(parse_port("999999999999"), Err(PortError::NotANumber));
    assert_eq!(parse_port(""), Err(PortError::NotANumber));
    assert_eq!(parse_port("+"), Err(PortError::NotANumber));
    assert_eq!(parse_port("-1"), Err(PortError::NotANumber));
    assert_eq!(parse_port(" 22"), Err(PortError::NotANumber));
    assert_eq!(parse_port("2a"), Err(PortError::NotANumber));
    assert_eq!(PortError::OutOfRange.message(), "Port must be between 1 and 65535");
}

#[test]
fn auth_method_names() {
    assert_eq!(AuthMethod::Agent.label(), "agent");
    assert_eq!(AuthMethod::Passwd.label(), "password");
    assert_eq!(AuthMethod::parse("agent"), Ok(AuthMethod::Agent));
    assert_eq!(AuthMethod::parse("AGENT"), Ok(AuthMethod::Agent));
    assert_eq!(AuthMethod::parse("PassWord"), Ok(AuthMethod::Passwd));
    assert_eq!(
        AuthMethod::parse("key"),
        Err("Invalid authentication method: key".to_string())
    );
    assert_eq!(AuthMethod::from_lowercase("AGENT"), None);
}

#[test]
fn auth_method_selection() {
    assert_eq!(auth_methods(), vec![AuthMethod::Agent, AuthMethod::Passwd]);
    assert_eq!(select_auth_method(0), Some(AuthMethod::Agent));
    assert_eq!(select_auth_method(1), Some(AuthMethod::Passwd));
    assert_eq!(select_auth_method(2), None);
}

#[test]
fn upload_plan_mirrors_tree() {
    let entries = vec![
        LocalEntry { relative_path: "hosts".to_string(), is_dir: true },
        LocalEntry { relative_path: "hosts/a.nix".to_string(), is_dir: false },
        LocalEntry { relative_path: "flake.nix".to_string(), is_dir: false },
    ];
    let steps = plan_upload("/tmp/cfg", "/home/web", &entries);
    assert_eq!(
        steps,
        vec![
            UploadStep::EnsureDir("/home/web/hosts".to_string()),
            UploadStep::CopyFile {
                local: "/tmp/cfg/hosts/a.nix".to_string(),
                remote: "/home/web/hosts/a.nix".to_string(),
            },
            UploadStep::CopyFile {
                local: "/tmp/cfg/flake.nix".to_string(),
                remote: "/home/web/flake.nix".to_string(),
            },
        ]
    );
    assert!(plan_upload("/a", "/b", &Vec::new()).is_empty());
    assert_eq!(join_path("/a", "b"), "/a/b");
}

#[test]
fn auth_method_from_str() {
    let m: AuthMethod = "Agent".parse().unwrap();
    assert_eq!(m, AuthMethod::Agent);
    assert!("ssh".parse::<AuthMethod>().is_err());
}

#[test]
fn command_result_keeps_failing_status_and_output() {
    let mut s = RemoteSession::new(endpoint());
    assert_eq!(
        s.command_result(b"x".to_vec(), Vec::new(), 0).unwrap_err(),
        SessionError::NotAuthenticated
    );
    s.record_handshake(Ok("k".to_string()));
    s.record_authentication("nixos".to_string(), true, true).unwrap();
    let r = s.command_result(b"partial".to_vec(), b"err".to_vec(), 7).unwrap();
    assert_eq!(r.exit_code, 7);
    assert_eq!(r.stdout, b"partial".to_vec());
    assert_eq!(r.stderr, b"err".to_vec());
    assert_eq!(PortError::NotANumber.message(), "Please enter a valid number between 1 and 65535");
}
