use rtunnel::config::TunnelConfig;
use rtunnel::session::{
    choose_auth, AuthMethod, SessionAction, SessionEvent, SessionStage, TunnelSession,
};
use rtunnel::tunnel::{check_server_key, to_hex, TunnelError};

const ABC_SHA256: &str = "ba7816bf8f01cfea414140de5dae2223b00361a396177a9cb410ff61f20015ad";

#[test]
fn known_key_is_accepted() {
    let lines = vec![
        "other.host ssh-rsa AAAAB3Nza".to_string(),
        "jump.example.com ssh-ed25519 YWJj".to_string(),
    ];
    assert!(check_server_key(&lines, "jump.example.com", 22, "ssh-ed25519", b"abc").is_ok());
}

#[test]
fn unknown_key_gives_fingerprint_and_line() {
    let lines = vec!["other.host ssh-rsa AAAAB3Nza".to_string()];
    match check_server_key(&lines, "jump.example.com", 22, "ssh-ed25519", b"abc") {
        Err(TunnelError::UnknownHostKey(fp, line)) => {
            assert_eq!(fp, ABC_SHA256);
            assert_eq!(line, "jump.example.com ssh-ed25519 YWJj");
        }
        other => panic!("unexpected {:?}", other),
    }
    match check_server_key(&Vec::new(), "jump", 2222, "ssh-rsa", b"ab") {
        Err(TunnelError::UnknownHostKey(_, line)) => assert_eq!(line, "[jump]:2222 ssh-rsa YWI="),
        other => panic!("unexpected {:?}", other),
    }
    match check_server_key(&Vec::new(), "h", 22, "t", b"a") {
        Err(TunnelError::UnknownHostKey(_, line)) => assert_eq!(line, "h t YQ=="),
        other => panic!("unexpected {:?}", other),
    }
    match check_server_key(&Vec::new(), "h", 22, "t", &[0xfb, 0xff, 0x00, 0x3e, 0x3f, 0x10, 0x7f]) {
        Err(TunnelError::UnknownHostKey(_, line)) => assert_eq!(line, "h t +/8APj8Qfw=="),
        other => panic!("unexpected {:?}", other),
    }
}

#[test]
fn hex_of_bytes() {
    assert_eq!(to_hex(&[0x00, 0x0f, 0xa0, 0xff]), "000fa0ff");
    assert_eq!(to_hex(&[]), "");
}

#[test]
fn message_errors_from_strings() {
    let e: TunnelError = "boom".to_string().into();
    assert!(matches!(e, TunnelError::Message(m) if m == "boom"));
}

fn config(key: &str) -> TunnelConfig {
    let mut c = TunnelConfig::with_id("t1".to_string());
    c.proxy_host = "jump".to_string();
    c.proxy_port = 2200;
    c.proxy_username = "bob".to_string();
    c.rsa_key_path = key.to_string();
    c.local_port = 15432;
    c.target_host = "db".to_string();
    c.target_port = 5432;
    c
}

#[test]
fn login_choice() {
    match choose_auth(&"".to_string(), &"pw".to_string()) {
        AuthMethod::Password { password } => assert_eq!(password, "pw"),
        other => panic!("unexpected {:?}", other),
    }
    match choose_auth(&"/k".to_string(), &"".to_string()) {
        AuthMethod::PublicKey { key_path, passphrase } => {
            assert_eq!(key_path, "/k");
            assert_eq!(passphrase, None);
        }
        other => panic!("unexpected {:?}", other),
    }
    match choose_auth(&"/k".to_string(), &"phrase".to_string()) {
        AuthMethod::PublicKey { passphrase, .. } => assert_eq!(passphrase.as_deref(), Some("phrase")),
        other => panic!("unexpected {:?}", other),
    }
}

#[test]
fn session_from_connect_to_close() {
    let (mut s, first) = TunnelSession::start(config(""), "pw".to_string(), 10);
    match first {
        SessionAction::Connect { host, port, timeout_secs } => {
            assert_eq!((host.as_str(), port, timeout_secs), ("jump", 2200, 10));
        }
        other => panic!("unexpected {:?}", other),
    }
    match s.step(SessionEvent::Connected { host_key_error: None }) {
        SessionAction::Authenticate { username, method: AuthMethod::Password { password } } => {
            assert_eq!(username, "bob");
            assert_eq!(password, "pw");
        }
        other => panic!("unexpected {:?}", other),
    }
    match s.step(SessionEvent::Authenticated(true)) {
        SessionAction::Bind { address } => assert_eq!(address, "127.0.0.1:15432"),
        other => panic!("unexpected {:?}", other),
    }
    assert!(matches!(s.step(SessionEvent::Bound), SessionAction::Wait));
    assert_eq!(s.current_stage(), SessionStage::Serving);
    assert!(matches!(s.step(SessionEvent::Tick { running: true }), SessionAction::Wait));
    match s.step(SessionEvent::ClientAccepted) {
        SessionAction::OpenChannel { target_host, target_port, originator, originator_port } => {
            assert_eq!(target_host, "db");
            assert_eq!(target_port, 5432);
            assert_eq!(originator, "localhost");
            assert_eq!(originator_port, 0);
        }
        other => panic!("unexpected {:?}", other),
    }
    match s.step(SessionEvent::Tick { running: false }) {
        SessionAction::Disconnect { description, language } => {
            assert_eq!(description, "rTunnel session closed");
            assert_eq!(language, "en-US");
        }
        other => panic!("unexpected {:?}", other),
    }
    assert_eq!(s.current_stage(), SessionStage::Closing);
    assert!(matches!(s.step(SessionEvent::Disconnected), SessionAction::Finish(Ok(()))));
    assert_eq!(s.current_stage(), SessionStage::Finished);
    assert!(matches!(s.step(SessionEvent::Tick { running: true }), SessionAction::Wait));
    assert_eq!(s.current_stage(), SessionStage::Finished);
}

#[test]
fn session_failures() {
    let (mut s, _) = TunnelSession::start(config(""), "pw".to_string(), 5);
    match s.step(SessionEvent::ConnectTimedOut) {
        SessionAction::Finish(Err(TunnelError::Message(m))) => assert_eq!(m, "Connection timeout"),
        other => panic!("unexpected {:?}", other),
    }
    let (mut s, _) = TunnelSession::start(config(""), "pw".to_string(), 5);
    match s.step(SessionEvent::ConnectFailed("refused".to_string())) {
        SessionAction::Finish(Err(TunnelError::Message(m))) => assert_eq!(m, "refused"),
        other => panic!("unexpected {:?}", other),
    }
    let (mut s, _) = TunnelSession::start(config(""), "pw".to_string(), 5);
    let key_error = TunnelError::UnknownHostKey("fp".to_string(), "line".to_string());
    match s.step(SessionEvent::Connected { host_key_error: Some(key_error) }) {
        SessionAction::Finish(Err(TunnelError::UnknownHostKey(fp, line))) => {
            assert_eq!((fp.as_str(), line.as_str()), ("fp", "line"));
        }
        other => panic!("unexpected {:?}", other),
    }
    let (mut s, _) = TunnelSession::start(config("/key"), "".to_string(), 5);
    match s.step(SessionEvent::Connected { host_key_error: None }) {
        SessionAction::Authenticate { method: AuthMethod::PublicKey { key_path, passphrase }, .. } => {
            assert_eq!(key_path, "/key");
            assert_eq!(passphrase, None);
        }
        other => panic!("unexpected {:?}", other),
    }
    match s.step(SessionEvent::Authenticated(false)) {
        SessionAction::Finish(Err(TunnelError::Message(m))) => assert_eq!(m, "Authentication failed"),
        other => panic!("unexpected {:?}", other),
    }
    let (mut s, _) = TunnelSession::start(config(""), "pw".to_string(), 5);
    assert!(matches!(s.step(SessionEvent::Bound), SessionAction::Wait));
    assert_eq!(s.current_stage(), SessionStage::Connecting);
    s.step(SessionEvent::Connected { host_key_error: None });
    match s.step(SessionEvent::AuthFailed("bad key".to_string())) {
        SessionAction::Finish(Err(TunnelError::Message(m))) => assert_eq!(m, "bad key"),
        other => panic!("unexpected {:?}", other),
    }
    let (mut s, _) = TunnelSession::start(config(""), "pw".to_string(), 5);
    s.step(SessionEvent::Connected { host_key_error: None });
    s.step(SessionEvent::Authenticated(true));
    match s.step(SessionEvent::BindFailed("in use".to_string())) {
        SessionAction::Finish(Err(TunnelError::Message(m))) => assert_eq!(m, "in use"),
        other => panic!("unexpected {:?}", other),
    }
}

#[test]
fn accepting_a_rejected_key_makes_it_known() {
    let mut lines = vec!["other ssh-rsa AAAA".to_string()];
    let key = [1u8, 2, 3, 4, 5, 250];
    let line = match check_server_key(&lines, "jump", 2022, "ssh-ed25519", &key) {
        Err(TunnelError::UnknownHostKey(_, line)) => line,
        other => panic!("unexpected {:?}", other),
    };
    assert_eq!(line, "[jump]:2022 ssh-ed25519 AQIDBAX6");
    lines.push(line);
    assert!(check_server_key(&lines, "jump", 2022, "ssh-ed25519", &key).is_ok());
}

#[test]
fn stages_only_move_forward() {
    let (mut s, _) = TunnelSession::start(config(""), "pw".to_string(), 5);
    let order = [
        SessionStage::Connecting,
        SessionStage::Authenticating,
        SessionStage::Binding,
        SessionStage::Serving,
        SessionStage::Closing,
        SessionStage::Finished,
    ];
    let rank = |st: SessionStage| order.iter().position(|x| *x == st).unwrap();
    let events = vec![
        SessionEvent::Tick { running: false },
        SessionEvent::Connected { host_key_error: None },
        SessionEvent::Disconnected,
        SessionEvent::Authenticated(true),
        SessionEvent::ClientAccepted,
        SessionEvent::Bound,
        SessionEvent::Tick { running: true },
        SessionEvent::Tick { running: false },
        SessionEvent::Bound,
        SessionEvent::Disconnected,
        SessionEvent::ConnectTimedOut,
    ];
    let mut last = rank(s.current_stage());
    for e in events {
        s.step(e);
        let now = rank(s.current_stage());
        assert!(now >= last);
        last = now;
    }
    assert_eq!(s.current_stage(), SessionStage::Finished);
}
