use neoshell_core::proxy::config::{ProxyConfig, ProxyType};
use neoshell_core::proxy::error::{HandshakeError, Socks5Stage};
use neoshell_core::proxy::socks5::{
    auth_request, connect_request, greeting, Socks5Handshake, Socks5Phase,
};
use neoshell_core::proxy::tunnel::{TunnelAction, TunnelEvent};

fn proxy(user: Option<&str>, pass: Option<&str>) -> ProxyConfig {
    ProxyConfig {
        id: "p".to_string(),
        name: "p".to_string(),
        proxy_type: ProxyType::Socks5h,
        host: "127.0.0.1".to_string(),
        port: 1080,
        username: user.map(|s| s.to_string()),
        password: pass.map(|s| s.to_string()),
    }
}

fn sent_bytes(a: TunnelAction) -> Vec<u8> {
    match a {
        TunnelAction::Send(b) => b,
        other => panic!("expected Send, got {:?}", other),
    }
}

fn failure_text(a: TunnelAction) -> String {
    match a {
        TunnelAction::Fail(e) => e.message(),
        other => panic!("expected Fail, got {:?}", other),
    }
}

fn step(hs: &mut Socks5Handshake, e: TunnelEvent) -> TunnelAction {
    assert!(hs.accepts(&e));
    hs.step(e)
}

#[test]
fn greeting_offers_auth_only_with_username() {
    assert_eq!(greeting(false), vec![5, 1, 0]);
    assert_eq!(greeting(true), vec![5, 2, 0, 2]);
}

#[test]
fn auth_request_layout() {
    assert_eq!(
        auth_request(b"user", b"pw"),
        vec![1, 4, b'u', b's', b'e', b'r', 2, b'p', b'w']
    );
    assert_eq!(auth_request(b"", b""), vec![1, 0, 0]);
}

#[test]
fn auth_request_length_byte_keeps_low_bits() {
    let long = vec![b'x'; 300];
    let frame = auth_request(&long, b"");
    assert_eq!(frame[1], (300 % 256) as u8);
    assert_eq!(frame.len(), 303);
}

#[test]
fn connect_request_names_host_and_port() {
    let frame = connect_request(b"example.com", 22);
    let mut expected = vec![5, 1, 0, 3, 11];
    expected.extend_from_slice(b"example.com");
    expected.extend_from_slice(&[0, 22]);
    assert_eq!(frame, expected);
    let frame = connect_request(b"h", 443);
    assert_eq!(frame, vec![5, 1, 0, 3, 1, b'h', 1, 187]);
}

#[test]
fn connect_frame_port_reads_back() {
    for port in [0u16, 1, 255, 256, 8080, 65535] {
        let f = connect_request(b"host", port);
        let n = f.len();
        assert_eq!(f[n - 2] as u16 * 256 + f[n - 1] as u16, port);
        assert_eq!(f[3], 3);
        assert_eq!(&f[5..9], b"host");
    }
}

#[test]
fn handshake_without_auth_ipv4_bound() {
    let (mut hs, first) = Socks5Handshake::start(&proxy(None, None), "example.com", 22);
    assert_eq!(sent_bytes(first), vec![5, 1, 0]);
    assert!(matches!(step(&mut hs, TunnelEvent::Sent), TunnelAction::ReceiveExact(2)));
    let req = sent_bytes(step(&mut hs, TunnelEvent::Received(vec![5, 0])));
    assert_eq!(req, connect_request(b"example.com", 22));
    assert!(matches!(step(&mut hs, TunnelEvent::Sent), TunnelAction::ReceiveExact(4)));
    assert!(matches!(
        step(&mut hs, TunnelEvent::Received(vec![5, 0, 0, 1])),
        TunnelAction::ReceiveExact(6)
    ));
    assert!(matches!(
        step(&mut hs, TunnelEvent::Received(vec![1, 2, 3, 4, 0, 22])),
        TunnelAction::Done
    ));
    assert_eq!(hs.phase(), Socks5Phase::Done);
}

#[test]
fn handshake_with_auth_and_domain_bound() {
    let (mut hs, first) =
        Socks5Handshake::start(&proxy(Some("user"), Some("pass")), "db.internal", 5432);
    assert_eq!(sent_bytes(first), vec![5, 2, 0, 2]);
    step(&mut hs, TunnelEvent::Sent);
    let auth = sent_bytes(step(&mut hs, TunnelEvent::Received(vec![5, 2])));
    assert_eq!(auth, auth_request(b"user", b"pass"));
    assert!(matches!(step(&mut hs, TunnelEvent::Sent), TunnelAction::ReceiveExact(2)));
    let req = sent_bytes(step(&mut hs, TunnelEvent::Received(vec![1, 0])));
    assert_eq!(req, connect_request(b"db.internal", 5432));
    step(&mut hs, TunnelEvent::Sent);
    assert!(matches!(
        step(&mut hs, TunnelEvent::Received(vec![5, 0, 0, 3])),
        TunnelAction::ReceiveExact(1)
    ));
    assert!(matches!(
        step(&mut hs, TunnelEvent::Received(vec![7])),
        TunnelAction::ReceiveExact(9)
    ));
    assert!(matches!(
        step(&mut hs, TunnelEvent::Received(vec![0; 9])),
        TunnelAction::Done
    ));
}

#[test]
fn auth_chosen_without_username_sends_empty_credentials() {
    let (mut hs, _) = Socks5Handshake::start(&proxy(None, None), "h", 1);
    step(&mut hs, TunnelEvent::Sent);
    let auth = sent_bytes(step(&mut hs, TunnelEvent::Received(vec![5, 2])));
    assert_eq!(auth, vec![1, 0, 0]);
}

#[test]
fn username_without_password_sends_empty_password() {
    let (mut hs, _) = Socks5Handshake::start(&proxy(Some("u"), None), "h", 1);
    step(&mut hs, TunnelEvent::Sent);
    let auth = sent_bytes(step(&mut hs, TunnelEvent::Received(vec![5, 2])));
    assert_eq!(auth, vec![1, 1, b'u', 0]);
}

#[test]
fn ipv6_bound_address_skips_eighteen_bytes() {
    let (mut hs, _) = Socks5Handshake::start(&proxy(None, None), "h", 1);
    step(&mut hs, TunnelEvent::Sent);
    step(&mut hs, TunnelEvent::Received(vec![5, 0]));
    step(&mut hs, TunnelEvent::Sent);
    assert!(matches!(
        step(&mut hs, TunnelEvent::Received(vec![5, 0, 0, 4])),
        TunnelAction::ReceiveExact(18)
    ));
    assert!(matches!(
        step(&mut hs, TunnelEvent::ReceiveFailed("eof".to_string())),
        TunnelAction::Done
    ));
}

#[test]
fn unknown_address_type_finishes_at_once() {
    let (mut hs, _) = Socks5Handshake::start(&proxy(None, None), "h", 1);
    step(&mut hs, TunnelEvent::Sent);
    step(&mut hs, TunnelEvent::Received(vec![5, 0]));
    step(&mut hs, TunnelEvent::Sent);
    assert!(matches!(
        step(&mut hs, TunnelEvent::Received(vec![5, 0, 0, 9])),
        TunnelAction::Done
    ));
}

#[test]
fn failed_length_read_skips_port_only() {
    let (mut hs, _) = Socks5Handshake::start(&proxy(None, None), "h", 1);
    step(&mut hs, TunnelEvent::Sent);
    step(&mut hs, TunnelEvent::Received(vec![5, 0]));
    step(&mut hs, TunnelEvent::Sent);
    step(&mut hs, TunnelEvent::Received(vec![5, 0, 0, 3]));
    assert!(matches!(
        step(&mut hs, TunnelEvent::ReceiveFailed("eof".to_string())),
        TunnelAction::ReceiveExact(2)
    ));
}

fn after_greeting(reply: Vec<u8>) -> TunnelAction {
    let (mut hs, _) = Socks5Handshake::start(&proxy(Some("u"), Some("p")), "h", 1);
    step(&mut hs, TunnelEvent::Sent);
    step(&mut hs, TunnelEvent::Received(reply))
}

#[test]
fn method_reply_errors() {
    assert_eq!(failure_text(after_greeting(vec![4, 0])), "SOCKS5: invalid version 4");
    assert_eq!(
        failure_text(after_greeting(vec![5, 255])),
        "SOCKS5: no acceptable auth method"
    );
    assert_eq!(
        failure_text(after_greeting(vec![5, 1])),
        "SOCKS5: unsupported auth method 1"
    );
    assert_eq!(
        failure_text(after_greeting(vec![5, 128])),
        "SOCKS5: unsupported auth method 128"
    );
}

#[test]
fn authentication_refused() {
    let (mut hs, _) = Socks5Handshake::start(&proxy(Some("u"), Some("p")), "h", 1);
    step(&mut hs, TunnelEvent::Sent);
    step(&mut hs, TunnelEvent::Received(vec![5, 2]));
    step(&mut hs, TunnelEvent::Sent);
    let a = step(&mut hs, TunnelEvent::Received(vec![1, 1]));
    assert!(matches!(a, TunnelAction::Fail(HandshakeError::Socks5AuthFailed)));
    assert_eq!(failure_text(a), "SOCKS5: authentication failed");
    assert_eq!(hs.phase(), Socks5Phase::Failed);
    assert!(!hs.accepts(&TunnelEvent::Sent));
    assert!(!hs.accepts(&TunnelEvent::Received(vec![0, 0])));
}

fn reply_head(head: Vec<u8>) -> TunnelAction {
    let (mut hs, _) = Socks5Handshake::start(&proxy(None, None), "h", 1);
    step(&mut hs, TunnelEvent::Sent);
    step(&mut hs, TunnelEvent::Received(vec![5, 0]));
    step(&mut hs, TunnelEvent::Sent);
    step(&mut hs, TunnelEvent::Received(head))
}

#[test]
fn connect_reply_codes() {
    let cases = [
        (1u8, "general SOCKS server failure"),
        (2, "connection not allowed by ruleset"),
        (3, "network unreachable"),
        (4, "host unreachable"),
        (5, "connection refused"),
        (6, "TTL expired"),
        (7, "command not supported"),
        (8, "address type not supported"),
        (9, "unknown error"),
        (255, "unknown error"),
    ];
    for (code, text) in cases {
        assert_eq!(
            failure_text(reply_head(vec![5, code, 0, 1])),
            format!("SOCKS5 connect failed: {}", text)
        );
    }
    assert_eq!(
        failure_text(reply_head(vec![6, 0, 0, 1])),
        "SOCKS5: invalid response version 6"
    );
}

#[test]
fn io_failures_name_their_stage() {
    let (mut hs, _) = Socks5Handshake::start(&proxy(None, None), "h", 1);
    assert_eq!(
        failure_text(step(&mut hs, TunnelEvent::SendFailed("broken pipe".to_string()))),
        "SOCKS5 greeting write failed: broken pipe"
    );
    let (mut hs, _) = Socks5Handshake::start(&proxy(None, None), "h", 1);
    step(&mut hs, TunnelEvent::Sent);
    assert_eq!(
        failure_text(step(&mut hs, TunnelEvent::ReceiveFailed("eof".to_string()))),
        "SOCKS5 greeting read failed: eof"
    );
    let (mut hs, _) = Socks5Handshake::start(&proxy(Some("u"), None), "h", 1);
    step(&mut hs, TunnelEvent::Sent);
    step(&mut hs, TunnelEvent::Received(vec![5, 2]));
    assert_eq!(
        failure_text(step(&mut hs, TunnelEvent::SendFailed("x".to_string()))),
        "SOCKS5 auth write failed: x"
    );
    let (mut hs, _) = Socks5Handshake::start(&proxy(None, None), "h", 1);
    step(&mut hs, TunnelEvent::Sent);
    step(&mut hs, TunnelEvent::Received(vec![5, 0]));
    assert_eq!(
        failure_text(step(&mut hs, TunnelEvent::SendFailed("y".to_string()))),
        "SOCKS5 connect write failed: y"
    );
    step_fail_stage_matches();
}

fn step_fail_stage_matches() {
    let (mut hs, _) = Socks5Handshake::start(&proxy(None, None), "h", 1);
    step(&mut hs, TunnelEvent::Sent);
    step(&mut hs, TunnelEvent::Received(vec![5, 0]));
    step(&mut hs, TunnelEvent::Sent);
    let a = step(&mut hs, TunnelEvent::ReceiveFailed("reset".to_string()));
    match a {
        TunnelAction::Fail(HandshakeError::Socks5ReadFailed(stage, d)) => {
            assert_eq!(stage, Socks5Stage::Connect);
            assert_eq!(d, "reset");
        }
        other => panic!("unexpected {:?}", other),
    }
}

#[test]
fn wrong_length_reply_is_not_accepted() {
    let (mut hs, _) = Socks5Handshake::start(&proxy(None, None), "h", 1);
    assert!(!hs.accepts(&TunnelEvent::Received(vec![5, 0])));
    step(&mut hs, TunnelEvent::Sent);
    assert!(!hs.accepts(&TunnelEvent::Received(vec![5])));
    assert!(!hs.accepts(&TunnelEvent::Sent));
    assert!(hs.accepts(&TunnelEvent::Received(vec![5, 0])));
}
