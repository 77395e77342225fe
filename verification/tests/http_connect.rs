use neoshell_core::proxy::config::{ProxyConfig, ProxyType};
use neoshell_core::proxy::http::{
    basic_credential, find_subsequence, http_connect_request, http_response_verdict, next_read_size,
    parse_u16, HttpConnectHandshake, HttpPhase, HttpVerdict, RESPONSE_LIMIT,
};
use neoshell_core::proxy::tunnel::{TunnelAction, TunnelEvent};
use neoshell_core::text::{decimal, socket_address};

fn proxy(user: Option<&str>, pass: Option<&str>) -> ProxyConfig {
    ProxyConfig {
        id: "h".to_string(),
        name: "h".to_string(),
        proxy_type: ProxyType::Http,
        host: "proxy".to_string(),
        port: 3128,
        username: user.map(|s| s.to_string()),
        password: pass.map(|s| s.to_string()),
    }
}

#[test]
fn find_subsequence_finds_first_occurrence() {
    assert_eq!(find_subsequence(b"ab\r\n\r\ncd\r\n\r\n", b"\r\n\r\n"), Some(2));
    assert_eq!(find_subsequence(b"aaa", b"aa"), Some(0));
    assert_eq!(find_subsequence(b"xyz", b"z"), Some(2));
}

#[test]
fn find_subsequence_absent() {
    assert_eq!(find_subsequence(b"abc", b"abcd"), None);
    assert_eq!(find_subsequence(b"", b"a"), None);
    assert_eq!(find_subsequence(b"\r\n\r", b"\r\n\r\n"), None);
}

#[test]
fn decimal_and_address() {
    assert_eq!(decimal(0), "0");
    assert_eq!(decimal(7), "7");
    assert_eq!(decimal(65535), "65535");
    assert_eq!(decimal(u64::MAX), "18446744073709551615");
    assert_eq!(socket_address("example.com", 22), "example.com:22");
    assert_eq!(socket_address("::1", 0), "::1:0");
}

#[test]
fn parse_u16_as_std_parses() {
    for t in ["200", "+200", "0200", "0", "65535", "-1", "65536", "", "+", "2 0", "२००", "20a"] {
        assert_eq!(parse_u16(t), t.parse::<u16>().ok(), "token {:?}", t);
    }
}

#[test]
fn status_code_roundtrip() {
    for code in [0u16, 7, 200, 407, 65535] {
        assert_eq!(parse_u16(&decimal(code as u64)), Some(code));
    }
}

#[test]
fn basic_credential_encodes_user_colon_pass() {
    assert_eq!(basic_credential("user", "pass"), "dXNlcjpwYXNz");
    assert_eq!(basic_credential("", ""), "Og==");
    assert_eq!(basic_credential("ü", "x"), "w7w6eA==");
}

#[test]
fn connect_request_text() {
    assert_eq!(
        http_connect_request("example.com", 22, None),
        "CONNECT example.com:22 HTTP/1.1\r\nHost: example.com:22\r\n\r\n"
    );
    assert_eq!(
        http_connect_request("example.com", 22, Some("dXNlcjpwYXNz")),
        "CONNECT example.com:22 HTTP/1.1\r\nHost: example.com:22\r\nProxy-Authorization: Basic dXNlcjpwYXNz\r\n\r\n"
    );
}

#[test]
fn verdict_established_on_200() {
    assert!(matches!(
        http_response_verdict(b"HTTP/1.1 200 Connection established\r\n\r\n"),
        HttpVerdict::Established
    ));
    assert!(matches!(
        http_response_verdict(b"HTTP/1.0 200\r\nProxy-Agent: x\r\n\r\nextra"),
        HttpVerdict::Established
    ));
    assert!(matches!(
        http_response_verdict(b"  HTTP/1.1\t+0200 OK\r\n\r\n"),
        HttpVerdict::Established
    ));
}

#[test]
fn verdict_splits_on_unicode_whitespace() {
    assert!(matches!(
        http_response_verdict("HTTP/1.1\u{a0}200\r\n\r\n".as_bytes()),
        HttpVerdict::Established
    ));
}

#[test]
fn verdict_refused_keeps_status_line() {
    match http_response_verdict(b"HTTP/1.1 407 Proxy Authentication Required\r\nX: y\r\n\r\n") {
        HttpVerdict::Refused(line) => assert_eq!(line, "HTTP/1.1 407 Proxy Authentication Required"),
        other => panic!("{}", matches!(other, HttpVerdict::Established)),
    }
    match http_response_verdict(b"HTTP/1.1 abc\r\n\r\n") {
        HttpVerdict::Refused(line) => assert_eq!(line, "HTTP/1.1 abc"),
        _ => panic!("expected refusal"),
    }
}

#[test]
fn verdict_invalid_without_code() {
    match http_response_verdict(b"\r\n\r\n") {
        HttpVerdict::Invalid(h) => assert_eq!(h, ""),
        _ => panic!("expected invalid"),
    }
    match http_response_verdict(b"HTTP/1.1\r\nX: 200\r\n\r\n") {
        HttpVerdict::Invalid(h) => assert_eq!(h, "HTTP/1.1\r\nX: 200"),
        _ => panic!("expected invalid"),
    }
    match http_response_verdict(b"\n200 OK\r\n\r\n") {
        HttpVerdict::Invalid(h) => assert_eq!(h, "\n200 OK"),
        _ => panic!("expected invalid"),
    }
}

#[test]
fn verdict_decodes_invalid_utf8_lossily() {
    match http_response_verdict(b"\xff\xfe\r\n\r\n") {
        HttpVerdict::Invalid(h) => assert_eq!(h, "\u{fffd}\u{fffd}"),
        _ => panic!("expected invalid"),
    }
    match http_response_verdict(b"HTTP/1.1 5\xff0\r\n\r\n") {
        HttpVerdict::Refused(l) => assert_eq!(l, "HTTP/1.1 5\u{fffd}0"),
        _ => panic!("expected refusal"),
    }
}

#[test]
fn verdict_lone_carriage_return_stays_in_line() {
    match http_response_verdict(b"HTTP/1.1 404 x\r\r\n\r\n") {
        HttpVerdict::Refused(l) => assert_eq!(l, "HTTP/1.1 404 x\r"),
        _ => panic!("expected refusal"),
    }
}

#[test]
fn verdict_incomplete_and_too_large() {
    assert!(matches!(http_response_verdict(b"HTTP/1.1 200 OK\r\n"), HttpVerdict::Incomplete));
    assert!(matches!(http_response_verdict(b""), HttpVerdict::Incomplete));
    let big = vec![b'a'; RESPONSE_LIMIT];
    assert!(matches!(http_response_verdict(&big), HttpVerdict::TooLarge));
}

fn sent(a: TunnelAction) -> Vec<u8> {
    match a {
        TunnelAction::Send(b) => b,
        other => panic!("expected Send, got {:?}", other),
    }
}

fn fail_text(a: TunnelAction) -> String {
    match a {
        TunnelAction::Fail(e) => e.message(),
        other => panic!("expected Fail, got {:?}", other),
    }
}

/// Runs the handshake against a server that has `stream` ready to send,
/// handing each read at most the size asked for. Returns the last action
/// and what is left of the stream.
fn drive(hs: &mut HttpConnectHandshake, stream: &[u8]) -> (TunnelAction, Vec<u8>) {
    let mut pos = 0;
    let mut action = hs.step(TunnelEvent::Sent);
    loop {
        match action {
            TunnelAction::ReceiveSome(n) => {
                let end = std::cmp::min(pos + n, stream.len());
                let chunk = stream[pos..end].to_vec();
                pos = end;
                let ev = TunnelEvent::Received(chunk);
                assert!(hs.accepts(&ev));
                action = hs.step(ev);
            }
            other => return (other, stream[pos..].to_vec()),
        }
    }
}

#[test]
fn handshake_with_auth_established() {
    let (mut hs, first) = HttpConnectHandshake::start(&proxy(Some("user"), Some("pass")), "example.com", 22);
    assert_eq!(
        String::from_utf8(sent(first)).unwrap(),
        "CONNECT example.com:22 HTTP/1.1\r\nHost: example.com:22\r\nProxy-Authorization: Basic dXNlcjpwYXNz\r\n\r\n"
    );
    let (last, rest) = drive(&mut hs, b"HTTP/1.1 200 OK\r\n\r\n");
    assert!(matches!(last, TunnelAction::Done));
    assert!(rest.is_empty());
    assert_eq!(hs.phase(), HttpPhase::Done);
}

#[test]
fn handshake_leaves_bytes_after_header_unread() {
    let (mut hs, _) = HttpConnectHandshake::start(&proxy(None, None), "example.com", 22);
    let mut stream = b"HTTP/1.1 200 Connection established\r\nProxy-Agent: p\r\n\r\n".to_vec();
    stream.extend_from_slice(b"SSH-2.0-OpenSSH_9.6\r\n");
    let (last, rest) = drive(&mut hs, &stream);
    assert!(matches!(last, TunnelAction::Done));
    assert_eq!(rest, b"SSH-2.0-OpenSSH_9.6\r\n".to_vec());
}

#[test]
fn handshake_reads_at_most_what_the_header_needs() {
    let (mut hs, _) = HttpConnectHandshake::start(&proxy(None, None), "h", 80);
    assert!(matches!(hs.step(TunnelEvent::Sent), TunnelAction::ReceiveSome(4)));
    assert!(!hs.accepts(&TunnelEvent::Received(vec![b'H'; 5])));
    match hs.step(TunnelEvent::Received(b"HT\r\n".to_vec())) {
        TunnelAction::ReceiveSome(n) => assert_eq!(n, 2),
        other => panic!("{:?}", other),
    }
    assert!(!hs.accepts(&TunnelEvent::Received(b"\r\nX".to_vec())));
}

#[test]
fn next_read_size_stops_at_header_end() {
    assert_eq!(next_read_size(b""), 4);
    assert_eq!(next_read_size(b"abc"), 4);
    assert_eq!(next_read_size(b"ab\r"), 3);
    assert_eq!(next_read_size(b"ab\r\n"), 2);
    assert_eq!(next_read_size(b"ab\r\n\r"), 1);
    assert_eq!(next_read_size(b"\r\r"), 3);
    assert_eq!(next_read_size(&vec![b'a'; 1022]), 2);
    assert_eq!(next_read_size(&vec![b'a'; RESPONSE_LIMIT]), 0);
}

#[test]
fn handshake_without_username_has_no_auth_header() {
    let (_, first) = HttpConnectHandshake::start(&proxy(None, Some("ignored")), "h", 80);
    assert_eq!(
        String::from_utf8(sent(first)).unwrap(),
        "CONNECT h:80 HTTP/1.1\r\nHost: h:80\r\n\r\n"
    );
}

#[test]
fn handshake_username_without_password() {
    let (_, first) = HttpConnectHandshake::start(&proxy(Some("user"), None), "h", 80);
    let text = String::from_utf8(sent(first)).unwrap();
    assert!(text.contains("Proxy-Authorization: Basic dXNlcjo=\r\n"));
}

#[test]
fn handshake_failures() {
    let (mut hs, _) = HttpConnectHandshake::start(&proxy(None, None), "h", 80);
    assert_eq!(
        fail_text(hs.step(TunnelEvent::SendFailed("broken pipe".to_string()))),
        "HTTP CONNECT write failed: broken pipe"
    );

    let (mut hs, _) = HttpConnectHandshake::start(&proxy(None, None), "h", 80);
    hs.step(TunnelEvent::Sent);
    assert_eq!(
        fail_text(hs.step(TunnelEvent::Received(Vec::new()))),
        "HTTP CONNECT: proxy closed connection"
    );

    let (mut hs, _) = HttpConnectHandshake::start(&proxy(None, None), "h", 80);
    hs.step(TunnelEvent::Sent);
    assert_eq!(
        fail_text(hs.step(TunnelEvent::ReceiveFailed("timed out".to_string()))),
        "HTTP CONNECT read failed: timed out"
    );

    let (mut hs, _) = HttpConnectHandshake::start(&proxy(None, None), "h", 80);
    hs.step(TunnelEvent::Sent);
    assert_eq!(
        fail_text(hs.step(TunnelEvent::Received(b"HTTP/1.1 403 Forbidden\r\n\r\n".to_vec()))),
        "HTTP CONNECT failed: HTTP/1.1 403 Forbidden"
    );

    let (mut hs, _) = HttpConnectHandshake::start(&proxy(None, None), "h", 80);
    hs.step(TunnelEvent::Sent);
    assert_eq!(
        fail_text(hs.step(TunnelEvent::Received(b"garbage\r\n\r\n".to_vec()))),
        "HTTP CONNECT: invalid response: garbage"
    );

    let (mut hs, _) = HttpConnectHandshake::start(&proxy(None, None), "h", 80);
    let (last, rest) = drive(&mut hs, &vec![b'x'; 2000]);
    assert_eq!(fail_text(last), "HTTP CONNECT: response too large");
    assert_eq!(rest.len(), 2000 - RESPONSE_LIMIT);
    assert_eq!(hs.phase(), HttpPhase::Failed);
    assert!(!hs.accepts(&TunnelEvent::Sent));
}
