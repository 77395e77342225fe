use neoshell_core::proxy::config::ProxyType;
use neoshell_core::proxy::probe::{ProbeAction, ProbeEvent, ProbePhase, ProxyProbe};
use neoshell_core::proxy::config::ProxyTestResult;

fn report(a: ProbeAction) -> ProxyTestResult {
    match a {
        ProbeAction::Report(r) => r,
        other => panic!("expected report, got {:?}", other),
    }
}

#[test]
fn http_proxy_reachable_after_connect() {
    let mut p = ProxyProbe::new(ProxyType::Http);
    let r = report(p.step(ProbeEvent::Connected(42)));
    assert!(r.reachable);
    assert_eq!(r.latency_ms, 42);
    assert_eq!(r.error, None);
    assert_eq!(p.phase(), ProbePhase::Finished);
}

#[test]
fn socks_proxy_answering_greeting() {
    let mut p = ProxyProbe::new(ProxyType::Socks5h);
    match p.step(ProbeEvent::Connected(10)) {
        ProbeAction::Send(b) => assert_eq!(b, vec![5, 1, 0]),
        other => panic!("{:?}", other),
    }
    assert!(matches!(p.step(ProbeEvent::Sent), ProbeAction::ReceiveExact(2)));
    let r = report(p.step(ProbeEvent::Received(vec![5, 0], 17)));
    assert!(r.reachable);
    assert_eq!(r.latency_ms, 17);
    assert_eq!(r.error, None);
}

#[test]
fn socks_proxy_with_wrong_reply() {
    let mut p = ProxyProbe::new(ProxyType::Socks5h);
    p.step(ProbeEvent::Connected(10));
    p.step(ProbeEvent::Sent);
    let r = report(p.step(ProbeEvent::Received(vec![4, 0], 30)));
    assert!(r.reachable);
    assert_eq!(r.latency_ms, 10);
    assert_eq!(r.error.as_deref(), Some("TCP OK but SOCKS5 handshake failed"));
}

#[test]
fn socks_proxy_failing_io() {
    let mut p = ProxyProbe::new(ProxyType::Socks5h);
    p.step(ProbeEvent::Connected(3));
    let r = report(p.step(ProbeEvent::SendFailed));
    assert_eq!(r.latency_ms, 3);
    assert_eq!(r.error.as_deref(), Some("TCP OK but SOCKS5 handshake failed"));

    let mut p = ProxyProbe::new(ProxyType::Socks5h);
    p.step(ProbeEvent::Connected(4));
    p.step(ProbeEvent::Sent);
    let r = report(p.step(ProbeEvent::ReceiveFailed));
    assert!(r.reachable);
    assert_eq!(r.latency_ms, 4);
}

#[test]
fn unreachable_proxies() {
    let r = report(ProxyProbe::new(ProxyType::Http).step(ProbeEvent::ResolveFailed("no such host".to_string())));
    assert!(!r.reachable);
    assert_eq!(r.latency_ms, 0);
    assert_eq!(r.error.as_deref(), Some("DNS: no such host"));

    let r = report(ProxyProbe::new(ProxyType::Socks5h).step(ProbeEvent::NoAddress));
    assert_eq!(r.error.as_deref(), Some("No address found"));
    assert_eq!(r.latency_ms, 0);

    let r = report(ProxyProbe::new(ProxyType::Socks5h).step(ProbeEvent::ConnectFailed("refused".to_string(), 5000)));
    assert!(!r.reachable);
    assert_eq!(r.latency_ms, 5000);
    assert_eq!(r.error.as_deref(), Some("refused"));
}
